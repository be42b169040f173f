use granite_cli::capabilities::Dependency;
use granite_cli::config::exports::print_export_instructions;
use granite_cli::config::exports::Exporter;
use granite_cli::config::shell::detect_shell;
use granite_cli::config::shell::profile_candidates;
use granite_cli::config::shell::ProfileSearch;
use granite_cli::config::Config;
use granite_cli::config::ModelConfig;
use granite_cli::config::ShellConfig;
use granite_cli::di::graph::DependencyGraph;
use granite_cli::di::graph::GraphError;
use granite_cli::registry::CapabilityDefinition;
use granite_cli::registry::CapabilityRegistry;
use granite_cli::registry::Registry;

fn docling_def() -> CapabilityDefinition {
    CapabilityRegistry::bundled_capabilities().into_iter().find(|c| c.id == "docling").unwrap()
}

fn vision_def() -> CapabilityDefinition {
    CapabilityRegistry::bundled_capabilities().into_iter().find(|c| c.id == "vision").unwrap()
}

#[test]
fn test_no_cycles_for_single_capability() {
    let registry = CapabilityRegistry::new();
    assert!(registry.get("docling").is_some());
    let graph = DependencyGraph::new("docling".to_string(), docling_def());
    let cycles = graph.detect_cycles().unwrap();
    assert!(cycles.is_empty());
}

#[test]
fn test_topological_sort_single_capability() {
    let graph = DependencyGraph::new("docling".to_string(), docling_def());
    let order = graph.topological_sort().unwrap();
    assert!(order.contains(&"docling".to_string()));
}

#[test]
fn test_get_all_dependencies_docling() {
    let graph = DependencyGraph::new("docling".to_string(), docling_def());
    let deps = graph.get_all_dependencies();
    assert!(deps.is_empty());
}

#[test]
fn test_get_all_dependencies_vision() {
    let graph = DependencyGraph::new("vision".to_string(), vision_def());
    let deps = graph.get_all_dependencies();
    assert!(deps.is_empty());
}

fn cap(id: &str, deps: &[&str]) -> CapabilityDefinition {
    CapabilityDefinition {
        id: id.to_string(),
        name: id.to_string(),
        description: String::new(),
        version: "0.1.0".to_string(),
        dependencies: deps
            .iter()
            .map(|d| Dependency::Capability { id: d.to_string(), required: true })
            .collect(),
        hooks: vec![],
        tags: vec![],
    }
}

#[test]
fn topological_order_puts_dependencies_first() {
    let catalog = vec![cap("app", &["db", "cache"]), cap("cache", &["db"]), cap("db", &[])];
    let graph = DependencyGraph::with_catalog("app".to_string(), cap("app", &[]), catalog);
    let order = graph.topological_sort().unwrap();
    assert_eq!(order, vec!["db".to_string(), "cache".to_string(), "app".to_string()]);
}

#[test]
fn transitive_dependencies_are_collected_once() {
    let catalog = vec![cap("app", &["db", "cache"]), cap("cache", &["db"]), cap("db", &[])];
    let graph = DependencyGraph::with_catalog("app".to_string(), cap("app", &[]), catalog);
    let mut deps = graph.get_all_dependencies();
    deps.sort();
    assert_eq!(deps, vec!["cache".to_string(), "db".to_string()]);
}

#[test]
fn a_cycle_is_reported_and_gives_an_empty_order() {
    let catalog = vec![cap("a", &["b"]), cap("b", &["c"]), cap("c", &["a"])];
    let graph = DependencyGraph::with_catalog("a".to_string(), cap("a", &[]), catalog);
    let cycles = graph.detect_cycles().unwrap();
    assert_eq!(cycles, vec![vec!["a".to_string(), "b".to_string(), "c".to_string()]]);
    match graph.topological_sort() {
        Ok(order) => assert!(order.is_empty()),
        Err(GraphError::CircularDependency(c)) => panic!("expected an empty order, got cycles {c:?}"),
    }
}

#[test]
fn a_self_dependency_is_a_cycle() {
    let catalog = vec![cap("a", &["a"])];
    let graph = DependencyGraph::with_catalog("a".to_string(), cap("a", &[]), catalog);
    assert_eq!(graph.detect_cycles().unwrap(), vec![vec!["a".to_string()]]);
}

#[test]
fn a_cycle_below_the_root_is_found() {
    let catalog = vec![cap("app", &["b"]), cap("b", &["c"]), cap("c", &["b"])];
    let graph = DependencyGraph::with_catalog("app".to_string(), cap("app", &[]), catalog);
    assert_eq!(graph.detect_cycles().unwrap(), vec![vec!["b".to_string(), "c".to_string()]]);
}

#[test]
fn an_acyclic_graph_has_no_cycles() {
    let catalog = vec![cap("app", &["db", "cache"]), cap("cache", &["db"]), cap("db", &[])];
    let graph = DependencyGraph::with_catalog("app".to_string(), cap("app", &[]), catalog);
    assert!(graph.detect_cycles().unwrap().is_empty());
}

// -- exports -------------------------------------------------------------------

#[test]
fn test_generate_export_bash() {
    let exporter = Exporter::new(
        "bash".to_string(),
        "/tmp/testrc".to_string(),
        "export {VAR}=\"{VALUE}\"".to_string(),
    );
    let result = exporter.generate_export("API_KEY", "secret123");
    assert_eq!(result, "export API_KEY=\"secret123\"");
}

#[test]
fn test_generate_export_zsh() {
    let exporter = Exporter::new(
        "zsh".to_string(),
        "/tmp/testrc".to_string(),
        "export {VAR}=\"{VALUE}\"".to_string(),
    );
    let result = exporter.generate_export("BASE_URL", "http://localhost:8080");
    assert_eq!(result, "export BASE_URL=\"http://localhost:8080\"");
}

#[test]
fn test_generate_export_fish() {
    let exporter = Exporter::new(
        "fish".to_string(),
        "/tmp/testrc".to_string(),
        "set -gx {VAR} \"{VALUE}\"".to_string(),
    );
    let result = exporter.generate_export("API_KEY", "secret123");
    assert_eq!(result, "set -gx API_KEY \"secret123\"");
}

fn bash_exporter() -> Exporter {
    Exporter::new(
        "bash".to_string(),
        "/tmp/testrc".to_string(),
        "export {VAR}=\"{VALUE}\"".to_string(),
    )
}

#[test]
fn exports_section_replaces_the_old_one_and_keeps_the_rest() {
    let e = bash_exporter();
    let vars = vec![("API_KEY".to_string(), "secret123".to_string())];
    let first = e.with_exports("# Existing content\nexport OTHER_VAR=\"value\"\n", &vars);
    assert_eq!(
        first,
        "# Existing content\nexport OTHER_VAR=\"value\"\n# === granite-cli exports start ===\nexport API_KEY=\"secret123\"\n# === granite-cli exports end ===\n"
    );
    let vars2 = vec![("BASE_URL".to_string(), "http://x".to_string())];
    let second = e.with_exports(&first, &vars2);
    assert!(!second.contains("API_KEY"));
    assert!(second.contains("export BASE_URL=\"http://x\""));
    assert!(second.starts_with("# Existing content\nexport OTHER_VAR=\"value\"\n"));
}

#[test]
fn removing_the_exports_section_leaves_other_lines() {
    let e = bash_exporter();
    let vars = vec![("API_KEY".to_string(), "secret123".to_string())];
    let added = e.with_exports("line one\n", &vars);
    assert!(e.has_exports(&added));
    let removed = e.without_exports(&added);
    assert_eq!(removed, "line one\n");
    assert!(!e.has_exports(&removed));
}

#[test]
fn export_instructions_mask_values() {
    let vars = vec![
        ("API_KEY".to_string(), "abcdefghijkl".to_string()),
        ("SHORT".to_string(), "abc".to_string()),
    ];
    let msgs = print_export_instructions(&vars, "bash", "/home/u/.bashrc");
    assert_eq!(msgs.len(), 4);
    assert!(msgs[0].contains("/home/u/.bashrc"));
    assert_eq!(msgs[1], "  export API_KEY=\"abcd****ijkl\"");
    assert_eq!(msgs[2], "  export SHORT=\"****\"");
}

// -- shell -------------------------------------------------------------------------

#[test]
fn shell_detection_prefers_an_existing_profile() {
    let search = ProfileSearch {
        shell_env: Some("/bin/zsh".to_string()),
        home: Some("/home/u".to_string()),
        xdg_config_home: None,
    };
    let cands = profile_candidates(&search);
    assert_eq!(cands, vec!["/home/u/.zprofile", "/home/u/.zshrc", "/home/u/.profile"]);
    let (name, file, format) = detect_shell(&search, &vec!["/home/u/.profile".to_string()]);
    assert_eq!(name, "zsh");
    assert_eq!(file, "/home/u/.profile");
    assert_eq!(format, "export {VAR}=\"{VALUE}\"");
    let (_, fallback, _) = detect_shell(&search, &vec![]);
    assert_eq!(fallback, "/home/u/.zshrc");
}

#[test]
fn fish_uses_its_own_syntax() {
    let search = ProfileSearch {
        shell_env: Some("/usr/bin/fish".to_string()),
        home: Some("/home/u".to_string()),
        xdg_config_home: Some("/cfg".to_string()),
    };
    let (name, file, format) = detect_shell(&search, &vec![]);
    assert_eq!(name, "fish");
    assert_eq!(file, "/home/u/.config/fish/config.fish");
    assert_eq!(format, "set -gx {VAR} \"{VALUE}\"");
    assert_eq!(profile_candidates(&search)[0], "/cfg/fish/config.fish");
}

#[test]
fn unset_shell_is_unknown() {
    let search = ProfileSearch { shell_env: None, home: None, xdg_config_home: None };
    let (name, file, _) = detect_shell(&search, &vec![]);
    assert_eq!(name, "unknown");
    assert_eq!(file, "/etc/shell_exports");
}

#[test]
fn test_detect_shell_returns_name() {
    for env in [None, Some("/bin/bash"), Some("/usr/bin/zsh"), Some("/usr/local/bin/fish"), Some("/usr/bin/nu"), Some("/")] {
        let search = ProfileSearch { shell_env: env.map(|s| s.to_string()), home: Some("/home/u".to_string()), xdg_config_home: None };
        let result = detect_shell(&search, &vec![]);
        assert!(!result.0.is_empty());
        assert!(matches!(result.0.as_str(), "bash" | "zsh" | "fish" | "unknown"));
    }
    let nu = ProfileSearch { shell_env: Some("/usr/bin/nu".to_string()), home: None, xdg_config_home: None };
    assert_eq!(detect_shell(&nu, &vec![]).0, "unknown");
}

#[test]
fn test_shell_export_format() {
    for env in [None, Some("/bin/bash"), Some("/usr/bin/zsh"), Some("/usr/local/bin/fish"), Some("/usr/bin/nu")] {
        let search = ProfileSearch { shell_env: env.map(|s| s.to_string()), home: Some("/home/u".to_string()), xdg_config_home: None };
        let (name, _, format) = detect_shell(&search, &vec![]);
        assert!(format.contains("{VAR}"));
        assert!(format.contains("{VALUE}"));
        match name.as_str() {
            "fish" => assert!(format.contains("set -gx")),
            "bash" | "zsh" => assert!(format.contains("export")),
            _ => {}
        }
    }
}

// -- configuration -------------------------------------------------------------------

fn empty_config() -> Config {
    Config::new(ShellConfig {
        shell: "bash".to_string(),
        export_file: "/tmp/rc".to_string(),
        export_format: "export {VAR}=\"{VALUE}\"".to_string(),
    })
}

#[test]
fn a_configured_model_is_read_back_and_removed() {
    let mut config = empty_config();
    let mut m = ModelConfig::default();
    m.model_id = "granite-3.1-8b-instruct".to_string();
    m.provider_id = Some("ollama".to_string());
    config.insert_model("granite-3.1-8b-instruct", m);
    let got = config.get_model("granite-3.1-8b-instruct").unwrap();
    assert_eq!(got.provider_id.as_deref(), Some("ollama"));
    assert!(got.enabled);
    config.remove_model("granite-3.1-8b-instruct");
    assert!(config.get_model("granite-3.1-8b-instruct").is_none());
}

#[test]
fn rewriting_exports_with_multiline_values_replaces_the_section() {
    let e = Exporter::new("bash".to_string(), "/tmp/rc".to_string(), "export {VAR}=\"{VALUE}\"".to_string());
    let existing = "alias ll='ls -l'\n";
    let first = vec![("NOTE".to_string(), "line one\nline two".to_string())];
    let second = vec![("API_KEY".to_string(), "new_secret".to_string())];
    let once = e.with_exports(existing, &second);
    let twice = e.with_exports(&e.with_exports(existing, &first), &second);
    assert_eq!(twice, once);
    assert!(!twice.contains("line two"));
}

#[test]
fn removing_added_exports_restores_the_profile() {
    let e = Exporter::new("bash".to_string(), "/tmp/rc".to_string(), "export {VAR}=\"{VALUE}\"".to_string());
    let profile = "alias ll='ls -l'\nexport PATH=$PATH:/opt\n";
    let vars = vec![("API_KEY".to_string(), "secret".to_string())];
    assert_eq!(e.without_exports(&e.with_exports(profile, &vars)), profile);
    assert_eq!(e.without_exports(&e.with_exports("", &vars)), "");
}

#[test]
fn removing_added_multiline_exports_restores_the_profile() {
    let e = Exporter::new("bash".to_string(), "/tmp/rc".to_string(), "export {VAR}=\"{VALUE}\"".to_string());
    let profile = "alias ll='ls -l'\n";
    let vars = vec![("NOTE".to_string(), "line one\nline two".to_string())];
    let written = e.with_exports(profile, &vars);
    assert!(written.contains("line two"));
    assert_eq!(e.without_exports(&written), profile);
}

#[test]
fn adding_exports_backs_up_an_existing_profile() {
    let e = Exporter::new("bash".to_string(), "/home/u/.bashrc".to_string(), "export {VAR}=\"{VALUE}\"".to_string());
    let vars = vec![("API_KEY".to_string(), "secret".to_string())];
    let (content, backup) = e.add_exports_plan(Some("alias ll='ls -l'\n".to_string()), &vars);
    assert!(content.starts_with("alias ll='ls -l'\n# === granite-cli exports start ===\n"));
    assert_eq!(backup, Some(("/home/u/.bashrc.granite-cli-backup".to_string(), "alias ll='ls -l'\n".to_string())));
    let (fresh, none) = e.add_exports_plan(None, &vars);
    assert!(fresh.starts_with("# === granite-cli exports start ===\n"));
    assert!(none.is_none());
    assert_eq!(e.remove_exports_plan(None), None);
    assert_eq!(e.remove_exports_plan(Some(content)), Some("alias ll='ls -l'\n".to_string()));
}

#[test]
fn a_new_configuration_has_no_routes() {
    let c = empty_config();
    assert!(c.routing.model_routes.pairs().is_empty());
    let mut r = granite_cli::config::RoutingConfig::new();
    r.model_routes.insert(
        "granite".to_string(),
        vec![granite_cli::config::ProviderRoute { provider_id: "ollama".to_string(), priority: 1, health_check: true }],
    );
    assert_eq!(r.model_routes.get("granite").unwrap()[0].provider_id, "ollama");
}
