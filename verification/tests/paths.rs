use granite_cli::config::paths::config_file;
use granite_cli::config::paths::config_home;
use granite_cli::config::paths::item_file;
use granite_cli::config::paths::join_path_exec;
use granite_cli::config::paths::section_dir;
use granite_cli::config::paths::yaml_stem_exec;

#[test]
fn home_comes_from_the_environment_when_valid() {
    assert_eq!(config_home(Some("/tmp/gc"), false, false, true, Some("/home/u/.config")), Ok("/tmp/gc".to_string()));
    assert_eq!(config_home(Some("/tmp/gc"), true, true, true, None), Ok("/tmp/gc".to_string()));
    assert_eq!(
        config_home(Some("/tmp/file"), true, false, true, None),
        Err("Invalid GRANITE_CLI_HOME: '/tmp/file' parent does not exist or is not a directory.".to_string())
    );
    assert!(config_home(Some("/no/parent/x"), false, false, false, None).is_err());
}

#[test]
fn home_defaults_to_the_system_config_directory() {
    assert_eq!(config_home(None, false, false, false, Some("/home/u/.config")), Ok("/home/u/.config/granite-cli".to_string()));
    assert_eq!(config_home(Some(""), false, false, false, Some("/cfg/")), Ok("/cfg/granite-cli".to_string()));
    assert_eq!(
        config_home(None, false, false, false, None),
        Err("Could not determine system configuration directory".to_string())
    );
}

#[test]
fn files_are_laid_out_under_the_home() {
    assert_eq!(config_file("/h"), "/h/config.yaml");
    assert_eq!(section_dir("/h", "models"), "/h/models");
    assert_eq!(item_file("/h/models", "granite-3.1-8b-instruct"), "/h/models/granite-3.1-8b-instruct.yaml");
    assert_eq!(join_path_exec("/h", "/abs"), "/abs");
}

#[test]
fn yaml_files_name_their_items() {
    assert_eq!(yaml_stem_exec("ollama.yaml"), Some("ollama".to_string()));
    assert_eq!(yaml_stem_exec("granite-3.1-8b.yaml"), Some("granite-3.1-8b".to_string()));
    assert_eq!(yaml_stem_exec("notes.txt"), None);
    assert_eq!(yaml_stem_exec(".yaml"), None);
    assert_eq!(yaml_stem_exec("noext"), None);
}
