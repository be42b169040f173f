//! Checking a capability's dependencies against the configuration: which
//! capabilities of a resolution order have all they need, and what the
//! others miss.
//!
//! Whether an external tool is available is found by running its check
//! command, which the caller does; see `tool_invocation` for how the command
//! is read and `validate_dependencies` for how the outcomes are used.
use vstd::prelude::*;

use crate::capabilities::base::admits;
use crate::capabilities::base::admits_exec;
use crate::capabilities::base::Dependency;
use crate::models::base::ModelFunction;
use crate::strmap::lists_map;
use crate::config::Config;
use crate::di::graph::DependencyGraph;
use crate::di::graph::GraphError;
use crate::models::base::ModelMetadata;
use crate::registry::capabilities::CapabilityDefinition;
use crate::registry::find_entry;
use crate::registry::has_key;
use crate::registry::is_first_with_key;
use crate::registry::Factory;
use crate::strmap::StrMap;
use crate::text::chars_of;
use crate::text::contains_seq;
use crate::text::debug_escaped;
use crate::text::debug_quoted;
use crate::text::is_whitespace;
use crate::text::join2;
use crate::text::joined;
use crate::text::str_join;
use crate::text::str_contains;
use crate::text::string_of;
use crate::text::string_views;

verus! {

broadcast use crate::text::group_views;

/*-- reading a check command ------------------------------------------------------*/

/// The words of `s` so far, and the word being read, scanning left to right.
pub open spec fn word_scan(s: Seq<char>) -> (Seq<Seq<char>>, Seq<char>)
    decreases s.len(),
{
    if s.len() == 0 {
        (Seq::empty(), Seq::empty())
    } else {
        let prev = word_scan(s.drop_last());
        let c = s.last();
        if is_whitespace(c) {
            if prev.1.len() > 0 {
                (prev.0.push(prev.1), Seq::empty())
            } else {
                (prev.0, Seq::empty())
            }
        } else {
            (prev.0, prev.1.push(c))
        }
    }
}

/// The whitespace-separated words of `s` (std's `str::split_whitespace`).
pub open spec fn words(s: Seq<char>) -> Seq<Seq<char>> {
    let w = word_scan(s);
    if w.1.len() > 0 {
        w.0.push(w.1)
    } else {
        w.0
    }
}

/// The whitespace-separated words of `s`.
pub fn split_whitespace(s: &str) -> (r: Vec<String>)
    ensures
        string_views(r@) == words(s@),
{
    let v = chars_of(s);
    let mut done: Vec<String> = Vec::new();
    let mut cur: Vec<char> = Vec::new();
    let mut i: usize = 0;
    while i < v.len()
        invariant
            i <= v@.len(),
            v@ == s@,
            word_scan(s@.take(i as int)) == (string_views(done@), cur@),
        decreases v@.len() - i,
    {
        let c = v[i];
        proof {
            assert(s@.take(i + 1).drop_last() =~= s@.take(i as int));
            assert(s@.take(i + 1).last() == c);
        }
        if crate::text::is_whitespace_exec(c) {
            if cur.len() > 0 {
                let w = string_of(cur.as_slice());
                let ghost before = string_views(done@);
                done.push(w);
                assert(string_views(done@) =~= before.push(cur@));
            }
            cur = Vec::new();
            assert(cur@ =~= Seq::<char>::empty());
        } else {
            cur.push(c);
        }
        i += 1;
    }
    assert(s@.take(i as int) =~= s@);
    if cur.len() > 0 {
        let w = string_of(cur.as_slice());
        let ghost before = string_views(done@);
        done.push(w);
        assert(string_views(done@) =~= before.push(cur@));
    }
    done
}

/// The program and arguments a check command runs: its first word and the
/// rest; none for a command without words, which counts as unavailable.
pub fn tool_invocation(check_command: &str) -> (r: Option<(String, Vec<String>)>)
    ensures
        match r {
            Some((program, args)) => words(check_command@).len() > 0 && program@ == words(check_command@)[0]
                && string_views(args@) == words(check_command@).drop_first(),
            None => words(check_command@).len() == 0,
        },
{
    let mut ws = split_whitespace(check_command);
    if ws.len() == 0 {
        return None;
    }
    let ghost all = string_views(ws@);
    let program = ws.remove(0);
    assert(string_views(ws@) =~= all.drop_first());
    Some((program, ws))
}

/*-- what a dependency misses --------------------------------------------------------*/

/// The check command `cmd` ran and succeeded; a command without words never does.
pub open spec fn tool_available(tools: Map<Seq<char>, bool>, cmd: Seq<char>) -> bool {
    words(cmd).len() > 0 && tools.contains_key(cmd) && tools[cmd]
}

/// Configured model instance `k` is of a catalog model that supports every
/// function in `functions`.
pub open spec fn admitted_instance(
    config: Config,
    models: Map<Seq<char>, ModelMetadata>,
    functions: Seq<ModelFunction>,
    k: Seq<char>,
) -> bool {
    &&& config.models@.contains_key(k)
    &&& models.contains_key(config.models@[k].model_id@)
    &&& admits(functions, models[config.models@[k].model_id@])
}

/// Whether some configured model instance is of a catalog model that supports
/// every function in `functions`.
pub fn any_admitted(config: &Config, models: &Factory<ModelMetadata>, functions: &Vec<ModelFunction>) -> (b: bool)
    ensures
        b == exists|k: Seq<char>| #[trigger] admitted_instance(*config, models@, functions@, k),
{
    let pairs = config.models.pairs();
    let mut i: usize = 0;
    while i < pairs.len()
        invariant
            i <= pairs@.len(),
            lists_map(pairs@, config.models@),
            forall|j: int| 0 <= j < i ==> !#[trigger] admitted_instance(*config, models@, functions@, pairs@[j].0@),
        decreases pairs@.len() - i,
    {
        match models.get(pairs[i].1.model_id.as_str()) {
            Some(m) => {
                if admits_exec(functions, m) {
                    assert(admitted_instance(*config, models@, functions@, pairs@[i as int].0@));
                    return true;
                }
            },
            None => {},
        }
        i += 1;
    }
    assert forall|k: Seq<char>| !#[trigger] admitted_instance(*config, models@, functions@, k) by {
        if admitted_instance(*config, models@, functions@, k) {
            assert(config.models@.contains_key(k));
            let j = choose|j: int| 0 <= j < pairs@.len() && #[trigger] pairs@[j].0@ == k;
            assert(!admitted_instance(*config, models@, functions@, pairs@[j].0@));
        }
    }
    false
}

/// What a dependency misses, if anything: a model neither configured nor in
/// the model catalog, a provider not configured, an external tool whose
/// check failed, a capability neither configured nor in the capability catalog.
pub open spec fn missing_message(
    dep: Dependency,
    config: Config,
    models: Map<Seq<char>, ModelMetadata>,
    caps: Seq<CapabilityDefinition>,
    tools: Map<Seq<char>, bool>,
) -> Option<Seq<char>> {
    match dep {
        Dependency::Model { id, .. } => if !config.models@.contains_key(id@) && !models.contains_key(id@) {
            Some("Model '"@ + id@ + "' not available"@)
        } else {
            None
        },
        Dependency::ModelFor { config_key, functions, .. } => if !exists|k: Seq<char>|
            #[trigger] admitted_instance(config, models, functions@, k) {
            Some("No configured model satisfies '"@ + config_key@ + "'"@)
        } else {
            None
        },
        Dependency::Provider { id, .. } => if !config.providers@.contains_key(id@) {
            Some("Provider '"@ + id@ + "' not configured"@)
        } else {
            None
        },
        Dependency::ExternalTool { name, check_command } => if !tool_available(tools, check_command@) {
            Some("External tool '"@ + name@ + "' not found ("@ + check_command@ + ")"@)
        } else {
            None
        },
        Dependency::Capability { id, .. } => if !config.capabilities@.contains_key(id@) && !has_key(caps, id@) {
            Some("Capability '"@ + id@ + "' not available"@)
        } else {
            None
        },
    }
}

/// A model dependency is met when the model is configured (whether or not
/// the catalog knows it) or when the catalog knows it; it misses only a model
/// that is neither, and then says which.
pub proof fn law_model_dependency_met_by_config_or_catalog(
    dep: Dependency,
    config: Config,
    models: Map<Seq<char>, ModelMetadata>,
    caps: Seq<CapabilityDefinition>,
    tools: Map<Seq<char>, bool>,
)
    requires
        dep is Model,
    ensures
        config.models@.contains_key(dep->Model_id@) ==> missing_message(dep, config, models, caps, tools) is None,
        models.contains_key(dep->Model_id@) ==> missing_message(dep, config, models, caps, tools) is None,
        !config.models@.contains_key(dep->Model_id@) && !models.contains_key(dep->Model_id@) ==> missing_message(
            dep,
            config,
            models,
            caps,
            tools,
        ) == Some("Model '"@ + dep->Model_id@ + "' not available"@),
{
}

/// A provider dependency is met exactly when that provider is configured; a
/// capability dependency when the capability is configured or in the catalog.
pub proof fn law_provider_and_capability_dependencies(
    dep: Dependency,
    config: Config,
    models: Map<Seq<char>, ModelMetadata>,
    caps: Seq<CapabilityDefinition>,
    tools: Map<Seq<char>, bool>,
)
    ensures
        dep matches Dependency::Provider { id, .. } ==> (missing_message(dep, config, models, caps, tools) is None
            <==> config.providers@.contains_key(id@)),
        dep matches Dependency::Capability { id, .. } ==> (missing_message(dep, config, models, caps, tools) is None
            <==> (config.capabilities@.contains_key(id@) || has_key(caps, id@))),
{
}

/// Whether a dependency is satisfied, or what it misses.
pub enum DependencyStatus {
    Satisfied,
    Missing(String),
}

/// Whether `dep` is satisfied, or what it misses.
pub fn check_dependency(
    dep: &Dependency,
    config: &Config,
    models: &Factory<ModelMetadata>,
    caps: &Vec<CapabilityDefinition>,
    tools: &StrMap<bool>,
) -> (s: DependencyStatus)
    ensures
        match s {
            DependencyStatus::Satisfied => missing_message(*dep, *config, models@, caps@, tools@) is None,
            DependencyStatus::Missing(m) => missing_message(*dep, *config, models@, caps@, tools@) == Some(m@),
        },
        dep matches Dependency::Model { id, .. } && (config.models@.contains_key(id@) || models@.contains_key(id@))
            ==> s is Satisfied,
{
    proof {
        match dep {
            Dependency::Model { id, .. } => {
                law_model_dependency_met_by_config_or_catalog(*dep, *config, models@, caps@, tools@);
            },
            _ => {},
        }
    }
    match dep {
        Dependency::Model { id, .. } => {
            if config.get_model(id.as_str()).is_none() && models.get(id.as_str()).is_none() {
                let a = join2("Model '", id.as_str());
                DependencyStatus::Missing(join2(a.as_str(), "' not available"))
            } else {
                DependencyStatus::Satisfied
            }
        },
        Dependency::ModelFor { config_key, functions, .. } => {
            if !any_admitted(config, models, functions) {
                let a = join2("No configured model satisfies '", config_key.as_str());
                DependencyStatus::Missing(join2(a.as_str(), "'"))
            } else {
                DependencyStatus::Satisfied
            }
        },
        Dependency::Provider { id, .. } => {
            if config.get_provider(id.as_str()).is_none() {
                let a = join2("Provider '", id.as_str());
                DependencyStatus::Missing(join2(a.as_str(), "' not configured"))
            } else {
                DependencyStatus::Satisfied
            }
        },
        Dependency::ExternalTool { name, check_command } => {
            let runnable = tool_invocation(check_command.as_str()).is_some();
            let ok = runnable && match tools.get(check_command.as_str()) {
                Some(b) => *b,
                None => false,
            };
            if !ok {
                let a = join2("External tool '", name.as_str());
                let b = join2(a.as_str(), "' not found (");
                let c = join2(b.as_str(), check_command.as_str());
                DependencyStatus::Missing(join2(c.as_str(), ")"))
            } else {
                DependencyStatus::Satisfied
            }
        },
        Dependency::Capability { id, .. } => {
            let known = find_entry(caps, id.as_str()).is_some();
            if config.get_capability(id.as_str()).is_none() && !known {
                let a = join2("Capability '", id.as_str());
                DependencyStatus::Missing(join2(a.as_str(), "' not available"))
            } else {
                DependencyStatus::Satisfied
            }
        },
    }
}

/*-- a resolution order checked -------------------------------------------------------*/

/// `"true"` or `"false"`.
pub open spec fn bool_text(b: bool) -> Seq<char> {
    if b {
        "true"@
    } else {
        "false"@
    }
}

/// A dependency as Rust's `Debug` shows it.
pub open spec fn dependency_debug(d: Dependency) -> Seq<char> {
    match d {
        Dependency::Model { id, required } => "Model { id: \""@ + debug_escaped(id@) + "\", required: "@ + bool_text(
            required,
        ) + " }"@,
        Dependency::ModelFor { config_key, functions, required } => "ModelFor { config_key: \""@ + debug_escaped(
            config_key@,
        ) + "\", functions: ["@ + joined(
            Seq::new(functions@.len(), |i: int| functions@[i].debug_name()),
            ", "@,
        ) + "], required: "@ + bool_text(required) + " }"@,
        Dependency::Provider { id, required } => "Provider { id: \""@ + debug_escaped(id@) + "\", required: "@
            + bool_text(required) + " }"@,
        Dependency::ExternalTool { name, check_command } => "ExternalTool { name: \""@ + debug_escaped(name@)
            + "\", check_command: \""@ + debug_escaped(check_command@) + "\" }"@,
        Dependency::Capability { id, required } => "Capability { id: \""@ + debug_escaped(id@) + "\", required: "@
            + bool_text(required) + " }"@,
    }
}

fn bool_text_exec(b: bool) -> (s: String)
    ensures
        s@ == bool_text(b),
{
    if b {
        "true".to_string()
    } else {
        "false".to_string()
    }
}

/// A dependency as Rust's `Debug` shows it.
pub fn dependency_debug_text(d: &Dependency) -> (s: String)
    ensures
        s@ == dependency_debug(*d),
{
    proof {
        reveal_strlit("\"");
        reveal_strlit(", required: ");
        reveal_strlit("\", required: ");
        reveal_strlit(" }");
        reveal_strlit("\" }");
    }
    match d {
        Dependency::Model { id, required } => {
            let a = join2("Model { id: ", debug_quoted(id.as_str()).as_str());
            let b = join2(a.as_str(), ", required: ");
            let c = join2(b.as_str(), bool_text_exec(*required).as_str());
            let r = join2(c.as_str(), " }");
            proof {
                reveal_strlit("Model { id: ");
                reveal_strlit("Model { id: \"");
                assert(r@ =~= dependency_debug(*d));
            }
            r
        },
        Dependency::ModelFor { config_key, functions, required } => {
            let mut names: Vec<String> = Vec::new();
            let mut i: usize = 0;
            while i < functions.len()
                invariant
                    i <= functions@.len(),
                    names@.len() == i,
                    forall|j: int| 0 <= j < i ==> #[trigger] names@[j]@ == functions@[j].debug_name(),
                decreases functions@.len() - i,
            {
                names.push(functions[i].debug_text());
                i += 1;
            }
            assert(string_views(names@) =~= Seq::new(functions@.len(), |i: int| functions@[i].debug_name()));
            let a = join2("ModelFor { config_key: ", debug_quoted(config_key.as_str()).as_str());
            let b = join2(a.as_str(), ", functions: [");
            let c = join2(b.as_str(), str_join(&names, ", ").as_str());
            let d2 = join2(c.as_str(), "], required: ");
            let e = join2(d2.as_str(), bool_text_exec(*required).as_str());
            let r = join2(e.as_str(), " }");
            proof {
                reveal_strlit("ModelFor { config_key: ");
                reveal_strlit("ModelFor { config_key: \"");
                reveal_strlit(", functions: [");
                reveal_strlit("\", functions: [");
                reveal_strlit("], required: ");
                assert(r@ =~= dependency_debug(*d));
            }
            r
        },
        Dependency::Provider { id, required } => {
            let a = join2("Provider { id: ", debug_quoted(id.as_str()).as_str());
            let b = join2(a.as_str(), ", required: ");
            let c = join2(b.as_str(), bool_text_exec(*required).as_str());
            let r = join2(c.as_str(), " }");
            proof {
                reveal_strlit("Provider { id: ");
                reveal_strlit("Provider { id: \"");
                assert(r@ =~= dependency_debug(*d));
            }
            r
        },
        Dependency::ExternalTool { name, check_command } => {
            let a = join2("ExternalTool { name: ", debug_quoted(name.as_str()).as_str());
            let b = join2(a.as_str(), ", check_command: ");
            let c = join2(b.as_str(), debug_quoted(check_command.as_str()).as_str());
            let r = join2(c.as_str(), " }");
            proof {
                reveal_strlit("ExternalTool { name: ");
                reveal_strlit("ExternalTool { name: \"");
                reveal_strlit(", check_command: ");
                reveal_strlit("\", check_command: \"");
                assert(r@ =~= dependency_debug(*d));
            }
            r
        },
        Dependency::Capability { id, required } => {
            let a = join2("Capability { id: ", debug_quoted(id.as_str()).as_str());
            let b = join2(a.as_str(), ", required: ");
            let c = join2(b.as_str(), bool_text_exec(*required).as_str());
            let r = join2(c.as_str(), " }");
            proof {
                reveal_strlit("Capability { id: ");
                reveal_strlit("Capability { id: \"");
                assert(r@ =~= dependency_debug(*d));
            }
            r
        },
    }
}

/// What the dependencies `deps` miss, in order.
pub open spec fn missing_messages(
    deps: Seq<Dependency>,
    config: Config,
    models: Map<Seq<char>, ModelMetadata>,
    caps: Seq<CapabilityDefinition>,
    tools: Map<Seq<char>, bool>,
) -> Seq<Seq<char>>
    decreases deps.len(),
{
    if deps.len() == 0 {
        Seq::empty()
    } else {
        let rest = missing_messages(deps.drop_last(), config, models, caps, tools);
        match missing_message(deps.last(), config, models, caps, tools) {
            Some(m) => rest.push(m),
            None => rest,
        }
    }
}

/// Some required dependency has its `Debug` text inside one of the messages.
pub open spec fn required_missing(deps: Seq<Dependency>, messages: Seq<Seq<char>>) -> bool {
    exists|i: int, j: int|
        0 <= i < deps.len() && 0 <= j < messages.len() && #[trigger] deps[i].is_required_spec() && contains_seq(
            #[trigger] messages[j],
            dependency_debug(deps[i]),
        )
}

/// A capability whose dependencies are not all satisfied.
pub struct UnresolvedDependency {
    pub capability_id: String,
    pub missing: Vec<String>,
    pub required: bool,
}

/// Which capabilities of a resolution order have what they need.
pub struct DependencyResolution {
    pub resolved: Vec<String>,
    pub unresolved: Vec<UnresolvedDependency>,
    pub order: Vec<String>,
}

/// The view of an unresolved capability: its id, what it misses, and
/// whether a required dependency is among that.
pub open spec fn unresolved_view(u: UnresolvedDependency) -> (Seq<char>, Seq<Seq<char>>, bool) {
    (u.capability_id@, string_views(u.missing@), u.required)
}

/// The first catalog entry with id `id`.
pub open spec fn catalog_entry(caps: Seq<CapabilityDefinition>, id: Seq<char>) -> CapabilityDefinition {
    caps[choose|i: int| is_first_with_key(caps, id, i)]
}

/// The resolution of the ids `order`: ids without a catalog entry are
/// passed over; the others are resolved when their entry's dependencies
/// miss nothing, and unresolved otherwise.
pub open spec fn resolution_of(
    order: Seq<Seq<char>>,
    config: Config,
    models: Map<Seq<char>, ModelMetadata>,
    caps: Seq<CapabilityDefinition>,
    tools: Map<Seq<char>, bool>,
) -> (Seq<Seq<char>>, Seq<(Seq<char>, Seq<Seq<char>>, bool)>)
    decreases order.len(),
{
    if order.len() == 0 {
        (Seq::empty(), Seq::empty())
    } else {
        let prev = resolution_of(order.drop_last(), config, models, caps, tools);
        let id = order.last();
        if !has_key(caps, id) {
            prev
        } else {
            let deps = catalog_entry(caps, id).dependencies@;
            let missing = missing_messages(deps, config, models, caps, tools);
            if missing.len() == 0 {
                (prev.0.push(id), prev.1)
            } else {
                (prev.0, prev.1.push((id, missing, required_missing(deps, missing))))
            }
        }
    }
}

proof fn lemma_first_entry_unique(caps: Seq<CapabilityDefinition>, id: Seq<char>, i: int)
    requires
        is_first_with_key(caps, id, i),
    ensures
        catalog_entry(caps, id) == caps[i],
{
    let k = choose|k: int| is_first_with_key(caps, id, k);
    if k < i {
        assert(caps[k].id@ != id);
    }
    if i < k {
        assert(caps[i].id@ != id);
    }
}

/// Whether some required dependency's `Debug` text is inside a message.
fn any_required_missing(deps: &Vec<Dependency>, missing: &Vec<String>) -> (b: bool)
    ensures
        b == required_missing(deps@, string_views(missing@)),
{
    let ghost ms = string_views(missing@);
    let mut i: usize = 0;
    while i < deps.len()
        invariant
            i <= deps@.len(),
            ms == string_views(missing@),
            forall|a: int, j: int|
                0 <= a < i && 0 <= j < ms.len() && #[trigger] deps@[a].is_required_spec() ==> !contains_seq(
                    #[trigger] ms[j],
                    dependency_debug(deps@[a]),
                ),
        decreases deps@.len() - i,
    {
        if deps[i].is_required() {
            let text = dependency_debug_text(&deps[i]);
            let mut j: usize = 0;
            while j < missing.len()
                invariant
                    i < deps@.len(),
                    j <= missing@.len(),
                    ms == string_views(missing@),
                    text@ == dependency_debug(deps@[i as int]),
                    deps@[i as int].is_required_spec(),
                    forall|q: int| 0 <= q < j ==> !contains_seq(#[trigger] ms[q], text@),
                decreases missing@.len() - j,
            {
                if str_contains(missing[j].as_str(), text.as_str()) {
                    assert(contains_seq(ms[j as int], dependency_debug(deps@[i as int])));
                    assert(deps@[i as int].is_required_spec());
                    return true;
                }
                j += 1;
            }
        }
        i += 1;
    }
    false
}

/// Checks each capability of the resolution order `order` against the
/// configuration, the model catalog, the capability catalog and the
/// outcomes `tools` of the external tools' check commands (by command).
pub fn validate_dependencies(
    order: &Vec<String>,
    config: &Config,
    models: &Factory<ModelMetadata>,
    caps: &Vec<CapabilityDefinition>,
    tools: &StrMap<bool>,
) -> (r: DependencyResolution)
    ensures
        (string_views(r.resolved@), Seq::new(r.unresolved@.len(), |i: int| unresolved_view(r.unresolved@[i])))
            == resolution_of(string_views(order@), *config, models@, caps@, tools@),
        string_views(r.order@) == string_views(order@),
{
    let ghost ov = string_views(order@);
    let mut resolved: Vec<String> = Vec::new();
    let mut unresolved: Vec<UnresolvedDependency> = Vec::new();
    let mut i: usize = 0;
    while i < order.len()
        invariant
            i <= order@.len(),
            ov == string_views(order@),
            (string_views(resolved@), Seq::new(unresolved@.len(), |k: int| unresolved_view(unresolved@[k])))
                == resolution_of(ov.take(i as int), *config, models@, caps@, tools@),
        decreases order@.len() - i,
    {
        let id = order[i].as_str();
        proof {
            assert(ov.take(i + 1).drop_last() =~= ov.take(i as int));
            assert(ov.take(i + 1).last() == id@);
        }
        let ghost uv_before = Seq::new(unresolved@.len(), |k: int| unresolved_view(unresolved@[k]));
        match find_entry(caps, id) {
            None => {},
            Some(cap) => {
                proof {
                    let q = choose|q: int| is_first_with_key(caps@, id@, q) && caps@[q] == *cap;
                    lemma_first_entry_unique(caps@, id@, q);
                }
                let deps = &cap.dependencies;
                let mut missing: Vec<String> = Vec::new();
                let mut k: usize = 0;
                while k < deps.len()
                    invariant
                        k <= deps@.len(),
                        string_views(missing@) == missing_messages(deps@.take(k as int), *config, models@, caps@, tools@),
                    decreases deps@.len() - k,
                {
                    proof {
                        assert(deps@.take(k + 1).drop_last() =~= deps@.take(k as int));
                        assert(deps@.take(k + 1).last() == deps@[k as int]);
                    }
                    match check_dependency(&deps[k], config, models, caps, tools) {
                        DependencyStatus::Satisfied => {},
                        DependencyStatus::Missing(m) => {
                            let ghost before = string_views(missing@);
                            missing.push(m);
                            assert(string_views(missing@) =~= before.push(missing@[missing@.len() - 1]@));
                        },
                    }
                    k += 1;
                }
                assert(deps@.take(k as int) =~= deps@);
                if missing.len() == 0 {
                    let ghost before = string_views(resolved@);
                    resolved.push(crate::text::owned(id));
                    assert(string_views(resolved@) =~= before.push(id@));
                } else {
                    let required = any_required_missing(deps, &missing);
                    unresolved.push(UnresolvedDependency { capability_id: crate::text::owned(id), missing, required });
                    assert(Seq::new(unresolved@.len(), |k: int| unresolved_view(unresolved@[k])) =~= uv_before.push(
                        unresolved_view(unresolved@[unresolved@.len() - 1]),
                    ));
                }
            },
        }
        i += 1;
    }
    assert(ov.take(i as int) =~= ov);
    let mut order_copy: Vec<String> = Vec::new();
    let mut j: usize = 0;
    while j < order.len()
        invariant
            j <= order@.len(),
            order_copy@.len() == j,
            forall|q: int| 0 <= q < j ==> #[trigger] order_copy@[q]@ == order@[q]@,
        decreases order@.len() - j,
    {
        order_copy.push(crate::text::owned(order[j].as_str()));
        j += 1;
    }
    assert(string_views(order_copy@) =~= string_views(order@));
    DependencyResolution { resolved, unresolved, order: order_copy }
}

/// Capability `v` has what it needs: it has no catalog entry, or its
/// entry's dependencies miss nothing.
pub open spec fn needs_nothing(
    v: Seq<char>,
    config: Config,
    models: Map<Seq<char>, ModelMetadata>,
    caps: Seq<CapabilityDefinition>,
    tools: Map<Seq<char>, bool>,
) -> bool {
    has_key(caps, v) ==> missing_messages(catalog_entry(caps, v).dependencies@, config, models, caps, tools).len() == 0
}

/// Nothing is unresolved exactly when every id of the order has what it needs.
proof fn lemma_unresolved_empty(
    order: Seq<Seq<char>>,
    config: Config,
    models: Map<Seq<char>, ModelMetadata>,
    caps: Seq<CapabilityDefinition>,
    tools: Map<Seq<char>, bool>,
)
    ensures
        resolution_of(order, config, models, caps, tools).1.len() == 0 <==> forall|v: Seq<char>|
            #[trigger] order.contains(v) ==> needs_nothing(v, config, models, caps, tools),
    decreases order.len(),
{
    if order.len() > 0 {
        let init = order.drop_last();
        lemma_unresolved_empty(init, config, models, caps, tools);
        if resolution_of(order, config, models, caps, tools).1.len() == 0 {
            assert forall|v: Seq<char>| #[trigger] order.contains(v) implies needs_nothing(v, config, models, caps, tools) by {
                let k = choose|k: int| 0 <= k < order.len() && order[k] == v;
                if k < order.len() - 1 {
                    assert(init[k] == v);
                    assert(init.contains(v));
                }
            }
        } else {
            if forall|v: Seq<char>| #[trigger] order.contains(v) ==> needs_nothing(v, config, models, caps, tools) {
                assert(order.contains(order.last()));
                assert forall|v: Seq<char>| #[trigger] init.contains(v) implies needs_nothing(v, config, models, caps, tools) by {
                    let k = choose|k: int| 0 <= k < init.len() && init[k] == v;
                    assert(order[k] == v);
                    assert(order.contains(v));
                }
            }
        }
    }
}

/*-- resolving one capability ---------------------------------------------------------*/

/// A list of strings as Rust's `Debug` shows it.
pub open spec fn debug_list(items: Seq<Seq<char>>) -> Seq<char> {
    "["@ + joined(Seq::new(items.len(), |i: int| "\""@ + debug_escaped(items[i]) + "\""@), ", "@) + "]"@
}

/// A list of lists of strings as Rust's `Debug` shows it.
pub open spec fn debug_lists(lists: Seq<Seq<Seq<char>>>) -> Seq<char> {
    "["@ + joined(Seq::new(lists.len(), |i: int| debug_list(lists[i])), ", "@) + "]"@
}

fn debug_list_text(items: &Vec<String>) -> (s: String)
    ensures
        s@ == debug_list(string_views(items@)),
{
    let ghost iv = string_views(items@);
    let mut quoted: Vec<String> = Vec::new();
    let mut i: usize = 0;
    while i < items.len()
        invariant
            i <= items@.len(),
            iv == string_views(items@),
            quoted@.len() == i,
            forall|k: int| 0 <= k < i ==> #[trigger] quoted@[k]@ == "\""@ + debug_escaped(iv[k]) + "\""@,
        decreases items@.len() - i,
    {
        quoted.push(debug_quoted(items[i].as_str()));
        i += 1;
    }
    assert(string_views(quoted@) =~= Seq::new(iv.len(), |k: int| "\""@ + debug_escaped(iv[k]) + "\""@));
    let body = str_join(&quoted, ", ");
    let a = join2("[", body.as_str());
    let r = join2(a.as_str(), "]");
    proof {
        reveal_strlit("[");
        reveal_strlit("]");
    }
    r
}

fn debug_lists_text(lists: &Vec<Vec<String>>) -> (s: String)
    ensures
        s@ == debug_lists(crate::di::graph::cycles_view(lists@)),
{
    let ghost lv = crate::di::graph::cycles_view(lists@);
    let mut shown: Vec<String> = Vec::new();
    let mut i: usize = 0;
    while i < lists.len()
        invariant
            i <= lists@.len(),
            lv == crate::di::graph::cycles_view(lists@),
            shown@.len() == i,
            forall|k: int| 0 <= k < i ==> #[trigger] shown@[k]@ == debug_list(lv[k]),
        decreases lists@.len() - i,
    {
        shown.push(debug_list_text(&lists[i]));
        i += 1;
    }
    assert(string_views(shown@) =~= Seq::new(lv.len(), |k: int| debug_list(lv[k])));
    let body = str_join(&shown, ", ");
    let a = join2("[", body.as_str());
    let r = join2(a.as_str(), "]");
    proof {
        reveal_strlit("[");
        reveal_strlit("]");
    }
    r
}

/// What resolving the capabilities below `root` over catalog `c` gives: a
/// resolution order of exactly the capabilities reachable from the root,
/// each once, with each checked; or the refusal naming the cycles found.
pub open spec fn resolution_outcome(
    r: Result<DependencyResolution, String>,
    c: Seq<CapabilityDefinition>,
    root: Seq<char>,
    config: Config,
    models: Map<Seq<char>, ModelMetadata>,
    tools: Map<Seq<char>, bool>,
) -> bool {
    match r {
                Ok(res) => {
                    &&& forall|v: Seq<char>|
                        #[trigger] string_views(res.order@).contains(v) <==> crate::di::graph::reachable(
                            c,
                            root,
                            v,
                        )
                    &&& string_views(res.order@).no_duplicates()
                    &&& (string_views(res.resolved@), Seq::new(
                        res.unresolved@.len(),
                        |i: int| unresolved_view(res.unresolved@[i]),
                    )) == resolution_of(string_views(res.order@), config, models, c, tools)
                },
                Err(msg) => exists|cycles: Seq<Seq<Seq<char>>>|
                    cycles.len() > 0 && (forall|i: int|
                        0 <= i < cycles.len() ==> crate::di::graph::is_cycle_from(
                            c,
                            root,
                            #[trigger] cycles[i],
                        )) && (msg@ == "Circular dependency detected: "@ + debug_lists(cycles) || msg@
                        == "Cannot sort: circular dependency detected: "@ + debug_lists(cycles)),
            }
}

impl DependencyGraph {
    /// Resolves the capabilities below the root: refused when the walk finds
    /// cycles; otherwise each capability of a resolution order is checked
    /// (see `validate_dependencies`) over the graph's catalog.
    pub fn resolve(&self, config: &Config, models: &Factory<ModelMetadata>, tools: &StrMap<bool>) -> (r: Result<
        DependencyResolution,
        String,
    >)
        ensures
            resolution_outcome(r, self.catalog@, self.root_id@, *config, models@, tools@),
            !crate::di::graph::has_cycle_from(self.catalog@, self.root_id@) ==> r is Ok,
    {
        let cycles = match self.detect_cycles() {
            Ok(c) => c,
            Err(GraphError::CircularDependency(c)) => c,
        };
        if cycles.len() > 0 {
            let ghost cv = crate::di::graph::cycles_view(cycles@);
            proof {
                assert forall|i: int| 0 <= i < cv.len() implies crate::di::graph::is_cycle_from(
                    self.catalog@,
                    self.root_id@,
                    #[trigger] cv[i],
                ) by {
                    assert(cv[i] == string_views(cycles@[i]@));
                }
            }
            return Err(join2("Circular dependency detected: ", debug_lists_text(&cycles).as_str()));
        }
        match self.topological_sort() {
            Ok(order) => Ok(validate_dependencies(&order, config, models, &self.catalog, tools)),
            Err(GraphError::CircularDependency(c)) => {
                let ghost cv = crate::di::graph::cycles_view(c@);
                proof {
                    assert forall|i: int| 0 <= i < cv.len() implies crate::di::graph::is_cycle_from(
                        self.catalog@,
                        self.root_id@,
                        #[trigger] cv[i],
                    ) by {
                        assert(cv[i] == string_views(c@[i]@));
                    }
                }
                Err(join2("Cannot sort: circular dependency detected: ", debug_lists_text(&c).as_str()))
            },
        }
    }

    /// Whether every capability below the root has what it needs; refused
    /// as `resolve` refuses.
    pub fn validate_setup(&self, config: &Config, models: &Factory<ModelMetadata>, tools: &StrMap<bool>) -> (r: Result<
        bool,
        String,
    >)
        ensures
            !crate::di::graph::has_cycle_from(self.catalog@, self.root_id@) ==> r is Ok,
            r matches Ok(b) ==> (b <==> forall|v: Seq<char>|
                #[trigger] crate::di::graph::reachable(self.catalog@, self.root_id@, v) ==> needs_nothing(
                    v,
                    *config,
                    models@,
                    self.catalog@,
                    tools@,
                )),
    {
        match self.resolve(config, models, tools) {
            Ok(res) => {
                let ok = res.unresolved.len() == 0;
                proof {
                    let order = string_views(res.order@);
                    assert(resolution_of(order, *config, models@, self.catalog@, tools@).1.len() == res.unresolved@.len());
                    lemma_unresolved_empty(order, *config, models@, self.catalog@, tools@);
                    let c = self.catalog@;
                    let root = self.root_id@;
                    if ok {
                        assert forall|v: Seq<char>| #[trigger] crate::di::graph::reachable(c, root, v) implies needs_nothing(
                            v,
                            *config,
                            models@,
                            c,
                            tools@,
                        ) by {
                            assert(order.contains(v));
                        }
                    } else {
                        let v = choose|v: Seq<char>| #[trigger] order.contains(v) && !needs_nothing(v, *config, models@, c, tools@);
                        assert(crate::di::graph::reachable(c, root, v));
                    }
                }
                Ok(ok)
            },
            Err(e) => Err(e),
        }
    }
}

/// Resolves the capability `capability_id` of `catalog` (see
/// `DependencyGraph::resolve`); refused when the catalog has no such capability.
pub fn resolve_capability_deps(
    capability_id: &str,
    catalog: Vec<CapabilityDefinition>,
    config: &Config,
    models: &Factory<ModelMetadata>,
    tools: &StrMap<bool>,
) -> (r: Result<DependencyResolution, String>)
    ensures
        !has_key(catalog@, capability_id@) ==> (r matches Err(e) && e@ == "Capability '"@ + capability_id@
            + "' not found in registry"@),
        has_key(catalog@, capability_id@) ==> resolution_outcome(r, catalog@, capability_id@, *config, models@, tools@),
        has_key(catalog@, capability_id@) && !crate::di::graph::has_cycle_from(catalog@, capability_id@) ==> r is Ok,
{
    let def = match find_entry(&catalog, capability_id) {
        Some(d) => d.duplicate(),
        None => {
            let a = join2("Capability '", capability_id);
            return Err(join2(a.as_str(), "' not found in registry"));
        },
    };
    let graph = DependencyGraph::with_catalog(crate::text::owned(capability_id), def, catalog);
    graph.resolve(config, models, tools)
}

} // verus!
