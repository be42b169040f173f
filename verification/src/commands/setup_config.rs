//! The configuration the launcher and capability setup commands write, from
//! the answers the user gave and what was checked on the machine.
use vstd::prelude::*;

use crate::capabilities::base::CapabilityMetadata;
use crate::capabilities::base::admits;
use crate::capabilities::base::admits_exec;
use crate::capabilities::base::Dependency;
use crate::commands::wizard::pick_dependency;
use crate::commands::wizard::Pick;
use crate::models::base::ModelFunction;
use crate::models::base::ModelMetadata;
use crate::commands::wizard::normalize_command_path;
use crate::commands::wizard::normalized_settings;
use crate::config::CapabilityConfig;
use crate::config::Config;
use crate::config::LauncherConfig;
use crate::json::json_view;
use crate::json::members_view;
use crate::json::set_member;
use crate::json::set_member_exec;
use crate::json::JsonValue;
use crate::json::JsonView;
use crate::launchers::base::LauncherMetadata;
use crate::registry::Factory;
use crate::strmap::lists_map;
use crate::text::join2;
use crate::text::str_eq;
use crate::text::string_views;

verus! {

broadcast use crate::text::group_views;

/*-- launchers --------------------------------------------------------------------------------*/

/// The launcher instance that setting up `launcher_type` as `instance_id`
/// configures from the answered `settings`: refused for a type not in
/// `launchers` and when the command the normalised settings name was not
/// found (`command_check` holds why); nothing when the instance exists and is
/// not to be overwritten; otherwise the instance with the normalised settings
/// (an empty `command_path` becomes null) and no capabilities enabled yet.
pub fn launcher_setup_config(
    config: &Config,
    launchers: &Factory<LauncherMetadata>,
    launcher_type: &str,
    instance_id: &str,
    overwrite: bool,
    settings: JsonValue,
    command_check: Result<(), String>,
) -> (r: Result<Option<LauncherConfig>, String>)
    ensures
        !launchers@.contains_key(launcher_type@) ==> (r matches Err(e) && e@ == "Launcher type '"@ + launcher_type@
            + "' not found in registry."@),
        launchers@.contains_key(launcher_type@) && config.launchers@.contains_key(instance_id@) && !overwrite ==> (
        r matches Ok(None)),
        launchers@.contains_key(launcher_type@) && (!config.launchers@.contains_key(instance_id@) || overwrite) ==> (
        match command_check {
            Err(why) => r matches Err(e) && e@ == "Binary validation failed: "@ + why@
                + "\nSet command_path to the full path of the binary and re-run setup."@,
            Ok(_) => r matches Ok(Some(lc)) && lc.launcher_id@ == instance_id@ && lc.launcher_type@ == launcher_type@
                && lc.enabled_capabilities@.len() == 0 && lc.config@ == normalized_settings(settings),
        }),
{
    if launchers.get(launcher_type).is_none() {
        let a = join2("Launcher type '", launcher_type);
        return Err(join2(a.as_str(), "' not found in registry."));
    }
    if config.get_launcher(instance_id).is_some() && !overwrite {
        return Ok(None);
    }
    match command_check {
        Err(why) => {
            let a = join2("Binary validation failed: ", why.as_str());
            Err(join2(a.as_str(), "\nSet command_path to the full path of the binary and re-run setup."))
        },
        Ok(_) => Ok(
            Some(
                LauncherConfig {
                    launcher_id: crate::text::owned(instance_id),
                    launcher_type: crate::text::owned(launcher_type),
                    enabled_capabilities: Vec::new(),
                    config: normalize_command_path(settings),
                },
            ),
        ),
    }
}

/// The instance a launcher setup writes: when other instances of the same
/// type exist and the user chose to update one, the first of them; else the
/// id asked for.
pub fn launcher_setup_target(same_type: &Vec<String>, instance_id: &str, update_existing: bool) -> (r: String)
    ensures
        r@ == if same_type@.len() > 0 && update_existing {
            same_type@[0]@
        } else {
            instance_id@
        },
{
    if same_type.len() > 0 && update_existing {
        crate::text::owned(same_type[0].as_str())
    } else {
        crate::text::owned(instance_id)
    }
}

/*-- capabilities -------------------------------------------------------------------------------*/

/// The configured instances that can fill dependency `d`, listed in the order
/// of the configuration: for a model named by id, the instances of that model
/// whose provider is configured; for a model named by what it must support,
/// the instances of a catalog model supporting it whose provider is
/// configured; for a provider or a capability, the instances of that type;
/// nothing for an external tool.
pub open spec fn candidates_of(config: Config, models: Map<Seq<char>, ModelMetadata>, d: Dependency) -> Seq<Seq<char>> {
    match d {
        Dependency::Model { id, .. } => model_candidates(config, id@, config_model_pairs(config)),
        Dependency::ModelFor { functions, .. } => admitted_candidates(
            config,
            models,
            functions@,
            config_model_pairs(config),
        ),
        Dependency::Provider { id, .. } => provider_candidates(id@, config_provider_pairs(config)),
        Dependency::Capability { id, .. } => capability_candidates(id@, config_capability_pairs(config)),
        Dependency::ExternalTool { .. } => Seq::empty(),
    }
}
/// The configured models, in the configuration's order.
pub closed spec fn config_model_pairs(config: Config) -> Seq<(String, crate::config::ModelConfig)> {
    config.models.entries_view()
}

/// The configured providers, in the configuration's order.
pub closed spec fn config_provider_pairs(config: Config) -> Seq<(String, crate::config::ProviderConfig)> {
    config.providers.entries_view()
}

/// The configured capabilities, in the configuration's order.
pub closed spec fn config_capability_pairs(config: Config) -> Seq<(String, CapabilityConfig)> {
    config.capabilities.entries_view()
}

/// Instances of model `id` whose provider is configured, in the order of `pairs`.
pub open spec fn model_candidates(
    config: Config,
    id: Seq<char>,
    pairs: Seq<(String, crate::config::ModelConfig)>,
) -> Seq<Seq<char>>
    decreases pairs.len(),
{
    if pairs.len() == 0 {
        Seq::empty()
    } else {
        let rest = model_candidates(config, id, pairs.drop_last());
        let (k, m) = pairs.last();
        if m.model_id@ == id && (m.provider_id matches Some(p) && config.providers@.contains_key(p@)) {
            rest.push(k@)
        } else {
            rest
        }
    }
}

/// Model instance `m` has a configured provider.
pub open spec fn has_configured_provider(config: Config, m: crate::config::ModelConfig) -> bool {
    m.provider_id matches Some(p) && config.providers@.contains_key(p@)
}

/// Instances of a catalog model supporting every function in `functions`
/// whose provider is configured, in the order of `pairs`.
pub open spec fn admitted_candidates(
    config: Config,
    models: Map<Seq<char>, ModelMetadata>,
    functions: Seq<ModelFunction>,
    pairs: Seq<(String, crate::config::ModelConfig)>,
) -> Seq<Seq<char>>
    decreases pairs.len(),
{
    if pairs.len() == 0 {
        Seq::empty()
    } else {
        let rest = admitted_candidates(config, models, functions, pairs.drop_last());
        let (k, m) = pairs.last();
        if models.contains_key(m.model_id@) && admits(functions, models[m.model_id@]) && has_configured_provider(
            config,
            m,
        ) {
            rest.push(k@)
        } else {
            rest
        }
    }
}

/// Instances of provider type `t`, in the order of `pairs`.
pub open spec fn provider_candidates(t: Seq<char>, pairs: Seq<(String, crate::config::ProviderConfig)>) -> Seq<
    Seq<char>,
>
    decreases pairs.len(),
{
    if pairs.len() == 0 {
        Seq::empty()
    } else {
        let rest = provider_candidates(t, pairs.drop_last());
        if pairs.last().1.provider_type@ == t {
            rest.push(pairs.last().0@)
        } else {
            rest
        }
    }
}

/// Instances of capability type `t`, in the order of `pairs`.
pub open spec fn capability_candidates(t: Seq<char>, pairs: Seq<(String, CapabilityConfig)>) -> Seq<Seq<char>>
    decreases pairs.len(),
{
    if pairs.len() == 0 {
        Seq::empty()
    } else {
        let rest = capability_candidates(t, pairs.drop_last());
        if pairs.last().1.capability_type@ == t {
            rest.push(pairs.last().0@)
        } else {
            rest
        }
    }
}

/// The configured instances that can fill dependency `dep`, each once: a
/// model instance counts only when its provider is configured.
pub fn dependency_candidates(config: &Config, models: &Factory<ModelMetadata>, dep: &Dependency) -> (r: Vec<String>)
    ensures
        string_views(r@) == candidates_of(*config, models@, *dep),
        lists_map(config_model_pairs(*config), config.models@),
        lists_map(config_provider_pairs(*config), config.providers@),
        lists_map(config_capability_pairs(*config), config.capabilities@),
{
    let mp = config.models.pairs();
    let pp = config.providers.pairs();
    let cp = config.capabilities.pairs();
    let mut r: Vec<String> = Vec::new();
    match dep {
        Dependency::Model { id, .. } => {
            let mut i: usize = 0;
            while i < mp.len()
                invariant
                    i <= mp@.len(),
                    string_views(r@) == model_candidates(*config, id@, mp@.take(i as int)),
                decreases mp@.len() - i,
            {
                proof {
                    assert(mp@.take(i + 1).drop_last() =~= mp@.take(i as int));
                    assert(mp@.take(i + 1).last() == mp@[i as int]);
                }
                let m = &mp[i].1;
                if str_eq(m.model_id.as_str(), id.as_str()) {
                    match &m.provider_id {
                        Some(p) => {
                            if config.get_provider(p.as_str()).is_some() {
                                r.push(crate::text::owned(mp[i].0.as_str()));
                            }
                        },
                        None => {},
                    }
                }
                i += 1;
            }
            assert(mp@.take(i as int) =~= mp@);
        },
        Dependency::ModelFor { functions, .. } => {
            let mut i: usize = 0;
            while i < mp.len()
                invariant
                    i <= mp@.len(),
                    string_views(r@) == admitted_candidates(*config, models@, functions@, mp@.take(i as int)),
                decreases mp@.len() - i,
            {
                proof {
                    assert(mp@.take(i + 1).drop_last() =~= mp@.take(i as int));
                    assert(mp@.take(i + 1).last() == mp@[i as int]);
                }
                let m = &mp[i].1;
                let admitted = match models.get(m.model_id.as_str()) {
                    Some(meta) => admits_exec(functions, meta),
                    None => false,
                };
                if admitted {
                    match &m.provider_id {
                        Some(p) => {
                            if config.get_provider(p.as_str()).is_some() {
                                r.push(crate::text::owned(mp[i].0.as_str()));
                            }
                        },
                        None => {},
                    }
                }
                i += 1;
            }
            assert(mp@.take(i as int) =~= mp@);
        },
        Dependency::Provider { id, .. } => {
            let mut i: usize = 0;
            while i < pp.len()
                invariant
                    i <= pp@.len(),
                    string_views(r@) == provider_candidates(id@, pp@.take(i as int)),
                decreases pp@.len() - i,
            {
                proof {
                    assert(pp@.take(i + 1).drop_last() =~= pp@.take(i as int));
                    assert(pp@.take(i + 1).last() == pp@[i as int]);
                }
                if str_eq(pp[i].1.provider_type.as_str(), id.as_str()) {
                    r.push(crate::text::owned(pp[i].0.as_str()));
                }
                i += 1;
            }
            assert(pp@.take(i as int) =~= pp@);
        },
        Dependency::Capability { id, .. } => {
            let mut i: usize = 0;
            while i < cp.len()
                invariant
                    i <= cp@.len(),
                    string_views(r@) == capability_candidates(id@, cp@.take(i as int)),
                decreases cp@.len() - i,
            {
                proof {
                    assert(cp@.take(i + 1).drop_last() =~= cp@.take(i as int));
                    assert(cp@.take(i + 1).last() == cp@[i as int]);
                }
                if str_eq(cp[i].1.capability_type.as_str(), id.as_str()) {
                    r.push(crate::text::owned(cp[i].0.as_str()));
                }
                i += 1;
            }
            assert(cp@.take(i as int) =~= cp@);
        },
        Dependency::ExternalTool { .. } => {},
    }
    r
}

/// The settings key under which the instance chosen for dependency `d` is
/// kept; none for an external tool.
pub open spec fn dependency_key(d: Dependency) -> Option<Seq<char>> {
    match d {
        Dependency::Model { .. } => Some("model_id"@),
        Dependency::ModelFor { config_key, .. } => Some(config_key@),
        Dependency::Provider { .. } => Some("provider_id"@),
        Dependency::Capability { .. } => Some("capability_id"@),
        Dependency::ExternalTool { .. } => None,
    }
}

/// What dependency `d` asks for, as the refusal names it.
pub open spec fn dependency_kind(d: Dependency) -> Seq<char> {
    match d {
        Dependency::Provider { .. } => "provider"@,
        Dependency::Capability { .. } => "capability"@,
        _ => "model"@,
    }
}

/// The settings key under which the instance chosen for dependency `d` is kept.
pub fn dependency_setting_key(d: &Dependency) -> (r: Option<String>)
    ensures
        match r {
            Some(k) => dependency_key(*d) == Some(k@),
            None => dependency_key(*d) is None,
        },
{
    match d {
        Dependency::Model { .. } => Some("model_id".to_string()),
        Dependency::ModelFor { config_key, .. } => Some(crate::text::owned(config_key.as_str())),
        Dependency::Provider { .. } => Some("provider_id".to_string()),
        Dependency::Capability { .. } => Some("capability_id".to_string()),
        Dependency::ExternalTool { .. } => None,
    }
}

fn dependency_kind_exec(d: &Dependency) -> (r: &'static str)
    ensures
        r@ == dependency_kind(*d),
{
    match d {
        Dependency::Provider { .. } => "provider",
        Dependency::Capability { .. } => "capability",
        _ => "model",
    }
}

/// Filling dependency `d` in settings `s` from its candidates `cands`: a
/// required dependency without candidates refuses the setup; an optional one
/// is left unset; the sole candidate is taken; among several, the one at
/// `choice` is.
pub open spec fn fill_dependency(
    s: Result<Seq<(Seq<char>, JsonView)>, Seq<char>>,
    cands: Seq<Seq<char>>,
    d: Dependency,
    choice: usize,
) -> Result<Seq<(Seq<char>, JsonView)>, Seq<char>> {
    match s {
        Err(e) => Err(e),
        Ok(m) => match dependency_key(d) {
            None => Ok(m),
            Some(key) => if cands.len() == 0 {
                if d.is_required_spec() {
                    Err("No configured "@ + dependency_kind(d)
                        + " satisfies this capability's requirements yet. Configure one first."@)
                } else {
                    Ok(m)
                }
            } else if cands.len() == 1 {
                Ok(set_member(m, key, JsonView::Str(cands[0])))
            } else {
                Ok(set_member(m, key, JsonView::Str(cands[choice as int])))
            },
        },
    }
}

/// The settings after filling the dependencies `deps` in order, starting from
/// `start`; `choices[j]` picks among the candidates of `deps[j]`.
pub open spec fn settings_after(
    start: Seq<(Seq<char>, JsonView)>,
    config: Config,
    models: Map<Seq<char>, ModelMetadata>,
    deps: Seq<Dependency>,
    choices: Seq<usize>,
) -> Result<Seq<(Seq<char>, JsonView)>, Seq<char>>
    decreases deps.len(),
{
    if deps.len() == 0 {
        Ok(start)
    } else {
        fill_dependency(
            settings_after(start, config, models, deps.drop_last(), choices),
            candidates_of(config, models, deps.last()),
            deps.last(),
            choices[deps.len() - 1],
        )
    }
}

/// Every choice picks one of its dependency's candidates where there are several.
pub open spec fn choices_fit(
    config: Config,
    models: Map<Seq<char>, ModelMetadata>,
    deps: Seq<Dependency>,
    choices: Seq<usize>,
) -> bool {
    &&& choices.len() == deps.len()
    &&& forall|j: int|
        0 <= j < deps.len() && candidates_of(config, models, #[trigger] deps[j]).len() > 1 ==> choices[j]
            < candidates_of(config, models, deps[j]).len()
}

proof fn lemma_refusal_sticks(
    start: Seq<(Seq<char>, JsonView)>,
    config: Config,
    models: Map<Seq<char>, ModelMetadata>,
    deps: Seq<Dependency>,
    choices: Seq<usize>,
    n: int,
)
    requires
        0 <= n <= deps.len(),
        settings_after(start, config, models, deps.take(n), choices) is Err,
    ensures
        settings_after(start, config, models, deps, choices) == settings_after(start, config, models, deps.take(n), choices),
    decreases deps.len(),
{
    if n == deps.len() {
        assert(deps.take(n) =~= deps);
    } else {
        let init = deps.drop_last();
        assert(init.take(n) =~= deps.take(n));
        lemma_refusal_sticks(start, config, models, init, choices, n);
    }
}

/// The settings a capability instance being set up starts from, before the
/// user answers: the instance's current settings when it is configured, else
/// its type's defaults (an agent model starts with an empty `model_id`),
/// else an empty object.
pub open spec fn capability_defaults(config: Config, capability_type: Seq<char>, instance_id: Seq<char>) -> JsonView {
    if config.capabilities@.contains_key(instance_id) {
        config.capabilities@[instance_id].config@
    } else if capability_type == "agent-model"@ {
        JsonView::Object(seq![("model_id"@, JsonView::Str(""@))])
    } else {
        JsonView::Object(Seq::empty())
    }
}

/// The settings a capability instance being set up starts from (see `capability_defaults`).
pub fn capability_setup_defaults(config: &Config, capability_type: &str, instance_id: &str) -> (v: JsonValue)
    ensures
        v@ == capability_defaults(*config, capability_type@, instance_id@),
{
    match config.get_capability(instance_id) {
        Some(c) => crate::json::copy_json(&c.config),
        None => {
            if str_eq(capability_type, "agent-model") {
                let empty = String::new();
                proof {
                    reveal_strlit("");
                    assert(empty@ =~= ""@);
                }
                let members: Vec<(String, JsonValue)> = vec![("model_id".to_string(), JsonValue::Str(empty))];
                proof {
                    reveal_strlit("model_id");
                    crate::json::lemma_object_view(members);
                    assert(members_view(members@) =~= seq![("model_id"@, JsonView::Str(""@))]);
                }
                JsonValue::Object(members)
            } else {
                let members: Vec<(String, JsonValue)> = Vec::new();
                proof {
                    crate::json::lemma_object_view(members);
                    assert(members_view(members@) =~= Seq::<(Seq<char>, JsonView)>::empty());
                }
                JsonValue::Object(members)
            }
        },
    }
}

/// The capability instance that setting up `capability_type` as `instance_id`
/// configures: refused for a type not in `types`; nothing when the instance
/// exists and is not to be overwritten; refused when the answers are no JSON
/// object; otherwise the answers with each dependency of the type filled in
/// order from the configured instances that can fill it (see
/// `fill_dependency`), refused when a required one has none.
pub fn capability_setup_config(
    config: &Config,
    types: &Factory<CapabilityMetadata>,
    models: &Factory<ModelMetadata>,
    capability_type: &str,
    instance_id: &str,
    overwrite: bool,
    answers: JsonValue,
    choices: &Vec<usize>,
) -> (r: Result<Option<CapabilityConfig>, String>)
    requires
        types@.contains_key(capability_type@) ==> choices_fit(
            *config,
            models@,
            types@[capability_type@].dependencies@,
            choices@,
        ),
    ensures
        !types@.contains_key(capability_type@) ==> (r matches Err(e) && e@ == "Capability type '"@
            + capability_type@ + "' not found in registry."@),
        types@.contains_key(capability_type@) && config.capabilities@.contains_key(instance_id@) && !overwrite ==> (
        r matches Ok(None)),
        types@.contains_key(capability_type@) && (!config.capabilities@.contains_key(instance_id@) || overwrite)
            ==> match answers {
            JsonValue::Object(members) => match settings_after(
                members_view(members@),
                *config,
                models@,
                types@[capability_type@].dependencies@,
                choices@,
            ) {
                Ok(settings) => r matches Ok(Some(cc)) && cc.capability_id@ == instance_id@
                    && cc.capability_type@ == capability_type@ && cc.enabled && cc.config@ == JsonView::Object(
                    settings,
                ),
                Err(why) => r matches Err(e) && e@ == why,
            },
            _ => r matches Err(e) && e@ == "Capability settings must be a JSON object"@,
        },
{
    let meta = match types.get(capability_type) {
        Some(m) => m,
        None => {
            let a = join2("Capability type '", capability_type);
            return Err(join2(a.as_str(), "' not found in registry."));
        },
    };
    if config.get_capability(instance_id).is_some() && !overwrite {
        return Ok(None);
    }
    let mut members = match answers {
        JsonValue::Object(m) => m,
        _ => {
            return Err("Capability settings must be a JSON object".to_string());
        },
    };
    let ghost start = members_view(members@);
    let ghost deps = meta.dependencies@;
    let mut j: usize = 0;
    while j < meta.dependencies.len()
        invariant
            j <= deps.len(),
            deps == meta.dependencies@,
            types@.contains_key(capability_type@),
            types@[capability_type@] == *meta,
            !config.capabilities@.contains_key(instance_id@) || overwrite,
            answers matches JsonValue::Object(ms) && members_view(ms@) == start,
            choices_fit(*config, models@, deps, choices@),
            settings_after(start, *config, models@, deps.take(j as int), choices@) == Ok::<
                Seq<(Seq<char>, JsonView)>,
                Seq<char>,
            >(members_view(members@)),
        decreases deps.len() - j,
    {
        let d = &meta.dependencies[j];
        proof {
            assert(deps.take(j + 1).drop_last() =~= deps.take(j as int));
            assert(deps.take(j + 1).last() == deps[j as int]);
            assert(deps.take(j + 1).len() == j + 1);
        }
        match dependency_setting_key(d) {
            None => {},
            Some(key) => {
                let cands = dependency_candidates(config, models, d);
                match pick_dependency(&cands, d.is_required(), dependency_kind_exec(d)) {
                    Err(e) => {
                        proof {
                            lemma_refusal_sticks(start, *config, models@, deps, choices@, j + 1);
                        }
                        return Err(e);
                    },
                    Ok(Pick::Unset) => {},
                    Ok(Pick::Chosen(c)) => {
                        set_member_exec(&mut members, key.as_str(), JsonValue::Str(c));
                    },
                    Ok(Pick::Ask) => {
                        let c = crate::text::owned(cands[choices[j]].as_str());
                        set_member_exec(&mut members, key.as_str(), JsonValue::Str(c));
                    },
                }
            },
        }
        j += 1;
    }
    assert(deps.take(j as int) =~= deps);
    proof {
        crate::json::lemma_object_view(members);
    }
    Ok(
        Some(
            CapabilityConfig {
                capability_id: crate::text::owned(instance_id),
                capability_type: crate::text::owned(capability_type),
                enabled: true,
                config: JsonValue::Object(members),
            },
        ),
    )
}

} // verus!
