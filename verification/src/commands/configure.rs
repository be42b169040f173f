//! Configuring everything the setup wizard selected: one provider, launcher,
//! model and capability instance per selected id, each starting from its
//! type's default settings.
use vstd::prelude::*;

use crate::capabilities::base::CapabilityMetadata;
use crate::commands::discovery::fills_model;
use crate::models::base::ModelMetadata;
use crate::commands::discovery::Recommendation;
use crate::commands::discovery::Selection;
use crate::commands::finish::find_provider_for_model;
use crate::commands::finish::runner_for_model;
use crate::config::CapabilityConfig;
use crate::config::Config;
use crate::config::LauncherConfig;
use crate::config::ModelConfig;
use crate::config::ProviderConfig;
use crate::json::lemma_object_view;
use crate::json::members_view;
use crate::json::JsonValue;
use crate::json::JsonView;
use crate::providers::probe::default_provider_settings;
use crate::providers::probe::default_settings;
use crate::providers::probe::known_provider_type;
use crate::registry::Factory;
use crate::text::str_eq;
use crate::text::string_views;

verus! {

broadcast use crate::text::group_views;

/// The settings a provider instance of type `t` starts from: the type's
/// defaults, or null for a type without any.
pub open spec fn provider_start(t: Seq<char>) -> JsonView {
    if known_provider_type(t) {
        default_settings(t)
    } else {
        JsonView::Null
    }
}

/// The settings a launcher instance of type `t` starts from: no command path
/// (and no overrides, for the launchers that take them); null for an unknown type.
pub open spec fn launcher_start(t: Seq<char>) -> JsonView {
    if t == "bob"@ || t == "goose"@ || t == "openclaw"@ {
        JsonView::Object(seq![("command_path"@, JsonView::Null)])
    } else if t == "hermes"@ {
        JsonView::Object(seq![("command_path"@, JsonView::Null), ("model_overrides"@, JsonView::Null)])
    } else if t == "opencode"@ {
        JsonView::Object(seq![("command_path"@, JsonView::Null), ("provider_overrides"@, JsonView::Null)])
    } else {
        JsonView::Null
    }
}

/// The first of the selected `models` that capability type `t` depends on.
pub open spec fn model_for_capability(
    t: Seq<char>,
    models: Seq<Seq<char>>,
    types: Map<Seq<char>, CapabilityMetadata>,
    catalog: Map<Seq<char>, ModelMetadata>,
) -> Option<Seq<char>>
    decreases models.len(),
{
    if models.len() == 0 || !types.contains_key(t) {
        None
    } else if exists|k: int|
        0 <= k < types[t].dependencies@.len() && #[trigger] fills_model(types[t].dependencies@[k], models[0], catalog) {
        Some(models[0])
    } else {
        model_for_capability(t, models.drop_first(), types, catalog)
    }
}

/// The settings a capability instance of type `t` gets: the model it depends
/// on among the selected ones, when there is one; null otherwise.
pub open spec fn capability_start(
    t: Seq<char>,
    models: Seq<Seq<char>>,
    types: Map<Seq<char>, CapabilityMetadata>,
    catalog: Map<Seq<char>, ModelMetadata>,
) -> JsonView {
    match model_for_capability(t, models, types, catalog) {
        Some(m) => JsonView::Object(seq![("model_id"@, JsonView::Str(m))]),
        None => JsonView::Null,
    }
}

/// The provider a selected model is set to use: the first selected provider
/// that a recommendation names as able to run it, else the first selected
/// provider, else none.
pub open spec fn model_provider(
    id: Seq<char>,
    providers: Seq<Seq<char>>,
    recs: Seq<Recommendation>,
) -> Option<Seq<char>> {
    match runner_for_model(recs, id, providers) {
        Some(p) => Some(p),
        None => if providers.len() > 0 {
            Some(providers[0])
        } else {
            None
        },
    }
}

/// An optional text, by its view.
pub open spec fn opt_view(o: Option<String>) -> Option<Seq<char>> {
    match o {
        Some(s) => Some(s@),
        None => None,
    }
}

pub open spec fn provider_entry(c: ProviderConfig, k: Seq<char>) -> bool {
    c.provider_id@ == k && c.provider_type@ == k && c.config@ == provider_start(k) && c.enabled
}

pub open spec fn launcher_entry(c: LauncherConfig, k: Seq<char>) -> bool {
    c.launcher_id@ == k && c.launcher_type@ == k && c.enabled_capabilities@.len() == 0 && c.config@ == launcher_start(k)
}

pub open spec fn model_entry(c: ModelConfig, k: Seq<char>, providers: Seq<Seq<char>>, recs: Seq<Recommendation>) -> bool {
    c.model_id@ == k && opt_view(c.provider_id) == model_provider(k, providers, recs) && c.variant is None
        && c.enabled
}

pub open spec fn capability_entry(
    c: CapabilityConfig,
    k: Seq<char>,
    models: Seq<Seq<char>>,
    types: Map<Seq<char>, CapabilityMetadata>,
    catalog: Map<Seq<char>, ModelMetadata>,
) -> bool {
    c.capability_id@ == k && c.capability_type@ == k && c.enabled && c.config@ == capability_start(
        k,
        models,
        types,
        catalog,
    )
}

fn null_members(keys: &Vec<&str>) -> (v: JsonValue)
    ensures
        v@ == JsonView::Object(Seq::new(keys@.len(), |i: int| (keys@[i]@, JsonView::Null))),
{
    let mut members: Vec<(String, JsonValue)> = Vec::new();
    let mut i: usize = 0;
    while i < keys.len()
        invariant
            i <= keys@.len(),
            members_view(members@) == Seq::new(i as nat, |j: int| (keys@[j]@, JsonView::Null)),
        decreases keys@.len() - i,
    {
        let ghost before = members_view(members@);
        let k = keys[i].to_string();
        assert(k@ == keys@[i as int]@);
        members.push((k, JsonValue::Null));
        assert(members_view(members@) =~= before.push((keys@[i as int]@, JsonView::Null)));
        assert(members_view(members@) =~= Seq::new((i + 1) as nat, |j: int| (keys@[j]@, JsonView::Null)));
        i += 1;
    }
    proof {
        lemma_object_view(members);
    }
    JsonValue::Object(members)
}

fn launcher_start_exec(t: &str) -> (v: JsonValue)
    ensures
        v@ == launcher_start(t@),
{
    proof {
        reveal_strlit("bob");
        reveal_strlit("goose");
        reveal_strlit("openclaw");
        reveal_strlit("hermes");
        reveal_strlit("opencode");
    }
    if str_eq(t, "bob") || str_eq(t, "goose") || str_eq(t, "openclaw") {
        let keys = vec!["command_path"];
        let v = null_members(&keys);
        assert(Seq::new(keys@.len(), |i: int| (keys@[i]@, JsonView::Null)) =~= seq![("command_path"@, JsonView::Null)]);
        v
    } else if str_eq(t, "hermes") {
        let keys = vec!["command_path", "model_overrides"];
        let v = null_members(&keys);
        assert(Seq::new(keys@.len(), |i: int| (keys@[i]@, JsonView::Null)) =~= seq![
            ("command_path"@, JsonView::Null),
            ("model_overrides"@, JsonView::Null),
        ]);
        v
    } else if str_eq(t, "opencode") {
        let keys = vec!["command_path", "provider_overrides"];
        let v = null_members(&keys);
        assert(Seq::new(keys@.len(), |i: int| (keys@[i]@, JsonView::Null)) =~= seq![
            ("command_path"@, JsonView::Null),
            ("provider_overrides"@, JsonView::Null),
        ]);
        v
    } else {
        JsonValue::Null
    }
}

fn model_for_capability_exec(
    t: &str,
    models: &Vec<String>,
    types: &Factory<CapabilityMetadata>,
    catalog: &Factory<ModelMetadata>,
) -> (r: Option<String>)
    ensures
        opt_view(r) == model_for_capability(t@, string_views(models@), types@, catalog@),
{
    let ghost mv = string_views(models@);
    let meta = match types.get(t) {
        Some(m) => m,
        None => {
            return None;
        },
    };
    let mut i: usize = 0;
    assert(mv.skip(0) =~= mv);
    while i < models.len()
        invariant
            i <= models@.len(),
            mv == string_views(models@),
            types@.contains_key(t@) && types@[t@] == *meta,
            model_for_capability(t@, mv, types@, catalog@) == model_for_capability(
                t@,
                mv.skip(i as int),
                types@,
                catalog@,
            ),
        decreases models@.len() - i,
    {
        let ghost rest = mv.skip(i as int);
        assert(rest[0] == models@[i as int]@);
        assert(rest.drop_first() =~= mv.skip(i + 1));
        let mut k: usize = 0;
        let mut found = false;
        while k < meta.dependencies.len()
            invariant
                k <= meta.dependencies@.len(),
                i < models@.len(),
                found == exists|kk: int|
                    0 <= kk < k && #[trigger] fills_model(meta.dependencies@[kk], models@[i as int]@, catalog@),
            decreases meta.dependencies@.len() - k,
        {
            match &meta.dependencies[k] {
                crate::capabilities::base::Dependency::Model { id, .. } => {
                    if str_eq(id.as_str(), models[i].as_str()) {
                        found = true;
                        assert(fills_model(meta.dependencies@[k as int], models@[i as int]@, catalog@));
                    }
                },
                crate::capabilities::base::Dependency::ModelFor { functions, .. } => {
                    match catalog.get(models[i].as_str()) {
                        Some(m) => {
                            if crate::capabilities::base::admits_exec(functions, m) {
                                found = true;
                                assert(fills_model(meta.dependencies@[k as int], models@[i as int]@, catalog@));
                            }
                        },
                        None => {},
                    }
                },
                _ => {},
            }
            k += 1;
        }
        if found {
            return Some(crate::text::owned(models[i].as_str()));
        }
        i += 1;
    }
    None
}

/// Configures every instance the selection names: each selected provider,
/// launcher and capability type as an instance of its own id, starting from
/// its type's default settings (a capability gets the selected model it
/// depends on); each selected model set to use the selected provider that a
/// recommendation names as able to run it, else the first selected one.
/// Every other configured instance is kept as it was.
pub fn configure_all(
    config: &mut Config,
    selection: &Selection,
    recs: &Vec<Recommendation>,
    types: &Factory<CapabilityMetadata>,
    catalog: &Factory<ModelMetadata>,
)
    ensures
        forall|i: int|
            0 <= i < selection.providers@.len() ==> #[trigger] final(config).providers@.contains_key(
                selection.providers@[i]@,
            ) && provider_entry(final(config).providers@[selection.providers@[i]@], selection.providers@[i]@),
        forall|k: Seq<char>|
            #[trigger] final(config).providers@.contains_key(k) <==> (old(config).providers@.contains_key(k)
                || string_views(selection.providers@).contains(k)),
        forall|k: Seq<char>|
            old(config).providers@.contains_key(k) && !string_views(selection.providers@).contains(k)
                ==> #[trigger] final(config).providers@[k] == old(config).providers@[k],
        forall|i: int|
            0 <= i < selection.launchers@.len() ==> #[trigger] final(config).launchers@.contains_key(
                selection.launchers@[i]@,
            ) && launcher_entry(final(config).launchers@[selection.launchers@[i]@], selection.launchers@[i]@),
        forall|k: Seq<char>|
            #[trigger] final(config).launchers@.contains_key(k) <==> (old(config).launchers@.contains_key(k)
                || string_views(selection.launchers@).contains(k)),
        forall|k: Seq<char>|
            old(config).launchers@.contains_key(k) && !string_views(selection.launchers@).contains(k)
                ==> #[trigger] final(config).launchers@[k] == old(config).launchers@[k],
        forall|i: int|
            0 <= i < selection.models@.len() ==> #[trigger] final(config).models@.contains_key(selection.models@[i]@)
                && model_entry(
                final(config).models@[selection.models@[i]@],
                selection.models@[i]@,
                string_views(selection.providers@),
                recs@,
            ),
        forall|k: Seq<char>|
            #[trigger] final(config).models@.contains_key(k) <==> (old(config).models@.contains_key(k)
                || string_views(selection.models@).contains(k)),
        forall|k: Seq<char>|
            old(config).models@.contains_key(k) && !string_views(selection.models@).contains(k)
                ==> #[trigger] final(config).models@[k] == old(config).models@[k],
        forall|i: int|
            0 <= i < selection.capabilities@.len() ==> #[trigger] final(config).capabilities@.contains_key(
                selection.capabilities@[i]@,
            ) && capability_entry(
                final(config).capabilities@[selection.capabilities@[i]@],
                selection.capabilities@[i]@,
                string_views(selection.models@),
                types@,
                catalog@,
            ),
        forall|k: Seq<char>|
            #[trigger] final(config).capabilities@.contains_key(k) <==> (old(config).capabilities@.contains_key(k)
                || string_views(selection.capabilities@).contains(k)),
        forall|k: Seq<char>|
            old(config).capabilities@.contains_key(k) && !string_views(selection.capabilities@).contains(k)
                ==> #[trigger] final(config).capabilities@[k] == old(config).capabilities@[k],
        final(config).tools@ == old(config).tools@,
{
    let ghost c0 = *config;
    let ps = &selection.providers;
    let mut i: usize = 0;
    while i < ps.len()
        invariant
            i <= ps@.len(),
            config.models@ == c0.models@,
            config.launchers@ == c0.launchers@,
            config.capabilities@ == c0.capabilities@,
            config.tools@ == c0.tools@,
            forall|j: int|
                0 <= j < i ==> #[trigger] config.providers@.contains_key(ps@[j]@) && provider_entry(
                    config.providers@[ps@[j]@],
                    ps@[j]@,
                ),
            forall|k: Seq<char>|
                #[trigger] config.providers@.contains_key(k) <==> (c0.providers@.contains_key(k) || exists|j: int|
                    0 <= j < i && ps@[j]@ == k),
            forall|k: Seq<char>|
                c0.providers@.contains_key(k) && !(exists|j: int| 0 <= j < i && ps@[j]@ == k)
                    ==> #[trigger] config.providers@[k] == c0.providers@[k],
        decreases ps@.len() - i,
    {
        let t = ps[i].as_str();
        let settings = match default_provider_settings(t) {
            Some(v) => v,
            None => JsonValue::Null,
        };
        config.insert_provider(
            t,
            ProviderConfig {
                provider_id: crate::text::owned(t),
                provider_type: crate::text::owned(t),
                config: settings,
                enabled: true,
            },
        );
        i += 1;
    }
    proof {
        assert forall|k: Seq<char>| string_views(ps@).contains(k) <==> exists|j: int| 0 <= j < ps@.len() && ps@[j]@ == k by {
            if string_views(ps@).contains(k) {
                let j = choose|j: int| 0 <= j < string_views(ps@).len() && string_views(ps@)[j] == k;
                assert(ps@[j]@ == k);
            }
            if exists|j: int| 0 <= j < ps@.len() && ps@[j]@ == k {
                let j = choose|j: int| 0 <= j < ps@.len() && ps@[j]@ == k;
                assert(string_views(ps@)[j] == k);
            }
        }
    }
    let ghost c1 = *config;
    let ls = &selection.launchers;
    let mut i: usize = 0;
    while i < ls.len()
        invariant
            i <= ls@.len(),
            config.models@ == c1.models@,
            config.providers@ == c1.providers@,
            config.capabilities@ == c1.capabilities@,
            config.tools@ == c1.tools@,
            forall|j: int|
                0 <= j < i ==> #[trigger] config.launchers@.contains_key(ls@[j]@) && launcher_entry(
                    config.launchers@[ls@[j]@],
                    ls@[j]@,
                ),
            forall|k: Seq<char>|
                #[trigger] config.launchers@.contains_key(k) <==> (c1.launchers@.contains_key(k) || exists|j: int|
                    0 <= j < i && ls@[j]@ == k),
            forall|k: Seq<char>|
                c1.launchers@.contains_key(k) && !(exists|j: int| 0 <= j < i && ls@[j]@ == k)
                    ==> #[trigger] config.launchers@[k] == c1.launchers@[k],
        decreases ls@.len() - i,
    {
        let t = ls[i].as_str();
        config.insert_launcher(
            t,
            LauncherConfig {
                launcher_id: crate::text::owned(t),
                launcher_type: crate::text::owned(t),
                enabled_capabilities: Vec::new(),
                config: launcher_start_exec(t),
            },
        );
        i += 1;
    }
    proof {
        assert forall|k: Seq<char>| string_views(ls@).contains(k) <==> exists|j: int| 0 <= j < ls@.len() && ls@[j]@ == k by {
            if string_views(ls@).contains(k) {
                let j = choose|j: int| 0 <= j < string_views(ls@).len() && string_views(ls@)[j] == k;
                assert(ls@[j]@ == k);
            }
            if exists|j: int| 0 <= j < ls@.len() && ls@[j]@ == k {
                let j = choose|j: int| 0 <= j < ls@.len() && ls@[j]@ == k;
                assert(string_views(ls@)[j] == k);
            }
        }
    }
    let ghost c2 = *config;
    let ms = &selection.models;
    let mut i: usize = 0;
    while i < ms.len()
        invariant
            i <= ms@.len(),
            config.launchers@ == c2.launchers@,
            config.providers@ == c2.providers@,
            config.capabilities@ == c2.capabilities@,
            config.tools@ == c2.tools@,
            forall|j: int|
                0 <= j < i ==> #[trigger] config.models@.contains_key(ms@[j]@) && model_entry(
                    config.models@[ms@[j]@],
                    ms@[j]@,
                    string_views(selection.providers@),
                    recs@,
                ),
            forall|k: Seq<char>|
                #[trigger] config.models@.contains_key(k) <==> (c2.models@.contains_key(k) || exists|j: int|
                    0 <= j < i && ms@[j]@ == k),
            forall|k: Seq<char>|
                c2.models@.contains_key(k) && !(exists|j: int| 0 <= j < i && ms@[j]@ == k)
                    ==> #[trigger] config.models@[k] == c2.models@[k],
        decreases ms@.len() - i,
    {
        let id = ms[i].as_str();
        let provider_id = match find_provider_for_model(id, &selection.providers, recs) {
            Some(p) => Some(p),
            None => if selection.providers.len() > 0 {
                Some(crate::text::owned(selection.providers[0].as_str()))
            } else {
                None
            },
        };
        config.insert_model(
            id,
            ModelConfig { model_id: crate::text::owned(id), provider_id, variant: None, enabled: true },
        );
        i += 1;
    }
    proof {
        assert forall|k: Seq<char>| string_views(ms@).contains(k) <==> exists|j: int| 0 <= j < ms@.len() && ms@[j]@ == k by {
            if string_views(ms@).contains(k) {
                let j = choose|j: int| 0 <= j < string_views(ms@).len() && string_views(ms@)[j] == k;
                assert(ms@[j]@ == k);
            }
            if exists|j: int| 0 <= j < ms@.len() && ms@[j]@ == k {
                let j = choose|j: int| 0 <= j < ms@.len() && ms@[j]@ == k;
                assert(string_views(ms@)[j] == k);
            }
        }
    }
    let ghost c3 = *config;
    let cs = &selection.capabilities;
    let mut i: usize = 0;
    while i < cs.len()
        invariant
            i <= cs@.len(),
            config.launchers@ == c3.launchers@,
            config.providers@ == c3.providers@,
            config.models@ == c3.models@,
            config.tools@ == c3.tools@,
            forall|j: int|
                0 <= j < i ==> #[trigger] config.capabilities@.contains_key(cs@[j]@) && capability_entry(
                    config.capabilities@[cs@[j]@],
                    cs@[j]@,
                    string_views(selection.models@),
                    types@,
                    catalog@,
                ),
            forall|k: Seq<char>|
                #[trigger] config.capabilities@.contains_key(k) <==> (c3.capabilities@.contains_key(k) || exists|j: int|
                    0 <= j < i && cs@[j]@ == k),
            forall|k: Seq<char>|
                c3.capabilities@.contains_key(k) && !(exists|j: int| 0 <= j < i && cs@[j]@ == k)
                    ==> #[trigger] config.capabilities@[k] == c3.capabilities@[k],
        decreases cs@.len() - i,
    {
        let t = cs[i].as_str();
        let settings = match model_for_capability_exec(t, &selection.models, types, catalog) {
            Some(m) => {
                let members: Vec<(String, JsonValue)> = vec![("model_id".to_string(), JsonValue::Str(m))];
                proof {
                    lemma_object_view(members);
                    assert(members_view(members@) =~= seq![("model_id"@, JsonView::Str(members@[0].1->Str_0@))]);
                }
                JsonValue::Object(members)
            },
            None => JsonValue::Null,
        };
        config.insert_capability(
            t,
            CapabilityConfig {
                capability_id: crate::text::owned(t),
                capability_type: crate::text::owned(t),
                enabled: true,
                config: settings,
            },
        );
        i += 1;
    }
    proof {
        assert forall|k: Seq<char>| string_views(cs@).contains(k) <==> exists|j: int| 0 <= j < cs@.len() && cs@[j]@ == k by {
            if string_views(cs@).contains(k) {
                let j = choose|j: int| 0 <= j < string_views(cs@).len() && string_views(cs@)[j] == k;
                assert(cs@[j]@ == k);
            }
            if exists|j: int| 0 <= j < cs@.len() && cs@[j]@ == k {
                let j = choose|j: int| 0 <= j < cs@.len() && cs@[j]@ == k;
                assert(string_views(cs@)[j] == k);
            }
        }
        assert forall|j: int| 0 <= j < ms@.len() implies #[trigger] config.models@.contains_key(ms@[j]@) && model_entry(
            config.models@[ms@[j]@],
            ms@[j]@,
            string_views(selection.providers@),
            recs@,
        ) by {
            assert(c3.models@.contains_key(ms@[j]@));
        }
    }
}

/// What setup offers to pull for the selected model `model_id`: the model,
/// its provider instance and that instance's type, when the model is
/// configured with a provider instance that is configured too.
pub open spec fn pull_entry(config: Config, model_id: Seq<char>) -> Option<(Seq<char>, Seq<char>, Seq<char>)> {
    if config.models@.contains_key(model_id) {
        match config.models@[model_id].provider_id {
            Some(p) => if config.providers@.contains_key(p@) {
                Some((model_id, p@, config.providers@[p@].provider_type@))
            } else {
                None
            },
            None => None,
        }
    } else {
        None
    }
}

/// The pull entries of the selected models, in the order they were selected.
pub open spec fn pull_entries(config: Config, selected: Seq<Seq<char>>) -> Seq<(Seq<char>, Seq<char>, Seq<char>)>
    decreases selected.len(),
{
    if selected.len() == 0 {
        Seq::empty()
    } else {
        let rest = pull_entries(config, selected.drop_last());
        match pull_entry(config, selected.last()) {
            Some(e) => rest.push(e),
            None => rest,
        }
    }
}

/// The view of pull entries.
pub open spec fn triples_view(t: Seq<(String, String, String)>) -> Seq<(Seq<char>, Seq<char>, Seq<char>)> {
    Seq::new(t.len(), |i: int| (t[i].0@, t[i].1@, t[i].2@))
}

/// The selected models whose weights setup can pull, each with its provider
/// instance and that instance's type.
pub fn pullable_models(config: &Config, selected: &Vec<String>) -> (r: Vec<(String, String, String)>)
    ensures
        triples_view(r@) == pull_entries(*config, string_views(selected@)),
{
    let ghost sv = string_views(selected@);
    let mut r: Vec<(String, String, String)> = Vec::new();
    let mut i: usize = 0;
    while i < selected.len()
        invariant
            i <= selected@.len(),
            sv == string_views(selected@),
            triples_view(r@) == pull_entries(*config, sv.take(i as int)),
        decreases selected@.len() - i,
    {
        let ghost before = triples_view(r@);
        assert(sv.take(i + 1).drop_last() =~= sv.take(i as int));
        assert(sv.take(i + 1).last() == selected@[i as int]@);
        match config.get_model(selected[i].as_str()) {
            Some(mc) => match &mc.provider_id {
                Some(p) => match config.get_provider(p.as_str()) {
                    Some(pc) => {
                        r.push((
                            crate::text::owned(selected[i].as_str()),
                            crate::text::owned(p.as_str()),
                            crate::text::owned(pc.provider_type.as_str()),
                        ));
                        assert(triples_view(r@) =~= before.push(
                            (selected@[i as int]@, p@, pc.provider_type@),
                        ));
                    },
                    None => {},
                },
                None => {},
            },
            None => {},
        }
        i += 1;
    }
    assert(sv.take(i as int) =~= sv);
    r
}

} // verus!
