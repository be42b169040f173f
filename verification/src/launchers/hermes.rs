//! The Hermes launcher: Hermes reads the bound model from a generated config
//! file in the directory it is pointed at.
use vstd::prelude::*;

use crate::capabilities::base::AgentModelBinding;
use crate::capabilities::base::BindingType;
use crate::json::copy_json;
use crate::json::json_get;
use crate::json::members_view;
use crate::json::object;
use crate::json::set_member;
use crate::json::set_member_exec;
use crate::json::set_members;
use crate::json::string;
use crate::json::JsonValue;
use crate::json::JsonView;
use crate::launchers::base::command_of;
use crate::launchers::base::command_path_readable;
use crate::launchers::base::command_path_setting;
use crate::launchers::base::env;
use crate::launchers::base::overlay_view;
use crate::launchers::base::read_command_path;
use crate::launchers::base::EnvBinding;
use crate::launchers::base::LauncherMetadata;
use crate::text::decimal;
use crate::text::str_eq;
use crate::text::string_views;
use crate::text::u64_to_string;

verus! {

/// Settings of a Hermes launcher.
pub struct HermesLauncherConfig {
    /// Path to the `hermes` binary for installs outside `PATH`.
    pub command_path: Option<String>,
    /// Members set over the generated config; those of a `model` object go
    /// into the generated `model` section.
    pub model_overrides: Option<JsonValue>,
}

/// The member `key` of `cfg` unless it is absent or null.
pub open spec fn optional_member(cfg: JsonValue, key: Seq<char>) -> Option<JsonView> {
    match json_get(cfg, key) {
        Some(JsonValue::Null) => None,
        Some(v) => Some(v@),
        None => None,
    }
}

/// The settings are readable: an object whose `command_path` is absent, null or a string.
pub open spec fn settings_readable(cfg: JsonValue) -> bool {
    cfg is Object && command_path_readable(cfg)
}

/// A copy of the member `key` of `cfg`, unless it is absent or null.
pub fn read_optional_member(cfg: &JsonValue, key: &str) -> (r: Option<JsonValue>)
    ensures
        match r {
            Some(v) => optional_member(*cfg, key@) == Some(v@),
            None => optional_member(*cfg, key@) is None,
        },
{
    match cfg.get(key) {
        Some(JsonValue::Null) => None,
        Some(v) => Some(copy_json(v)),
        None => None,
    }
}

/// Whether `cfg`'s settings are readable.
pub fn settings_readable_exec(cfg: &JsonValue) -> (b: bool)
    ensures
        b == settings_readable(*cfg),
{
    proof {
        reveal_strlit("command_path");
    }
    match cfg {
        JsonValue::Object(_) => match cfg.get("command_path") {
            None => true,
            Some(JsonValue::Null) => true,
            Some(JsonValue::Str(_)) => true,
            _ => false,
        },
        _ => false,
    }
}

impl HermesLauncherConfig {
    /// The settings read from `cfg`; unreadable settings count as none given.
    pub fn from_json(cfg: &JsonValue) -> (c: Self)
        ensures
            settings_readable(*cfg) ==> match c.command_path {
                Some(p) => command_path_setting(*cfg) == Some(p@),
                None => command_path_setting(*cfg) is None,
            },
            settings_readable(*cfg) ==> match c.model_overrides {
                Some(v) => optional_member(*cfg, "model_overrides"@) == Some(v@),
                None => optional_member(*cfg, "model_overrides"@) is None,
            },
            !settings_readable(*cfg) ==> c.command_path is None && c.model_overrides is None,
    {
        if settings_readable_exec(cfg) {
            HermesLauncherConfig {
                command_path: read_command_path(cfg),
                model_overrides: read_optional_member(cfg, "model_overrides"),
            }
        } else {
            HermesLauncherConfig { command_path: None, model_overrides: None }
        }
    }
}

/// Runs the Hermes agent, pointed at the bound model.
pub struct HermesLauncher {
    pub instance_id: String,
    pub config: HermesLauncherConfig,
    pub bound_binding: Option<AgentModelBinding>,
}

/// The generated `model` section for the bound model.
pub open spec fn model_section(b: AgentModelBinding) -> Seq<(Seq<char>, JsonView)> {
    let base = seq![("provider"@, JsonView::Str(b.provider_name@)), ("model"@, JsonView::Str(b.model_name@))];
    let with_url = if b.base_url@.len() > 0 {
        set_member(base, "base_url"@, JsonView::Str(b.base_url@))
    } else {
        base
    };
    match b.context_length {
        Some(n) => set_member(with_url, "context_length"@, JsonView::Number(decimal(n as nat))),
        None => with_url,
    }
}

/// The `model` section and the other top-level members after applying the
/// overrides `o` in order: a `model` override that is an object merges into
/// the section (one that is not is ignored); any other is set at the top.
pub open spec fn apply_overrides(
    model: Seq<(Seq<char>, JsonView)>,
    top: Seq<(Seq<char>, JsonView)>,
    o: Seq<(Seq<char>, JsonView)>,
) -> (Seq<(Seq<char>, JsonView)>, Seq<(Seq<char>, JsonView)>)
    decreases o.len(),
{
    if o.len() == 0 {
        (model, top)
    } else {
        let prev = apply_overrides(model, top, o.drop_last());
        let k = o.last().0;
        let v = o.last().1;
        if k == "model"@ {
            match v {
                JsonView::Object(inner) => (set_members(prev.0, inner), prev.1),
                _ => prev,
            }
        } else {
            (prev.0, set_member(prev.1, k, v))
        }
    }
}

/// The whole generated config for the bound model, with `overrides` applied.
pub open spec fn hermes_config(b: AgentModelBinding, overrides: Option<JsonView>) -> JsonView {
    let r = match overrides {
        Some(JsonView::Object(o)) => apply_overrides(model_section(b), Seq::empty(), o),
        _ => (model_section(b), Seq::empty()),
    };
    JsonView::Object(seq![("model"@, JsonView::Object(r.0))] + r.1)
}

impl HermesLauncher {
    /// A launcher named `instance_id` with the given settings, nothing bound yet.
    pub fn new(instance_id: &str, config: HermesLauncherConfig) -> (l: Self)
        ensures
            l.instance_id@ == instance_id@,
            l.config == config,
            l.bound_binding is None,
    {
        HermesLauncher { instance_id: instance_id.to_string(), config, bound_binding: None }
    }

    /// `"Hermes CLI"`.
    pub fn name(&self) -> (s: &'static str)
        ensures
            s@ == "Hermes CLI"@,
    {
        "Hermes CLI"
    }

    /// The binary to run: the configured path, else `hermes`.
    pub fn command(&self) -> (s: &str)
        ensures
            s@ == command_of(self.config.command_path, "hermes"@),
    {
        match &self.config.command_path {
            Some(p) => p.as_str(),
            None => "hermes",
        }
    }

    /// The catalog entry of the Hermes launcher.
    pub fn metadata() -> (m: LauncherMetadata)
        ensures
            m.name@ == "Hermes CLI"@,
            m.description@ == "Hermes Agent local CLI launcher"@,
            m.default_command@ == "hermes"@,
            m.supported_capabilities@ == seq![BindingType::AgentModel],
            string_views(m.tags@) == seq!["hermes"@, "agent"@],
    {
        let caps = vec![BindingType::AgentModel];
        assert(caps@ =~= seq![BindingType::AgentModel]);
        LauncherMetadata {
            name: "Hermes CLI".to_string(),
            description: "Hermes Agent local CLI launcher".to_string(),
            default_command: "hermes".to_string(),
            supported_capabilities: caps,
            tags: crate::text::strings2("hermes", "agent"),
        }
    }

    /// Binds the model Hermes is to use.
    pub fn bind_agent_model(&mut self, binding: AgentModelBinding)
        ensures
            final(self).bound_binding == Some(binding),
            final(self).instance_id == old(self).instance_id,
            final(self).config == old(self).config,
    {
        self.bound_binding = Some(binding);
    }

    /// The environment Hermes is given: the directory of its generated config
    /// when a model is bound; nothing otherwise.
    pub fn env_overlay(&self, config_path: &str) -> (o: Vec<EnvBinding>)
        ensures
            self.bound_binding is Some ==> overlay_view(o@) == seq![("HERMES_HOME"@, config_path@)],
            self.bound_binding is None ==> o@.len() == 0,
    {
        match &self.bound_binding {
            Some(_) => {
                let o = vec![env("HERMES_HOME", config_path)];
                assert(overlay_view(o@) =~= seq![("HERMES_HOME"@, config_path@)]);
                o
            },
            None => Vec::new(),
        }
    }

    /// The config describing `binding`, with the configured overrides applied.
    pub fn generate_config(&self, binding: &AgentModelBinding) -> (c: JsonValue)
        ensures
            c@ == hermes_config(
                *binding,
                match self.config.model_overrides {
                    Some(o) => Some(o@),
                    None => None,
                },
            ),
    {
        let mut model: Vec<(String, JsonValue)> = Vec::new();
        model.push(("provider".to_string(), string(binding.provider_name.as_str())));
        model.push(("model".to_string(), string(binding.model_name.as_str())));
        assert(members_view(model@) =~= seq![
            ("provider"@, JsonView::Str(binding.provider_name@)),
            ("model"@, JsonView::Str(binding.model_name@)),
        ]);
        if !binding.base_url.as_str().is_empty() {
            set_member_exec(&mut model, "base_url", string(binding.base_url.as_str()));
        }
        match binding.context_length {
            Some(n) => {
                let v = JsonValue::Number(u64_to_string(n));
                set_member_exec(&mut model, "context_length", v);
            },
            None => {},
        }
        let mut top: Vec<(String, JsonValue)> = Vec::new();
        assert(members_view(top@) =~= Seq::<(Seq<char>, JsonView)>::empty());
        match &self.config.model_overrides {
            Some(JsonValue::Object(o)) => {
                proof {
                    crate::json::lemma_object_view(*o);
                }
                let ghost ov = members_view(o@);
                let ghost m0 = members_view(model@);
                let mut i: usize = 0;
                assert(ov.take(0) =~= Seq::<(Seq<char>, JsonView)>::empty());
                while i < o.len()
                    invariant
                        i <= o@.len(),
                        ov == members_view(o@),
                        m0 == model_section(*binding),
                        (members_view(model@), members_view(top@)) == apply_overrides(
                            m0,
                            Seq::empty(),
                            ov.take(i as int),
                        ),
                    decreases o@.len() - i,
                {
                    proof {
                        assert(ov.take(i + 1).drop_last() =~= ov.take(i as int));
                        assert(ov.take(i + 1).last() == ov[i as int]);
                        reveal_strlit("model");
                    }
                    if str_eq(o[i].0.as_str(), "model") {
                        match &o[i].1 {
                            JsonValue::Object(inner) => {
                                proof {
                                    crate::json::lemma_object_view(*inner);
                                }
                                let ghost iv = members_view(inner@);
                                let ghost mstart = members_view(model@);
                                let mut j: usize = 0;
                                assert(iv.take(0) =~= Seq::<(Seq<char>, JsonView)>::empty());
                                while j < inner.len()
                                    invariant
                                        j <= inner@.len(),
                                        iv == members_view(inner@),
                                        members_view(model@) == set_members(mstart, iv.take(j as int)),
                                    decreases inner@.len() - j,
                                {
                                    proof {
                                        assert(iv.take(j + 1).drop_last() =~= iv.take(j as int));
                                        assert(iv.take(j + 1).last() == iv[j as int]);
                                    }
                                    let v = copy_json(&inner[j].1);
                                    set_member_exec(&mut model, inner[j].0.as_str(), v);
                                    j += 1;
                                }
                                assert(iv.take(j as int) =~= iv);
                            },
                            _ => {},
                        }
                    } else {
                        let v = copy_json(&o[i].1);
                        set_member_exec(&mut top, o[i].0.as_str(), v);
                    }
                    i += 1;
                }
                assert(ov.take(i as int) =~= ov);
            },
            _ => {},
        }
        let ghost mv = members_view(model@);
        let ghost tv = members_view(top@);
        let mut all: Vec<(String, JsonValue)> = Vec::new();
        all.push(("model".to_string(), object(model)));
        let mut k: usize = 0;
        while k < top.len()
            invariant
                k <= top@.len(),
                tv == members_view(top@),
                members_view(all@) == seq![("model"@, JsonView::Object(mv))] + tv.take(k as int),
            decreases top@.len() - k,
        {
            let ghost before = members_view(all@);
            let v = copy_json(&top[k].1);
            all.push((crate::text::owned(top[k].0.as_str()), v));
            assert(tv[k as int] == (top@[k as int].0@, top@[k as int].1@));
            assert(members_view(all@) =~= before.push(tv[k as int]));
            assert(tv.take(k + 1) =~= tv.take(k as int).push(tv[k as int]));
            assert(members_view(all@) =~= seq![("model"@, JsonView::Object(mv))] + tv.take(k + 1));
            k += 1;
        }
        assert(tv.take(k as int) =~= tv);
        object(all)
    }
}

} // verus!
