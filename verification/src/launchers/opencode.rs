//! The OpenCode launcher: OpenCode reads the bound model from a generated
//! config file that it is pointed at through its environment.
use vstd::prelude::*;

use crate::capabilities::base::AgentModelBinding;
use crate::capabilities::base::BindingType;
use crate::json::members_view;
use crate::json::object;
use crate::json::set_member;
use crate::json::set_member_exec;
use crate::json::set_members;
use crate::json::string;
use crate::json::JsonValue;
use crate::json::JsonView;
use crate::launchers::base::command_of;
use crate::launchers::base::command_path_setting;
use crate::launchers::base::read_command_path;
use crate::launchers::hermes::optional_member;
use crate::launchers::hermes::read_optional_member;
use crate::launchers::hermes::settings_readable;
use crate::launchers::hermes::settings_readable_exec;
use crate::launchers::base::env;
use crate::launchers::base::overlay_view;
use crate::launchers::base::EnvBinding;
use crate::launchers::base::LauncherMetadata;
use crate::text::join2;
use crate::text::str_strip_suffix;
use crate::text::str_trim_end_char;
use crate::text::string_views;
use crate::text::strip_suffix;
use crate::text::trim_end_char;

verus! {

/// Settings of an OpenCode launcher.
pub struct OpenCodeLauncherConfig {
    /// Path to the `opencode` binary for installs outside `PATH`.
    pub command_path: Option<String>,
    /// Members set over the generated provider entry.
    pub provider_overrides: Option<JsonValue>,
}

impl OpenCodeLauncherConfig {
    /// The settings read from `cfg`; unreadable settings count as none given.
    pub fn from_json(cfg: &JsonValue) -> (c: Self)
        ensures
            settings_readable(*cfg) ==> match c.command_path {
                Some(p) => command_path_setting(*cfg) == Some(p@),
                None => command_path_setting(*cfg) is None,
            },
            settings_readable(*cfg) ==> match c.provider_overrides {
                Some(v) => optional_member(*cfg, "provider_overrides"@) == Some(v@),
                None => optional_member(*cfg, "provider_overrides"@) is None,
            },
            !settings_readable(*cfg) ==> c.command_path is None && c.provider_overrides is None,
    {
        if settings_readable_exec(cfg) {
            OpenCodeLauncherConfig {
                command_path: read_command_path(cfg),
                provider_overrides: read_optional_member(cfg, "provider_overrides"),
            }
        } else {
            OpenCodeLauncherConfig { command_path: None, provider_overrides: None }
        }
    }
}

/// Runs OpenCode, pointed at the bound model.
pub struct OpenCodeLauncher {
    pub instance_id: String,
    pub config: OpenCodeLauncherConfig,
    pub bound_agent_model: Option<AgentModelBinding>,
}

/// The API root OpenCode appends operation paths to: the provider URL
/// without trailing slashes, then the endpoint path without its final
/// `/chat/completions` (nothing of the path when it does not end so).
pub open spec fn opencode_base_url_spec(b: AgentModelBinding) -> Seq<char> {
    trim_end_char(b.base_url@, '/') + match strip_suffix(b.endpoint_path@, "/chat/completions"@) {
        Some(p) => p,
        None => Seq::empty(),
    }
}

/// The API root OpenCode appends operation paths to.
pub fn opencode_base_url(binding: &AgentModelBinding) -> (s: String)
    ensures
        s@ == opencode_base_url_spec(*binding),
{
    let root = str_trim_end_char(binding.base_url.as_str(), '/');
    let prefix = match str_strip_suffix(binding.endpoint_path.as_str(), "/chat/completions") {
        Some(p) => p,
        None => String::new(),
    };
    join2(root.as_str(), prefix.as_str())
}

/// The bound model has a non-empty key.
pub open spec fn has_api_key(b: AgentModelBinding) -> bool {
    match b.api_key {
        Some(k) => k.0@.len() > 0,
        None => false,
    }
}

/// The provider entry describing the bound model, before overrides.
pub open spec fn base_provider_entry(b: AgentModelBinding) -> Seq<(Seq<char>, JsonView)> {
    let url = seq![("baseURL"@, JsonView::Str(opencode_base_url_spec(b)))];
    let options = if has_api_key(b) {
        url.push(("apiKey"@, JsonView::Str("{env:GRANITE_CLI_OPENCODE_API_KEY}"@)))
    } else {
        url
    };
    seq![
        ("npm"@, JsonView::Str("@ai-sdk/openai-compatible"@)),
        ("name"@, JsonView::Str(b.provider_name@)),
        ("options"@, JsonView::Object(options)),
        ("models"@, JsonView::Object(seq![(b.model_name@, JsonView::Object(seq![("name"@, JsonView::Str(b.model_name@))]))])),
    ]
}

/// The provider entry describing the bound model: the generated members,
/// with those of an override object set over them.
pub open spec fn provider_entry_spec(b: AgentModelBinding, overrides: Option<JsonView>) -> JsonView {
    match overrides {
        Some(JsonView::Object(o)) => JsonView::Object(set_members(base_provider_entry(b), o)),
        _ => JsonView::Object(base_provider_entry(b)),
    }
}

/// The whole generated config: its schema, and with a bound model the
/// `provider/model` default and the provider entry under its name.
pub open spec fn generated_config(b: Option<AgentModelBinding>, entry: Option<JsonView>) -> JsonView {
    let schema = seq![("$schema"@, JsonView::Str("https://opencode.ai/config.json"@))];
    match (b, entry) {
        (Some(b), Some(e)) => JsonView::Object(
            set_member(
                set_member(schema, "model"@, JsonView::Str(b.provider_name@ + "/"@ + b.model_name@)),
                "provider"@,
                JsonView::Object(seq![(b.provider_name@, e)]),
            ),
        ),
        _ => JsonView::Object(schema),
    }
}

/// The environment OpenCode is given: its config file, and the key when the
/// bound model has one; nothing when no model is bound.
pub open spec fn opencode_overlay(b: AgentModelBinding, config_path: Seq<char>) -> Seq<(Seq<char>, Seq<char>)> {
    let base = seq![("OPENCODE_CONFIG"@, config_path)];
    match b.api_key {
        Some(k) => if k.0@.len() > 0 {
            base.push(("GRANITE_CLI_OPENCODE_API_KEY"@, k.0@))
        } else {
            base
        },
        None => base,
    }
}

fn set_all(members: &mut Vec<(String, JsonValue)>, overrides: &Vec<(String, JsonValue)>)
    ensures
        members_view(final(members)@) == set_members(members_view(old(members)@), members_view(overrides@)),
{
    let ghost start = members_view(members@);
    let ghost ov = members_view(overrides@);
    let mut i: usize = 0;
    assert(ov.take(0) =~= Seq::<(Seq<char>, JsonView)>::empty());
    while i < overrides.len()
        invariant
            i <= overrides@.len(),
            ov == members_view(overrides@),
            start == members_view(old(members)@),
            members_view(members@) == set_members(start, ov.take(i as int)),
        decreases overrides@.len() - i,
    {
        proof {
            assert(ov.take(i + 1).drop_last() =~= ov.take(i as int));
            assert(ov.take(i + 1).last() == ov[i as int]);
        }
        let v = crate::json::copy_json(&overrides[i].1);
        set_member_exec(members, overrides[i].0.as_str(), v);
        i += 1;
    }
    assert(ov.take(i as int) =~= ov);
}

impl OpenCodeLauncher {
    /// A launcher named `instance_id` with the given settings, nothing bound yet.
    pub fn new(instance_id: &str, config: OpenCodeLauncherConfig) -> (l: Self)
        ensures
            l.instance_id@ == instance_id@,
            l.config == config,
            l.bound_agent_model is None,
    {
        OpenCodeLauncher { instance_id: instance_id.to_string(), config, bound_agent_model: None }
    }

    /// `"OpenCode CLI"`.
    pub fn name(&self) -> (s: &'static str)
        ensures
            s@ == "OpenCode CLI"@,
    {
        "OpenCode CLI"
    }

    /// The binary to run: the configured path, else `opencode`.
    pub fn command(&self) -> (s: &str)
        ensures
            s@ == command_of(self.config.command_path, "opencode"@),
    {
        match &self.config.command_path {
            Some(p) => p.as_str(),
            None => "opencode",
        }
    }

    /// The catalog entry of the OpenCode launcher.
    pub fn metadata() -> (m: LauncherMetadata)
        ensures
            m.name@ == "OpenCode CLI"@,
            m.description@ == "OpenCode terminal coding agent"@,
            m.default_command@ == "opencode"@,
            m.supported_capabilities@ == seq![BindingType::AgentModel, BindingType::Mcp],
            string_views(m.tags@) == seq!["opencode"@, "coding-agent"@],
    {
        let caps = vec![BindingType::AgentModel, BindingType::Mcp];
        assert(caps@ =~= seq![BindingType::AgentModel, BindingType::Mcp]);
        LauncherMetadata {
            name: "OpenCode CLI".to_string(),
            description: "OpenCode terminal coding agent".to_string(),
            default_command: "opencode".to_string(),
            supported_capabilities: caps,
            tags: crate::text::strings2("opencode", "coding-agent"),
        }
    }

    /// Binds the model OpenCode is to use.
    pub fn bind_agent_model(&mut self, binding: AgentModelBinding)
        ensures
            final(self).bound_agent_model == Some(binding),
            final(self).instance_id == old(self).instance_id,
            final(self).config == old(self).config,
    {
        self.bound_agent_model = Some(binding);
    }

    /// The provider entry describing `binding`, with the configured overrides set over it.
    pub fn provider_entry(&self, binding: &AgentModelBinding) -> (e: JsonValue)
        ensures
            e@ == provider_entry_spec(
                *binding,
                match self.config.provider_overrides {
                    Some(o) => Some(o@),
                    None => None,
                },
            ),
    {
        let mut options: Vec<(String, JsonValue)> = Vec::new();
        let url = opencode_base_url(binding);
        options.push(("baseURL".to_string(), string(url.as_str())));
        let has_key = match &binding.api_key {
            Some(k) => !k.is_empty(),
            None => false,
        };
        if has_key {
            options.push(("apiKey".to_string(), string("{env:GRANITE_CLI_OPENCODE_API_KEY}")));
        }
        proof {
            let url = seq![("baseURL"@, JsonView::Str(opencode_base_url_spec(*binding)))];
            if has_api_key(*binding) {
                assert(members_view(options@) =~= url.push(
                    ("apiKey"@, JsonView::Str("{env:GRANITE_CLI_OPENCODE_API_KEY}"@)),
                ));
            } else {
                assert(members_view(options@) =~= url);
            }
        }
        let mut model_fields: Vec<(String, JsonValue)> = Vec::new();
        model_fields.push(("name".to_string(), string(binding.model_name.as_str())));
        assert(members_view(model_fields@) =~= seq![("name"@, JsonView::Str(binding.model_name@))]);
        let mut models: Vec<(String, JsonValue)> = Vec::new();
        models.push((crate::text::owned(binding.model_name.as_str()), object(model_fields)));
        assert(members_view(models@) =~= seq![
            (binding.model_name@, JsonView::Object(seq![("name"@, JsonView::Str(binding.model_name@))])),
        ]);
        let mut entry: Vec<(String, JsonValue)> = Vec::new();
        entry.push(("npm".to_string(), string("@ai-sdk/openai-compatible")));
        entry.push(("name".to_string(), string(binding.provider_name.as_str())));
        entry.push(("options".to_string(), object(options)));
        entry.push(("models".to_string(), object(models)));
        assert(members_view(entry@) =~= base_provider_entry(*binding));
        match &self.config.provider_overrides {
            Some(JsonValue::Object(o)) => {
                proof {
                    crate::json::lemma_object_view(*o);
                }
                set_all(&mut entry, o);
            },
            _ => {},
        }
        object(entry)
    }

    /// The environment OpenCode is given, `config_path` being where its
    /// generated config file goes; nothing when no model is bound.
    pub fn env_overlay(&self, config_path: &str) -> (o: Vec<EnvBinding>)
        ensures
            match self.bound_agent_model {
                Some(b) => overlay_view(o@) == opencode_overlay(b, config_path@),
                None => o@.len() == 0,
            },
    {
        let mut o: Vec<EnvBinding> = Vec::new();
        match &self.bound_agent_model {
            Some(b) => {
                o.push(env("OPENCODE_CONFIG", config_path));
                match &b.api_key {
                    Some(k) => if !k.is_empty() {
                        o.push(env("GRANITE_CLI_OPENCODE_API_KEY", k.0.as_str()));
                    },
                    None => {},
                }
                assert(overlay_view(o@) =~= opencode_overlay(*b, config_path@));
            },
            None => {},
        }
        o
    }
}

/// The generated config for the bound model `binding` and its provider entry.
pub fn generate_config(binding: Option<&AgentModelBinding>, provider_entry: Option<JsonValue>) -> (c: JsonValue)
    ensures
        c@ == generated_config(
            match binding {
                Some(b) => Some(*b),
                None => None,
            },
            match provider_entry {
                Some(e) => Some(e@),
                None => None,
            },
        ),
{
    let mut members: Vec<(String, JsonValue)> = Vec::new();
    members.push(("$schema".to_string(), string("https://opencode.ai/config.json")));
    let ghost schema = members_view(members@);
    assert(schema =~= seq![("$schema"@, JsonView::Str("https://opencode.ai/config.json"@))]);
    match (binding, provider_entry) {
        (Some(b), Some(e)) => {
            let a = join2(b.provider_name.as_str(), "/");
            let m = join2(a.as_str(), b.model_name.as_str());
            set_member_exec(&mut members, "model", string(m.as_str()));
            let mut providers: Vec<(String, JsonValue)> = Vec::new();
            let ghost ev = e@;
            providers.push((crate::text::owned(b.provider_name.as_str()), e));
            assert(members_view(providers@) =~= seq![(b.provider_name@, ev)]);
            set_member_exec(&mut members, "provider", object(providers));
        },
        _ => {},
    }
    object(members)
}

} // verus!
