//! The OpenClaw CLI launcher.
use vstd::prelude::*;

use crate::capabilities::base::AgentModelBinding;
use crate::capabilities::base::BindingType;
use crate::json::JsonValue;
use crate::launchers::base::command_of;
use crate::launchers::base::command_path_setting;
use crate::launchers::base::env;
use crate::launchers::base::overlay_view;
use crate::launchers::base::read_command_path;
use crate::launchers::base::EnvBinding;
use crate::launchers::base::LauncherMetadata;
use crate::text::decimal;
use crate::text::string_views;
use crate::text::u64_to_string;

verus! {

/// Settings of a OpenClaw launcher.
pub struct OpenClawLauncherConfig {
    /// Path to the `openclaw` binary for installs outside `PATH`.
    pub command_path: Option<String>,
}

impl OpenClawLauncherConfig {
    /// The settings read from `cfg`; unreadable settings count as none given.
    pub fn from_json(cfg: &JsonValue) -> (c: Self)
        ensures
            match c.command_path {
                Some(p) => command_path_setting(*cfg) == Some(p@),
                None => command_path_setting(*cfg) is None,
            },
    {
        OpenClawLauncherConfig { command_path: read_command_path(cfg) }
    }
}

/// Runs the OpenClaw agent, pointed at the bound model.
pub struct OpenClawLauncher {
    pub instance_id: String,
    pub config: OpenClawLauncherConfig,
    pub bound_binding: Option<AgentModelBinding>,
}

/// The environment OpenClaw is given for the bound model: the generated
/// config file, provider and model, the local endpoint and model when there
/// is an endpoint, the token limit when the context size is known.
pub open spec fn openclaw_overlay(b: AgentModelBinding, config_path: Seq<char>) -> Seq<(Seq<char>, Seq<char>)> {
    let base = seq![
        ("OPENCLAW_CONFIG_PATH"@, config_path),
        ("OPENCLAW_PROVIDER"@, b.provider_name@),
        ("OPENCLAW_MODEL"@, b.model_name@),
    ];
    let with_local = if b.base_url@.len() > 0 {
        base.push(("OPENCLAW_LOCAL_ENDPOINT"@, b.base_url@)).push(("OPENCLAW_LOCAL_MODEL"@, b.model_name@))
    } else {
        base
    };
    match b.context_length {
        Some(n) => with_local.push(("OPENCLAW_MAX_TOKENS"@, decimal(n as nat))),
        None => with_local,
    }
}

impl OpenClawLauncher {
    /// A launcher named `instance_id` with the given settings, nothing bound yet.
    pub fn new(instance_id: &str, config: OpenClawLauncherConfig) -> (l: Self)
        ensures
            l.instance_id@ == instance_id@,
            l.config == config,
            l.bound_binding is None,
    {
        OpenClawLauncher { instance_id: instance_id.to_string(), config, bound_binding: None }
    }

    /// `"OpenClaw CLI"`.
    pub fn name(&self) -> (s: &'static str)
        ensures
            s@ == "OpenClaw CLI"@,
    {
        "OpenClaw CLI"
    }

    /// The binary to run: the configured path, else `openclaw`.
    pub fn command(&self) -> (s: &str)
        ensures
            s@ == command_of(self.config.command_path, "openclaw"@),
    {
        match &self.config.command_path {
            Some(p) => p.as_str(),
            None => "openclaw",
        }
    }

    /// The catalog entry of the OpenClaw launcher.
    pub fn metadata() -> (m: LauncherMetadata)
        ensures
            m.name@ == "OpenClaw CLI"@,
            m.description@ == "OpenClaw autonomous AI agent launcher"@,
            m.default_command@ == "openclaw"@,
            m.supported_capabilities@ == seq![BindingType::AgentModel],
            string_views(m.tags@) == seq!["openclaw"@, "agent"@],
    {
        let caps = vec![BindingType::AgentModel];
        assert(caps@ =~= seq![BindingType::AgentModel]);
        LauncherMetadata {
            name: "OpenClaw CLI".to_string(),
            description: "OpenClaw autonomous AI agent launcher".to_string(),
            default_command: "openclaw".to_string(),
            supported_capabilities: caps,
            tags: crate::text::strings2("openclaw", "agent"),
        }
    }

    /// Binds the model OpenClaw is to use.
    pub fn bind_agent_model(&mut self, binding: AgentModelBinding)
        ensures
            final(self).bound_binding == Some(binding),
            final(self).instance_id == old(self).instance_id,
            final(self).config == old(self).config,
    {
        self.bound_binding = Some(binding);
    }

    /// The environment OpenClaw is given, `config_path` being where its
    /// generated config file goes; nothing when no model is bound.
    pub fn env_overlay(&self, config_path: &str) -> (o: Vec<EnvBinding>)
        ensures
            match self.bound_binding {
                Some(b) => overlay_view(o@) == openclaw_overlay(b, config_path@),
                None => o@.len() == 0,
            },
    {
        let mut o: Vec<EnvBinding> = Vec::new();
        match &self.bound_binding {
            Some(b) => {
                o.push(env("OPENCLAW_CONFIG_PATH", config_path));
                o.push(env("OPENCLAW_PROVIDER", b.provider_name.as_str()));
                o.push(env("OPENCLAW_MODEL", b.model_name.as_str()));
                if !b.base_url.as_str().is_empty() {
                    o.push(env("OPENCLAW_LOCAL_ENDPOINT", b.base_url.as_str()));
                    o.push(env("OPENCLAW_LOCAL_MODEL", b.model_name.as_str()));
                }
                match b.context_length {
                    Some(n) => {
                        let v = u64_to_string(n);
                        o.push(env("OPENCLAW_MAX_TOKENS", v.as_str()));
                    },
                    None => {},
                }
                assert(overlay_view(o@) =~= openclaw_overlay(*b, config_path@));
            },
            None => {},
        }
        o
    }
}

} // verus!
