//! The Goose CLI launcher.
use vstd::prelude::*;

use crate::capabilities::base::AgentModelBinding;
use crate::capabilities::base::BindingType;
use crate::json::JsonValue;
use crate::launchers::base::command_of;
use crate::launchers::base::command_path_setting;
use crate::launchers::base::env;
use crate::launchers::base::overlay_view;
use crate::launchers::base::read_command_path;
use crate::launchers::base::EnvBinding;
use crate::launchers::base::LauncherMetadata;
use crate::text::decimal;
use crate::text::string_views;
use crate::text::u64_to_string;

verus! {

/// Settings of a Goose launcher.
pub struct GooseLauncherConfig {
    /// Path to the `goose` binary for installs outside `PATH`.
    pub command_path: Option<String>,
}

impl GooseLauncherConfig {
    /// The settings read from `cfg`; unreadable settings count as none given.
    pub fn from_json(cfg: &JsonValue) -> (c: Self)
        ensures
            match c.command_path {
                Some(p) => command_path_setting(*cfg) == Some(p@),
                None => command_path_setting(*cfg) is None,
            },
    {
        GooseLauncherConfig { command_path: read_command_path(cfg) }
    }
}

/// Runs the Goose agent, pointed at the bound model.
pub struct GooseLauncher {
    pub instance_id: String,
    pub config: GooseLauncherConfig,
    pub bound_binding: Option<AgentModelBinding>,
}

/// The environment Goose is given for the bound model: provider and model,
/// the endpoint when there is one, the context limit when it is known.
pub open spec fn goose_overlay(b: AgentModelBinding) -> Seq<(Seq<char>, Seq<char>)> {
    let base = seq![("GOOSE_PROVIDER"@, b.provider_name@), ("GOOSE_MODEL"@, b.model_name@)];
    let with_host = if b.base_url@.len() > 0 {
        base.push(("OPENAI_HOST"@, b.base_url@))
    } else {
        base
    };
    match b.context_length {
        Some(n) => with_host.push(("GOOSE_CONTEXT_LIMIT"@, decimal(n as nat))),
        None => with_host,
    }
}

impl GooseLauncher {
    /// A launcher named `instance_id` with the given settings, nothing bound yet.
    pub fn new(instance_id: &str, config: GooseLauncherConfig) -> (l: Self)
        ensures
            l.instance_id@ == instance_id@,
            l.config == config,
            l.bound_binding is None,
    {
        GooseLauncher { instance_id: instance_id.to_string(), config, bound_binding: None }
    }

    /// `"Goose CLI"`.
    pub fn name(&self) -> (s: &'static str)
        ensures
            s@ == "Goose CLI"@,
    {
        "Goose CLI"
    }

    /// The binary to run: the configured path, else `goose`.
    pub fn command(&self) -> (s: &str)
        ensures
            s@ == command_of(self.config.command_path, "goose"@),
    {
        match &self.config.command_path {
            Some(p) => p.as_str(),
            None => "goose",
        }
    }

    /// The catalog entry of the Goose launcher.
    pub fn metadata() -> (m: LauncherMetadata)
        ensures
            m.name@ == "Goose CLI"@,
            m.description@ == "Goose Agent CLI launcher"@,
            m.default_command@ == "goose"@,
            m.supported_capabilities@ == seq![BindingType::AgentModel],
            string_views(m.tags@) == seq!["goose"@, "agent"@],
    {
        let caps = vec![BindingType::AgentModel];
        assert(caps@ =~= seq![BindingType::AgentModel]);
        LauncherMetadata {
            name: "Goose CLI".to_string(),
            description: "Goose Agent CLI launcher".to_string(),
            default_command: "goose".to_string(),
            supported_capabilities: caps,
            tags: crate::text::strings2("goose", "agent"),
        }
    }

    /// Binds the model Goose is to use.
    pub fn bind_agent_model(&mut self, binding: AgentModelBinding)
        ensures
            final(self).bound_binding == Some(binding),
            final(self).instance_id == old(self).instance_id,
            final(self).config == old(self).config,
    {
        self.bound_binding = Some(binding);
    }

    /// The environment Goose is given; nothing when no model is bound.
    pub fn env_overlay(&self) -> (o: Vec<EnvBinding>)
        ensures
            match self.bound_binding {
                Some(b) => overlay_view(o@) == goose_overlay(b),
                None => o@.len() == 0,
            },
    {
        let mut o: Vec<EnvBinding> = Vec::new();
        match &self.bound_binding {
            Some(b) => {
                o.push(env("GOOSE_PROVIDER", b.provider_name.as_str()));
                o.push(env("GOOSE_MODEL", b.model_name.as_str()));
                let ghost base = overlay_view(o@);
                if !b.base_url.as_str().is_empty() {
                    o.push(env("OPENAI_HOST", b.base_url.as_str()));
                }
                let ghost with_host = overlay_view(o@);
                match b.context_length {
                    Some(n) => {
                        let v = u64_to_string(n);
                        o.push(env("GOOSE_CONTEXT_LIMIT", v.as_str()));
                    },
                    None => {},
                }
                assert(overlay_view(o@) =~= goose_overlay(*b));
            },
            None => {},
        }
        o
    }
}

} // verus!
