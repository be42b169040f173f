//! The user's configuration: configured models, providers, capabilities,
//! launchers and tools, each keyed by its instance id, and the shell settings.
//!
//! Reading and writing the files they are kept in is left to the caller; this
//! module holds them in memory and says what each change does.
pub mod exports;
pub mod paths;
pub mod shell;

use vstd::prelude::*;

use crate::json::JsonValue;
use crate::strmap::StrMap;

verus! {

/// A configured model.
pub struct ModelConfig {
    pub model_id: String,
    pub provider_id: Option<String>,
    pub variant: Option<String>,
    pub enabled: bool,
}

impl Default for ModelConfig {
    /// No model, no provider, no variant; enabled.
    fn default() -> (c: Self)
        ensures
            c.model_id@ == Seq::<char>::empty(),
            c.provider_id is None,
            c.variant is None,
            c.enabled,
    {
        ModelConfig { model_id: String::new(), provider_id: None, variant: None, enabled: true }
    }
}

/// A configured provider instance.
pub struct ProviderConfig {
    pub provider_id: String,
    pub provider_type: String,
    pub config: JsonValue,
    pub enabled: bool,
}

impl Default for ProviderConfig {
    /// Empty ids, an empty settings object; enabled.
    fn default() -> (c: Self)
        ensures
            c.provider_id@ == Seq::<char>::empty(),
            c.provider_type@ == Seq::<char>::empty(),
            c.config matches JsonValue::Object(m) && m@.len() == 0,
            c.enabled,
    {
        ProviderConfig {
            provider_id: String::new(),
            provider_type: String::new(),
            config: JsonValue::empty_object(),
            enabled: true,
        }
    }
}

/// A configured capability instance.
pub struct CapabilityConfig {
    pub capability_id: String,
    pub capability_type: String,
    pub enabled: bool,
    pub config: JsonValue,
}

/// A configured launcher instance.
pub struct LauncherConfig {
    pub launcher_id: String,
    pub launcher_type: String,
    pub enabled_capabilities: Vec<String>,
    pub config: JsonValue,
}

impl Default for LauncherConfig {
    /// Empty ids, no capabilities, an empty settings object.
    fn default() -> (c: Self)
        ensures
            c.launcher_id@ == Seq::<char>::empty(),
            c.launcher_type@ == Seq::<char>::empty(),
            c.enabled_capabilities@.len() == 0,
            c.config matches JsonValue::Object(m) && m@.len() == 0,
    {
        LauncherConfig {
            launcher_id: String::new(),
            launcher_type: String::new(),
            enabled_capabilities: Vec::new(),
            config: JsonValue::empty_object(),
        }
    }
}

/// A capability enabled for a tool, with its settings.
pub struct ConfiguredCapability {
    pub capability_id: String,
    pub enabled: bool,
    pub config: StrMap<String>,
}

/// A configured tool: which model it uses through which provider, and what
/// goes into its environment.
pub struct ToolConfig {
    pub tool_id: String,
    pub tool_version: Option<String>,
    pub provider_id: String,
    pub model_id: String,
    pub env_vars: StrMap<String>,
    pub capabilities: Vec<ConfiguredCapability>,
    pub export_to_shell: bool,
}

/// The user's shell: its name, the profile exports go to, and the line
/// template an export is written with (`{VAR}` and `{VALUE}` are filled in).
pub struct ShellConfig {
    pub shell: String,
    pub export_file: String,
    pub export_format: String,
}

/// A provider instance a model can be routed to, its priority, and whether
/// its health is checked before use.
pub struct ProviderRoute {
    pub provider_id: String,
    pub priority: u8,
    pub health_check: bool,
}

/// For each model, the providers it can be routed to.
pub struct RoutingConfig {
    pub model_routes: StrMap<Vec<ProviderRoute>>,
}

impl RoutingConfig {
    /// No routes.
    pub fn new() -> (r: Self)
        ensures
            r.model_routes@ == Map::<Seq<char>, Vec<ProviderRoute>>::empty(),
    {
        RoutingConfig { model_routes: StrMap::new() }
    }
}

/// What the top-level configuration file holds: the routing and the shell.
pub struct TopLevelConfig {
    pub routing: RoutingConfig,
    pub shell: ShellConfig,
}

/// The whole configuration.
pub struct Config {
    pub models: StrMap<ModelConfig>,
    pub providers: StrMap<ProviderConfig>,
    pub capabilities: StrMap<CapabilityConfig>,
    pub launchers: StrMap<LauncherConfig>,
    pub tools: StrMap<ToolConfig>,
    pub routing: RoutingConfig,
    pub shell: ShellConfig,
}

impl Config {
    /// Nothing configured, with the given shell settings.
    pub fn new(shell: ShellConfig) -> (c: Self)
        ensures
            c.models@ == Map::<Seq<char>, ModelConfig>::empty(),
            c.providers@ == Map::<Seq<char>, ProviderConfig>::empty(),
            c.capabilities@ == Map::<Seq<char>, CapabilityConfig>::empty(),
            c.launchers@ == Map::<Seq<char>, LauncherConfig>::empty(),
            c.tools@ == Map::<Seq<char>, ToolConfig>::empty(),
            c.routing.model_routes@ == Map::<Seq<char>, Vec<ProviderRoute>>::empty(),
            c.shell == shell,
    {
        Config {
            models: StrMap::new(),
            providers: StrMap::new(),
            capabilities: StrMap::new(),
            launchers: StrMap::new(),
            tools: StrMap::new(),
            routing: RoutingConfig::new(),
            shell,
        }
    }

    /// The model configured as `id`.
    pub fn get_model(&self, id: &str) -> (r: Option<&ModelConfig>)
        ensures
            match r {
                Some(m) => self.models@.contains_key(id@) && self.models@[id@] == *m,
                None => !self.models@.contains_key(id@),
            },
    {
        self.models.get(id)
    }

    /// Configures (or reconfigures) the model `id`.
    pub fn insert_model(&mut self, id: &str, config: ModelConfig)
        ensures
            final(self).models@ == old(self).models@.insert(id@, config),
            final(self).providers@ == old(self).providers@,
            final(self).capabilities@ == old(self).capabilities@,
            final(self).launchers@ == old(self).launchers@,
            final(self).tools@ == old(self).tools@,
    {
        self.models.insert(id.to_string(), config);
    }

    /// Forgets the model `id`.
    pub fn remove_model(&mut self, id: &str)
        ensures
            final(self).models@ == old(self).models@.remove(id@),
            final(self).providers@ == old(self).providers@,
            final(self).capabilities@ == old(self).capabilities@,
            final(self).launchers@ == old(self).launchers@,
            final(self).tools@ == old(self).tools@,
    {
        self.models.remove(id);
    }

    /// The provider configured as `id`.
    pub fn get_provider(&self, id: &str) -> (r: Option<&ProviderConfig>)
        ensures
            match r {
                Some(p) => self.providers@.contains_key(id@) && self.providers@[id@] == *p,
                None => !self.providers@.contains_key(id@),
            },
    {
        self.providers.get(id)
    }

    /// Configures (or reconfigures) the provider `id`.
    pub fn insert_provider(&mut self, id: &str, config: ProviderConfig)
        ensures
            final(self).providers@ == old(self).providers@.insert(id@, config),
            final(self).models@ == old(self).models@,
            final(self).capabilities@ == old(self).capabilities@,
            final(self).launchers@ == old(self).launchers@,
            final(self).tools@ == old(self).tools@,
    {
        self.providers.insert(id.to_string(), config);
    }

    /// Forgets the provider `id`.
    pub fn remove_provider(&mut self, id: &str)
        ensures
            final(self).providers@ == old(self).providers@.remove(id@),
            final(self).models@ == old(self).models@,
            final(self).capabilities@ == old(self).capabilities@,
            final(self).launchers@ == old(self).launchers@,
            final(self).tools@ == old(self).tools@,
    {
        self.providers.remove(id);
    }

    /// The capability configured as `id`.
    pub fn get_capability(&self, id: &str) -> (r: Option<&CapabilityConfig>)
        ensures
            match r {
                Some(c) => self.capabilities@.contains_key(id@) && self.capabilities@[id@] == *c,
                None => !self.capabilities@.contains_key(id@),
            },
    {
        self.capabilities.get(id)
    }

    /// Configures (or reconfigures) the capability `id`.
    pub fn insert_capability(&mut self, id: &str, config: CapabilityConfig)
        ensures
            final(self).capabilities@ == old(self).capabilities@.insert(id@, config),
            final(self).models@ == old(self).models@,
            final(self).providers@ == old(self).providers@,
            final(self).launchers@ == old(self).launchers@,
            final(self).tools@ == old(self).tools@,
    {
        self.capabilities.insert(id.to_string(), config);
    }

    /// Forgets the capability `id`.
    pub fn remove_capability(&mut self, id: &str)
        ensures
            final(self).capabilities@ == old(self).capabilities@.remove(id@),
            final(self).models@ == old(self).models@,
            final(self).providers@ == old(self).providers@,
            final(self).launchers@ == old(self).launchers@,
            final(self).tools@ == old(self).tools@,
    {
        self.capabilities.remove(id);
    }

    /// The launcher configured as `id`.
    pub fn get_launcher(&self, id: &str) -> (r: Option<&LauncherConfig>)
        ensures
            match r {
                Some(l) => self.launchers@.contains_key(id@) && self.launchers@[id@] == *l,
                None => !self.launchers@.contains_key(id@),
            },
    {
        self.launchers.get(id)
    }

    /// Configures (or reconfigures) the launcher `id`.
    pub fn insert_launcher(&mut self, id: &str, config: LauncherConfig)
        ensures
            final(self).launchers@ == old(self).launchers@.insert(id@, config),
            final(self).models@ == old(self).models@,
            final(self).providers@ == old(self).providers@,
            final(self).capabilities@ == old(self).capabilities@,
            final(self).tools@ == old(self).tools@,
    {
        self.launchers.insert(id.to_string(), config);
    }

    /// Forgets the launcher `id`.
    pub fn remove_launcher(&mut self, id: &str)
        ensures
            final(self).launchers@ == old(self).launchers@.remove(id@),
            final(self).models@ == old(self).models@,
            final(self).providers@ == old(self).providers@,
            final(self).capabilities@ == old(self).capabilities@,
            final(self).tools@ == old(self).tools@,
    {
        self.launchers.remove(id);
    }

    /// The tool configured as `id`.
    pub fn get_tool(&self, id: &str) -> (r: Option<&ToolConfig>)
        ensures
            match r {
                Some(t) => self.tools@.contains_key(id@) && self.tools@[id@] == *t,
                None => !self.tools@.contains_key(id@),
            },
    {
        self.tools.get(id)
    }

    /// Configures (or reconfigures) the tool `id`.
    pub fn insert_tool(&mut self, id: &str, config: ToolConfig)
        ensures
            final(self).tools@ == old(self).tools@.insert(id@, config),
            final(self).models@ == old(self).models@,
            final(self).providers@ == old(self).providers@,
            final(self).capabilities@ == old(self).capabilities@,
            final(self).launchers@ == old(self).launchers@,
    {
        self.tools.insert(id.to_string(), config);
    }

    /// Forgets the tool `id`.
    pub fn remove_tool(&mut self, id: &str)
        ensures
            final(self).tools@ == old(self).tools@.remove(id@),
            final(self).models@ == old(self).models@,
            final(self).providers@ == old(self).providers@,
            final(self).capabilities@ == old(self).capabilities@,
            final(self).launchers@ == old(self).launchers@,
    {
        self.tools.remove(id);
    }
}

/// A configured model is found again under its id, with the settings it was
/// given; other ids keep what they had.
pub proof fn law_model_read_after_write(
    before: Map<Seq<char>, ModelConfig>,
    id: Seq<char>,
    config: ModelConfig,
    other: Seq<char>,
)
    requires
        other != id,
    ensures
        before.insert(id, config).contains_key(id),
        before.insert(id, config)[id] == config,
        before.insert(id, config).contains_key(other) == before.contains_key(other),
        before.contains_key(other) ==> before.insert(id, config)[other] == before[other],
        !before.remove(id).contains_key(id),
{
}

} // verus!
