//! The Bob CLI launcher.
use vstd::prelude::*;

use crate::json::JsonValue;
use crate::launchers::base::command_of;
use crate::launchers::base::command_path_setting;
use crate::launchers::base::read_command_path;
use crate::launchers::base::EnvBinding;
use crate::launchers::base::LauncherMetadata;
use crate::text::string_views;

verus! {

/// Settings of a Bob launcher.
pub struct BobLauncherConfig {
    /// Path to the `bob` binary for installs outside `PATH`.
    pub command_path: Option<String>,
}

impl BobLauncherConfig {
    /// The settings read from `cfg`; unreadable settings count as none given.
    pub fn from_json(cfg: &JsonValue) -> (c: Self)
        ensures
            match c.command_path {
                Some(p) => command_path_setting(*cfg) == Some(p@),
                None => command_path_setting(*cfg) is None,
            },
    {
        BobLauncherConfig { command_path: read_command_path(cfg) }
    }
}

/// Runs IBM's Bob assistant.
pub struct BobLauncher {
    pub config: BobLauncherConfig,
}

impl BobLauncher {
    /// A launcher with the given settings.
    pub fn new(config: BobLauncherConfig) -> (l: Self)
        ensures
            l.config == config,
    {
        BobLauncher { config }
    }

    /// `"Bob CLI"`.
    pub fn name(&self) -> (s: &'static str)
        ensures
            s@ == "Bob CLI"@,
    {
        "Bob CLI"
    }

    /// The binary to run: the configured path, else `bob`.
    pub fn command(&self) -> (s: &str)
        ensures
            s@ == command_of(self.config.command_path, "bob"@),
    {
        match &self.config.command_path {
            Some(p) => p.as_str(),
            None => "bob",
        }
    }

    /// The catalog entry of the Bob launcher.
    pub fn metadata() -> (m: LauncherMetadata)
        ensures
            m.name@ == "Bob CLI"@,
            m.description@ == "IBM Bob AI assistant CLI"@,
            m.default_command@ == "bob"@,
            m.supported_capabilities@.len() == 0,
            string_views(m.tags@) == seq!["bob"@, "ibm"@],
    {
        LauncherMetadata {
            name: "Bob CLI".to_string(),
            description: "IBM Bob AI assistant CLI".to_string(),
            default_command: "bob".to_string(),
            supported_capabilities: Vec::new(),
            tags: crate::text::strings2("bob", "ibm"),
        }
    }

    /// Bob needs nothing added to its environment.
    pub fn env_overlay(&self) -> (o: Vec<EnvBinding>)
        ensures
            o@.len() == 0,
    {
        Vec::new()
    }
}

} // verus!
