//! The Mellea skills compiler, with Granite Guardian checking what it compiles capability.
use vstd::prelude::*;

use crate::capabilities::base::copy_dependencies;
use crate::capabilities::base::same_dependencies;
use crate::capabilities::base::ConfigureResult;
use crate::capabilities::base::Dependency;
use crate::launchers::base::env;
use crate::launchers::base::overlay_view;
use crate::launchers::base::EnvBinding;
use crate::registry::capabilities::is_model_dep;
use crate::registry::capabilities::is_tool_dep;
use crate::text::string_views;

verus! {

/// The Mellea skills compiler, with Granite Guardian checking what it compiles.
pub struct CompilerCapability {
    pub id: String,
    pub name: String,
    pub description: String,
    pub dependencies: Vec<Dependency>,
}

impl CompilerCapability {
    /// The capability with its catalog description and dependencies.
    pub fn new() -> (c: Self)
        ensures
            c.id@ == "compiler"@,
            c.name@ == "Skills Compiler"@,
            c.description@ == "Mellea skills compiler - compile raw skills into tool-specific formats with Granite Guardian integration."@,
            c.dependencies@.len() == 2,
            is_model_dep(c.dependencies@[0], "granite-guardian-3.1-8b"@, true),
            is_tool_dep(c.dependencies@[1], "mellea-compiler"@, "mellea --version"@),
    {
        CompilerCapability {
            id: "compiler".to_string(),
            name: "Skills Compiler".to_string(),
            description: "Mellea skills compiler - compile raw skills into tool-specific formats with Granite Guardian integration.".to_string(),
            dependencies: vec![
                Dependency::Model { id: "granite-guardian-3.1-8b".to_string(), required: true },
                Dependency::ExternalTool { name: "mellea-compiler".to_string(), check_command: "mellea --version".to_string() },
            ],
        }
    }

    /// The capability's id.
    pub fn id(&self) -> (s: &str)
        ensures
            s@ == self.id@,
    {
        self.id.as_str()
    }

    /// The capability's name.
    pub fn name(&self) -> (s: &str)
        ensures
            s@ == self.name@,
    {
        self.name.as_str()
    }

    /// What the capability does.
    pub fn description(&self) -> (s: &str)
        ensures
            s@ == self.description@,
    {
        self.description.as_str()
    }

    /// What the capability depends on.
    pub fn dependencies(&self) -> (d: Vec<Dependency>)
        ensures
            same_dependencies(d@, self.dependencies@),
    {
        copy_dependencies(&self.dependencies)
    }

    /// Configuring the capability for a tool: succeeds, makes nothing, and says so.
    pub fn on_configure(&self) -> (r: ConfigureResult)
        ensures
            r.success,
            r.artifacts@.len() == 0,
            string_views(r.messages@) == seq!["Skills compiler capability configured."@],
    {
        let messages = vec!["Skills compiler capability configured.".to_string()];
        assert(string_views(messages@) =~= seq!["Skills compiler capability configured."@]);
        ConfigureResult { success: true, artifacts: Vec::new(), messages }
    }

    /// What setting up says, given whether the Mellea compiler is installed.
    pub fn setup_message(compiler_available: bool) -> (s: &'static str)
        ensures
            compiler_available ==> s@ == "Mellea compiler is available."@,
            !compiler_available ==> s@ == "\nMellea compiler is not installed. Run:\n  pip install mellea\n\nSkills compilation will be available once installed."@,
    {
        if compiler_available {
            "Mellea compiler is available."
        } else {
            "\nMellea compiler is not installed. Run:\n  pip install mellea\n\nSkills compilation will be available once installed."
        }
    }

    /// The environment the capability adds to a launched tool, given whether
    /// the compiler is installed.
    pub fn runtime_bindings(&self, compiler_available: bool) -> (o: Vec<EnvBinding>)
        ensures
            compiler_available ==> overlay_view(o@) == seq![
                ("GRANITE_COMPILER_ENABLED"@, "true"@),
                ("GRANITE_COMPILER_SKILL_PATH"@, "/usr/local/bin/mellea"@),
            ],
            !compiler_available ==> overlay_view(o@) == seq![("GRANITE_COMPILER_ENABLED"@, "false"@)],
    {
        if compiler_available {
            let o = vec![
                env("GRANITE_COMPILER_ENABLED", "true"),
                env("GRANITE_COMPILER_SKILL_PATH", "/usr/local/bin/mellea"),
            ];
            assert(overlay_view(o@) =~= seq![
                ("GRANITE_COMPILER_ENABLED"@, "true"@),
                ("GRANITE_COMPILER_SKILL_PATH"@, "/usr/local/bin/mellea"@),
            ]);
            o
        } else {
            let o = vec![env("GRANITE_COMPILER_ENABLED", "false")];
            assert(overlay_view(o@) =~= seq![("GRANITE_COMPILER_ENABLED"@, "false"@)]);
            o
        }
    }
}

impl Default for CompilerCapability {
    /// The same as `new`.
    fn default() -> (c: Self)
        ensures
            c.id@ == "compiler"@,
    {
        CompilerCapability::new()
    }
}

} // verus!
