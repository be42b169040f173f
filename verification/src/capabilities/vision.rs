//! Visual analysis with the Granite Vision model capability.
use vstd::prelude::*;

use crate::capabilities::base::copy_dependencies;
use crate::capabilities::base::same_dependencies;
use crate::capabilities::base::ConfigureResult;
use crate::capabilities::base::Dependency;
use crate::launchers::base::env;
use crate::launchers::base::overlay_view;
use crate::launchers::base::EnvBinding;
use crate::registry::capabilities::is_model_dep;
use crate::registry::capabilities::is_tool_dep;
use crate::text::string_views;

verus! {

/// Visual analysis with the Granite Vision model.
pub struct VisionCapability {
    pub id: String,
    pub name: String,
    pub description: String,
    pub dependencies: Vec<Dependency>,
}

impl VisionCapability {
    /// The capability with its catalog description and dependencies.
    pub fn new() -> (c: Self)
        ensures
            c.id@ == "vision"@,
            c.name@ == "Visual Analysis"@,
            c.description@ == "Enable visual analysis capabilities using Granite Vision models for image understanding."@,
            c.dependencies@.len() == 1,
            is_model_dep(c.dependencies@[0], "granite-vision-3.1-8b"@, true),
    {
        VisionCapability {
            id: "vision".to_string(),
            name: "Visual Analysis".to_string(),
            description: "Enable visual analysis capabilities using Granite Vision models for image understanding.".to_string(),
            dependencies: vec![
                Dependency::Model { id: "granite-vision-3.1-8b".to_string(), required: true },
            ],
        }
    }

    /// The capability's id.
    pub fn id(&self) -> (s: &str)
        ensures
            s@ == self.id@,
    {
        self.id.as_str()
    }

    /// The capability's name.
    pub fn name(&self) -> (s: &str)
        ensures
            s@ == self.name@,
    {
        self.name.as_str()
    }

    /// What the capability does.
    pub fn description(&self) -> (s: &str)
        ensures
            s@ == self.description@,
    {
        self.description.as_str()
    }

    /// What the capability depends on.
    pub fn dependencies(&self) -> (d: Vec<Dependency>)
        ensures
            same_dependencies(d@, self.dependencies@),
    {
        copy_dependencies(&self.dependencies)
    }

    /// What setting up says, given whether the vision model is configured.
    pub fn setup_message(model_configured: bool) -> (s: &'static str)
        ensures
            model_configured ==> s@ == "Granite Vision model is configured."@,
            !model_configured ==> s@ == "\nGranite Vision model is not configured. Run:\n  granite-cli model setup granite-vision-3.1-8b\n\nVision capability requires the Granite Vision 3.1 8B model."@,
    {
        if model_configured {
            "Granite Vision model is configured."
        } else {
            "\nGranite Vision model is not configured. Run:\n  granite-cli model setup granite-vision-3.1-8b\n\nVision capability requires the Granite Vision 3.1 8B model."
        }
    }

    /// The environment the capability adds to a launched tool.
    pub fn runtime_bindings(&self) -> (o: Vec<EnvBinding>)
        ensures
            overlay_view(o@) == seq![
                ("GRANITE_VISION_ENABLED"@, "true"@),
                ("GRANITE_VISION_MODEL"@, "granite-vision-3.1-8b"@),
            ],
    {
        let o = vec![
            env("GRANITE_VISION_ENABLED", "true"),
            env("GRANITE_VISION_MODEL", "granite-vision-3.1-8b"),
        ];
        assert(overlay_view(o@) =~= seq![
            ("GRANITE_VISION_ENABLED"@, "true"@),
            ("GRANITE_VISION_MODEL"@, "granite-vision-3.1-8b"@),
        ]);
        o
    }
}

impl Default for VisionCapability {
    /// The same as `new`.
    fn default() -> (c: Self)
        ensures
            c.id@ == "vision"@,
    {
        VisionCapability::new()
    }
}

} // verus!
