//! Converts documents (PDF, DOCX, PPTX, XLSX) to markdown with IBM's Docling, which the tool runs through its skills capability.
use vstd::prelude::*;

use crate::capabilities::base::copy_dependencies;
use crate::capabilities::base::same_dependencies;
use crate::capabilities::base::ConfigureResult;
use crate::capabilities::base::Dependency;
use crate::launchers::base::env;
use crate::launchers::base::overlay_view;
use crate::launchers::base::EnvBinding;
use crate::registry::capabilities::is_model_dep;
use crate::registry::capabilities::is_tool_dep;
use crate::text::string_views;

verus! {

/// Converts documents (PDF, DOCX, PPTX, XLSX) to markdown with IBM's Docling, which the tool runs through its skills.
pub struct DoclingCapability {
    pub id: String,
    pub name: String,
    pub description: String,
    pub dependencies: Vec<Dependency>,
}

impl DoclingCapability {
    /// The capability with its catalog description and dependencies.
    pub fn new() -> (c: Self)
        ensures
            c.id@ == "docling"@,
            c.name@ == "Document Conversion"@,
            c.description@ == "Convert various document formats (PDF, DOCX, PPTX, XLSX) to markdown using IBM Docling."@,
            c.dependencies@.len() == 1,
            is_tool_dep(c.dependencies@[0], "docling"@, "python -c \"import docling\""@),
    {
        DoclingCapability {
            id: "docling".to_string(),
            name: "Document Conversion".to_string(),
            description: "Convert various document formats (PDF, DOCX, PPTX, XLSX) to markdown using IBM Docling.".to_string(),
            dependencies: vec![
                Dependency::ExternalTool { name: "docling".to_string(), check_command: "python -c \"import docling\"".to_string() },
            ],
        }
    }

    /// The capability's id.
    pub fn id(&self) -> (s: &str)
        ensures
            s@ == self.id@,
    {
        self.id.as_str()
    }

    /// The capability's name.
    pub fn name(&self) -> (s: &str)
        ensures
            s@ == self.name@,
    {
        self.name.as_str()
    }

    /// What the capability does.
    pub fn description(&self) -> (s: &str)
        ensures
            s@ == self.description@,
    {
        self.description.as_str()
    }

    /// What the capability depends on.
    pub fn dependencies(&self) -> (d: Vec<Dependency>)
        ensures
            same_dependencies(d@, self.dependencies@),
    {
        copy_dependencies(&self.dependencies)
    }

    /// Configuring the capability for a tool: succeeds, makes nothing, and says so.
    pub fn on_configure(&self) -> (r: ConfigureResult)
        ensures
            r.success,
            r.artifacts@.len() == 0,
            string_views(r.messages@) == seq!["Docling capability configured."@],
    {
        let messages = vec!["Docling capability configured.".to_string()];
        assert(string_views(messages@) =~= seq!["Docling capability configured."@]);
        ConfigureResult { success: true, artifacts: Vec::new(), messages }
    }

    /// What setting up says, given whether Docling is installed.
    pub fn setup_message(docling_available: bool) -> (s: &'static str)
        ensures
            docling_available ==> s@ == "Docling is available."@,
            !docling_available ==> s@ == "\nDocling is not installed. Install with:\n  pip install docling\n\nDocling will be available once installed."@,
    {
        if docling_available {
            "Docling is available."
        } else {
            "\nDocling is not installed. Install with:\n  pip install docling\n\nDocling will be available once installed."
        }
    }

    /// The environment the capability adds to a launched tool, given whether
    /// Docling is installed.
    pub fn runtime_bindings(&self, docling_available: bool) -> (o: Vec<EnvBinding>)
        ensures
            docling_available ==> overlay_view(o@) == seq![
                ("GRANITE_DOCLING_ENABLED"@, "true"@),
                ("GRANITE_DOCLING_SKILL_PATH"@, "/usr/local/bin/docling"@),
            ],
            !docling_available ==> overlay_view(o@) == seq![("GRANITE_DOCLING_ENABLED"@, "false"@)],
    {
        if docling_available {
            let o = vec![
                env("GRANITE_DOCLING_ENABLED", "true"),
                env("GRANITE_DOCLING_SKILL_PATH", "/usr/local/bin/docling"),
            ];
            assert(overlay_view(o@) =~= seq![
                ("GRANITE_DOCLING_ENABLED"@, "true"@),
                ("GRANITE_DOCLING_SKILL_PATH"@, "/usr/local/bin/docling"@),
            ]);
            o
        } else {
            let o = vec![env("GRANITE_DOCLING_ENABLED", "false")];
            assert(overlay_view(o@) =~= seq![("GRANITE_DOCLING_ENABLED"@, "false"@)]);
            o
        }
    }
}

impl Default for DoclingCapability {
    /// The same as `new`.
    fn default() -> (c: Self)
        ensures
            c.id@ == "docling"@,
    {
        DoclingCapability::new()
    }
}

} // verus!
