//! The bundled catalog of capabilities.
use vstd::prelude::*;

pub use crate::capabilities::base::Dependency;
pub use crate::registry::Registry;

use crate::registry::find_entry;
use crate::registry::has_key;
use crate::registry::is_first_with_key;
use crate::registry::list_entries;
use crate::registry::matching_entries;
use crate::registry::search_entries;
use crate::registry::CatalogEntry;
use crate::registry::Factory;
use crate::text::join2;
use crate::text::strings2;
use crate::text::strings3;
use crate::text::strings4;
use crate::text::copy_strings;
use crate::text::string_views;
use crate::text::str_views;
use crate::text::deref_seq;

verus! {

broadcast use crate::text::group_views;

/// A capability the catalog knows about.
pub struct CapabilityDefinition {
    pub id: String,
    pub name: String,
    pub description: String,
    pub version: String,
    pub dependencies: Vec<Dependency>,
    pub hooks: Vec<String>,
    pub tags: Vec<String>,
}

impl CatalogEntry for CapabilityDefinition {
    open spec fn key_view(&self) -> Seq<char> {
        self.id@
    }

    open spec fn search_fields(&self) -> Seq<Seq<char>> {
        seq![self.id@, self.name@, self.description@] + string_views(self.tags@)
    }

    fn key(&self) -> (k: &str) {
        self.id.as_str()
    }

    fn fields(&self) -> (v: Vec<&str>) {
        let mut v: Vec<&str> = Vec::new();
        v.push(self.id.as_str());
        v.push(self.name.as_str());
        v.push(self.description.as_str());
        let mut i: usize = 0;
        while i < self.tags.len()
            invariant
                i <= self.tags@.len(),
                v@.len() == 3 + i,
                forall|k: int|
                    0 <= k < v@.len() ==> #[trigger] v@[k]@ == (seq![self.id@, self.name@, self.description@]
                        + string_views(self.tags@))[k],
            decreases self.tags@.len() - i,
        {
            v.push(self.tags[i].as_str());
            i += 1;
        }
        v
    }
}

impl CapabilityDefinition {
    /// A copy of the definition.
    pub fn duplicate(&self) -> (d: Self)
        ensures
            d.id@ == self.id@,
            d.name@ == self.name@,
            d.description@ == self.description@,
            d.version@ == self.version@,
            crate::capabilities::base::same_dependencies(d.dependencies@, self.dependencies@),
            string_views(d.hooks@) == string_views(self.hooks@),
            string_views(d.tags@) == string_views(self.tags@),
    {
        CapabilityDefinition {
            id: crate::text::owned(self.id.as_str()),
            name: crate::text::owned(self.name.as_str()),
            description: crate::text::owned(self.description.as_str()),
            version: crate::text::owned(self.version.as_str()),
            dependencies: crate::capabilities::base::copy_dependencies(&self.dependencies),
            hooks: copy_strings(&self.hooks),
            tags: copy_strings(&self.tags),
        }
    }

    /// `"{id} v{version} - {description}"`.
    pub open spec fn display_spec(&self) -> Seq<char> {
        self.id@ + " v"@ + self.version@ + " - "@ + self.description@
    }

    /// `"{id} v{version} - {description}"`.
    pub fn display(&self) -> (s: String)
        ensures
            s@ == self.display_spec(),
    {
        let a = join2(self.id.as_str(), " v");
        let b = join2(a.as_str(), self.version.as_str());
        let c = join2(b.as_str(), " - ");
        let r = join2(c.as_str(), self.description.as_str());
        assert(r@ =~= self.display_spec());
        r
    }
}

/// Ids of the bundled capabilities, in catalog order.
pub open spec fn bundled_capability_ids() -> Seq<Seq<char>> {
    seq!["docling"@, "vision"@, "speech"@, "compiler"@]
}

/// `d` is a dependency on model `id` with the given requiredness.
pub open spec fn is_model_dep(d: Dependency, id: Seq<char>, required: bool) -> bool {
    d matches Dependency::Model { id: i, required: r } && i@ == id && r == required
}

/// `d` is a dependency on external tool `name` checked by `check`.
pub open spec fn is_tool_dep(d: Dependency, name: Seq<char>, check: Seq<char>) -> bool {
    d matches Dependency::ExternalTool { name: n, check_command: c } && n@ == name && c@ == check
}

/// The bundled capabilities: ids, names, versions, dependencies, hooks and tags.
pub open spec fn is_bundled_capability_catalog(c: Seq<CapabilityDefinition>) -> bool {
    &&& c.len() == 4
    &&& forall|i: int| 0 <= i < 4 ==> #[trigger] c[i].id@ == bundled_capability_ids()[i]
    &&& forall|i: int| 0 <= i < 4 ==> #[trigger] c[i].version@ == "0.1.0"@
    &&& c[0].name@ == "Document Conversion"@ && c[1].name@ == "Visual Analysis"@ && c[2].name@
        == "Audio Transcription"@ && c[3].name@ == "Skills Compiler"@
    &&& c[0].description@
        == "Convert various document formats (PDF, DOCX, PPTX, XLSX) to markdown using IBM Docling."@
    &&& c[0].dependencies@.len() == 1 && is_tool_dep(
        c[0].dependencies@[0],
        "docling"@,
        "python -c \"import docling\""@,
    )
    &&& c[1].dependencies@.len() == 1 && is_model_dep(c[1].dependencies@[0], "granite-vision-3.1-8b"@, true)
    &&& c[2].dependencies@.len() == 1 && is_model_dep(c[2].dependencies@[0], "granite-speech-1.0"@, true)
    &&& c[3].dependencies@.len() == 2 && is_model_dep(
        c[3].dependencies@[0],
        "granite-guardian-3.1-8b"@,
        true,
    ) && is_tool_dep(c[3].dependencies@[1], "mellea-compiler"@, "mellea --version"@)
    &&& string_views(c[0].hooks@) == seq!["on_setup"@, "runtime_bindings"@]
    &&& string_views(c[1].hooks@) == seq![
        "on_setup"@,
        "on_pre_launch"@,
        "on_shutdown"@,
        "runtime_bindings"@,
    ]
    &&& string_views(c[2].hooks@) == seq!["on_setup"@, "runtime_bindings"@]
    &&& string_views(c[3].hooks@) == seq!["on_setup"@, "on_configure"@, "runtime_bindings"@]
    &&& string_views(c[0].tags@) == seq!["document"@, "conversion"@, "markdown"@]
    &&& string_views(c[1].tags@) == seq!["vision"@, "image"@, "multimodal"@]
    &&& string_views(c[2].tags@) == seq![
        "speech"@,
        "audio"@,
        "transcription"@,
        "translation"@,
    ]
    &&& string_views(c[3].tags@) == seq!["compiler"@, "skills"@, "mellea"@]
}

/// The catalog of capabilities.
pub struct CapabilityRegistry {
    pub capabilities: Vec<CapabilityDefinition>,
}

impl CapabilityRegistry {
    /// The catalog holding the bundled capabilities.
    pub fn new() -> (r: Self)
        ensures
            is_bundled_capability_catalog(r.capabilities@),
    {
        CapabilityRegistry { capabilities: Self::bundled_capabilities() }
    }

    /// The bundled capabilities.
    pub fn bundled_capabilities() -> (v: Vec<CapabilityDefinition>)
        ensures
            is_bundled_capability_catalog(v@),
    {
        let v = vec![
            CapabilityDefinition {
                id: "docling".to_string(),
                name: "Document Conversion".to_string(),
                description: "Convert various document formats (PDF, DOCX, PPTX, XLSX) to markdown using IBM Docling.".to_string(),
                version: "0.1.0".to_string(),
                dependencies: vec![
                    Dependency::ExternalTool {
                        name: "docling".to_string(),
                        check_command: "python -c \"import docling\"".to_string(),
                    },
                ],
                hooks: strings2("on_setup", "runtime_bindings"),
                tags: strings3("document", "conversion", "markdown"),
            },
            CapabilityDefinition {
                id: "vision".to_string(),
                name: "Visual Analysis".to_string(),
                description: "Enable visual analysis capabilities using Granite Vision models for image understanding.".to_string(),
                version: "0.1.0".to_string(),
                dependencies: vec![
                    Dependency::Model { id: "granite-vision-3.1-8b".to_string(), required: true },
                ],
                hooks: strings4("on_setup", "on_pre_launch", "on_shutdown", "runtime_bindings"),
                tags: strings3("vision", "image", "multimodal"),
            },
            CapabilityDefinition {
                id: "speech".to_string(),
                name: "Audio Transcription".to_string(),
                description: "Transcribe and translate audio files using Granite Speech models.".to_string(),
                version: "0.1.0".to_string(),
                dependencies: vec![
                    Dependency::Model { id: "granite-speech-1.0".to_string(), required: true },
                ],
                hooks: strings2("on_setup", "runtime_bindings"),
                tags: strings4("speech", "audio", "transcription", "translation"),
            },
            CapabilityDefinition {
                id: "compiler".to_string(),
                name: "Skills Compiler".to_string(),
                description: "Mellea skills compiler - compile raw skills into tool-specific formats with Granite Guardian integration.".to_string(),
                version: "0.1.0".to_string(),
                dependencies: vec![
                    Dependency::Model { id: "granite-guardian-3.1-8b".to_string(), required: true },
                    Dependency::ExternalTool {
                        name: "mellea-compiler".to_string(),
                        check_command: "mellea --version".to_string(),
                    },
                ],
                hooks: strings3("on_setup", "on_configure", "runtime_bindings"),
                tags: strings3("compiler", "skills", "mellea"),
            },
        ];
        v
    }
}

impl Registry<CapabilityDefinition> for CapabilityRegistry {
    fn list(&self) -> (r: Vec<&CapabilityDefinition>)
        ensures
            deref_seq(r@) == self.capabilities@,
    {
        list_entries(&self.capabilities)
    }

    fn get(&self, id: &str) -> (r: Option<&CapabilityDefinition>)
        ensures
            match r {
                Some(e) => exists|i: int| is_first_with_key(self.capabilities@, id@, i) && self.capabilities@[i] == *e,
                None => !has_key(self.capabilities@, id@),
            },
    {
        find_entry(&self.capabilities, id)
    }

    fn search(&self, query: &str) -> (r: Vec<&CapabilityDefinition>)
        ensures
            deref_seq(r@) == matching_entries(self.capabilities@, query@),
    {
        search_entries(&self.capabilities, query)
    }
}

/// The bundled capabilities, each registered under its id.
pub fn capability_catalog() -> (f: Factory<CapabilityDefinition>)
    ensures
        forall|i: int| 0 <= i < 4 ==> #[trigger] f@.contains_key(bundled_capability_ids()[i]),
        forall|k: Seq<char>| #[trigger] f@.contains_key(k) ==> exists|i: int| 0 <= i < 4 && bundled_capability_ids()[i] == k,
        exists|c: Seq<CapabilityDefinition>|
            is_bundled_capability_catalog(c) && forall|i: int|
                0 <= i < 4 ==> #[trigger] f@[bundled_capability_ids()[i]] == c[i],
{
    let defs = CapabilityRegistry::bundled_capabilities();
    let mut f: Factory<CapabilityDefinition> = Factory::new();
    let mut rest = defs;
    let ghost all = rest@;
    proof {
        assert(all.take(4) =~= all);
    }
    while rest.len() > 0
        invariant
            rest@ == all.take(rest@.len() as int),
            rest@.len() <= 4,
            all.len() == 4,
            forall|i: int| 0 <= i < 4 ==> #[trigger] all[i].id@ == bundled_capability_ids()[i],
            forall|i: int| rest@.len() <= i < 4 ==> #[trigger] f@.contains_key(bundled_capability_ids()[i]),
            forall|k: Seq<char>| #[trigger] f@.contains_key(k) ==> exists|i: int| rest@.len() <= i < 4 && bundled_capability_ids()[i] == k,
            is_bundled_capability_catalog(all),
            forall|i: int| rest@.len() <= i < 4 ==> #[trigger] f@[bundled_capability_ids()[i]] == all[i],
        decreases rest@.len(),
    {
        let ghost n = rest@.len() - 1;
        let d = rest.pop().unwrap();
        proof {
            assert(d == all[n]);
            assert(rest@ =~= all.take(n));
        }
        let id = crate::text::owned(d.id.as_str());
        f.register(id.as_str(), d);
        proof {
            assert forall|i: int| rest@.len() <= i < 4 implies #[trigger] f@[bundled_capability_ids()[i]] == all[i] by {
                if i != n {
                    assert(bundled_capability_ids()[i] != bundled_capability_ids()[n]) by {
                        reveal_strlit("docling");
                        reveal_strlit("vision");
                        reveal_strlit("speech");
                        reveal_strlit("compiler");
                        assert(bundled_capability_ids()[i][0] != bundled_capability_ids()[n][0]);
                    }
                }
            }
        }
    }
    proof {
        assert(is_bundled_capability_catalog(all));
    }
    f
}

} // verus!
