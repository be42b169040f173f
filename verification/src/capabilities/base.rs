//! What capabilities declare and what they hand to launchers.
use vstd::prelude::*;

use crate::models::base::ModelFunction;
use crate::models::base::ModelMetadata;
use crate::providers::base::ApiType;
use crate::registry::secret::Secret;
use crate::text::join2;

verus! {

/// Which binding surface a capability can fill.
#[derive(PartialEq, Eq, Structural, Clone, Copy, Debug)]
pub enum BindingType {
    AgentModel,
    Mcp,
}

impl BindingType {
    /// Name of the binding surface.
    pub open spec fn display_spec(self) -> Seq<char> {
        match self {
            BindingType::AgentModel => "Agent Model"@,
            BindingType::Mcp => "MCP"@,
        }
    }

    /// Name of the binding surface.
    pub fn display(&self) -> (s: String)
        ensures
            s@ == self.display_spec(),
    {
        match self {
            BindingType::AgentModel => "Agent Model".to_string(),
            BindingType::Mcp => "MCP".to_string(),
        }
    }
}

/// A request for a capability to produce a binding for one surface.
#[derive(PartialEq, Eq, Structural, Clone, Copy, Debug)]
pub enum BindingRequest {
    AgentModel { api_type: ApiType },
}

impl BindingRequest {
    /// The surface this request is for.
    pub open spec fn binding_type_spec(self) -> BindingType {
        match self {
            BindingRequest::AgentModel { .. } => BindingType::AgentModel,
        }
    }

    /// The surface this request is for.
    pub fn binding_type(&self) -> (t: BindingType)
        ensures
            t == self.binding_type_spec(),
    {
        match self {
            BindingRequest::AgentModel { .. } => BindingType::AgentModel,
        }
    }
}

/// Connection details of a model, as a launcher needs them.
pub struct AgentModelBinding {
    pub api_type: ApiType,
    pub provider_name: String,
    pub base_url: String,
    pub model_name: String,
    pub endpoint_path: String,
    pub api_key: Option<Secret>,
    pub verify_ssl: bool,
    pub context_length: Option<u64>,
}

/// The result of a successful bind.
pub enum Binding {
    AgentModel(AgentModelBinding),
}

impl Binding {
    /// The surface this binding fills.
    pub fn binding_type(&self) -> (t: BindingType)
        ensures
            t == BindingType::AgentModel,
    {
        match self {
            Binding::AgentModel(_) => BindingType::AgentModel,
        }
    }
}

/// A capability's dependency on a model, a provider, an external command or
/// another capability. A model is named either by its id, or by what it must
/// support (`ModelFor`): then any catalog model supporting every listed
/// function fills it, and the chosen instance is kept under `config_key`.
pub enum Dependency {
    Model { id: String, required: bool },
    ModelFor { config_key: String, functions: Vec<ModelFunction>, required: bool },
    Provider { id: String, required: bool },
    ExternalTool { name: String, check_command: String },
    Capability { id: String, required: bool },
}

/// `" (required)"` for a required dependency, nothing otherwise.
pub open spec fn required_suffix(required: bool) -> Seq<char> {
    if required {
        " (required)"@
    } else {
        ""@
    }
}

fn required_suffix_exec(required: bool) -> (s: String)
    ensures
        s@ == required_suffix(required),
{
    if required {
        " (required)".to_string()
    } else {
        "".to_string()
    }
}

impl Dependency {
    /// How the dependency is shown to the user.
    pub open spec fn display_spec(&self) -> Seq<char> {
        match self {
            Dependency::Model { id, required } => "Model: "@ + id@ + required_suffix(*required),
            Dependency::ModelFor { required, .. } => "Model: <unresolved>"@ + required_suffix(*required),
            Dependency::Provider { id, required } => "Provider: "@ + id@ + required_suffix(*required),
            Dependency::ExternalTool { name, check_command } => "ExternalTool: "@ + name@ + " ("@
                + check_command@ + ")"@,
            Dependency::Capability { id, required } => "Capability: "@ + id@ + required_suffix(
                *required,
            ),
        }
    }

    /// How the dependency is shown to the user.
    pub fn display(&self) -> (s: String)
        ensures
            s@ == self.display_spec(),
    {
        match self {
            Dependency::Model { id, required } => {
                let a = join2("Model: ", id.as_str());
                let r = join2(a.as_str(), required_suffix_exec(*required).as_str());
                assert(r@ =~= self.display_spec());
                r
            },
            Dependency::ModelFor { required, .. } => {
                let r = join2("Model: <unresolved>", required_suffix_exec(*required).as_str());
                r
            },
            Dependency::Provider { id, required } => {
                let a = join2("Provider: ", id.as_str());
                let r = join2(a.as_str(), required_suffix_exec(*required).as_str());
                assert(r@ =~= self.display_spec());
                r
            },
            Dependency::ExternalTool { name, check_command } => {
                let a = join2("ExternalTool: ", name.as_str());
                let b = join2(a.as_str(), " (");
                let c = join2(b.as_str(), check_command.as_str());
                let r = join2(c.as_str(), ")");
                assert(r@ =~= self.display_spec());
                r
            },
            Dependency::Capability { id, required } => {
                let a = join2("Capability: ", id.as_str());
                let r = join2(a.as_str(), required_suffix_exec(*required).as_str());
                assert(r@ =~= self.display_spec());
                r
            },
        }
    }

    /// Whether the dependency must be satisfied; external tools never are required.
    pub open spec fn is_required_spec(&self) -> bool {
        match self {
            Dependency::Model { required, .. } => *required,
            Dependency::ModelFor { required, .. } => *required,
            Dependency::Provider { required, .. } => *required,
            Dependency::ExternalTool { .. } => false,
            Dependency::Capability { required, .. } => *required,
        }
    }

    /// Whether the dependency must be satisfied; external tools never are required.
    pub fn is_required(&self) -> (b: bool)
        ensures
            b == self.is_required_spec(),
    {
        match self {
            Dependency::Model { required, .. } => *required,
            Dependency::ModelFor { required, .. } => *required,
            Dependency::Provider { required, .. } => *required,
            Dependency::ExternalTool { .. } => false,
            Dependency::Capability { required, .. } => *required,
        }
    }
}


/// Catalog model `m` supports every function in `functions`.
pub open spec fn admits(functions: Seq<ModelFunction>, m: ModelMetadata) -> bool {
    forall|i: int| 0 <= i < functions.len() ==> m.supported_functions@.contains(#[trigger] functions[i])
}

/// Whether catalog model `m` supports every function in `functions`.
pub fn admits_exec(functions: &Vec<ModelFunction>, m: &ModelMetadata) -> (b: bool)
    ensures
        b == admits(functions@, *m),
{
    let mut i: usize = 0;
    while i < functions.len()
        invariant
            i <= functions@.len(),
            forall|j: int| 0 <= j < i ==> m.supported_functions@.contains(#[trigger] functions@[j]),
        decreases functions@.len() - i,
    {
        let f = functions[i];
        let mut k: usize = 0;
        let mut found = false;
        while k < m.supported_functions.len()
            invariant
                k <= m.supported_functions@.len(),
                found == exists|j: int| 0 <= j < k && m.supported_functions@[j] == f,
            decreases m.supported_functions@.len() - k,
        {
            if m.supported_functions[k] == f {
                found = true;
            }
            k += 1;
        }
        if !found {
            assert(!m.supported_functions@.contains(functions@[i as int]));
            return false;
        }
        i += 1;
    }
    true
}

/// Two dependencies name the same thing in the same way.
pub open spec fn same_dependency(a: Dependency, b: Dependency) -> bool {
    match (a, b) {
        (Dependency::Model { id: x, required: r }, Dependency::Model { id: y, required: q }) => x@ == y@ && r == q,
        (
            Dependency::ModelFor { config_key: x, functions: f, required: r },
            Dependency::ModelFor { config_key: y, functions: g, required: q },
        ) => x@ == y@ && f@ == g@ && r == q,
        (Dependency::Provider { id: x, required: r }, Dependency::Provider { id: y, required: q }) => x@ == y@ && r
            == q,
        (
            Dependency::ExternalTool { name: x, check_command: c },
            Dependency::ExternalTool { name: y, check_command: d },
        ) => x@ == y@ && c@ == d@,
        (Dependency::Capability { id: x, required: r }, Dependency::Capability { id: y, required: q }) => x@ == y@
            && r == q,
        _ => false,
    }
}

/// Two lists of dependencies are the same, entry by entry.
pub open spec fn same_dependencies(a: Seq<Dependency>, b: Seq<Dependency>) -> bool {
    a.len() == b.len() && forall|i: int| 0 <= i < a.len() ==> #[trigger] same_dependency(a[i], b[i])
}

impl Dependency {
    /// A copy of the dependency.
    pub fn copy(&self) -> (d: Dependency)
        ensures
            same_dependency(d, *self),
    {
        match self {
            Dependency::Model { id, required } => Dependency::Model {
                id: crate::text::owned(id.as_str()),
                required: *required,
            },
            Dependency::ModelFor { config_key, functions, required } => {
                let mut fs: Vec<ModelFunction> = Vec::new();
                let mut i: usize = 0;
                while i < functions.len()
                    invariant
                        i <= functions@.len(),
                        fs@ == functions@.take(i as int),
                    decreases functions@.len() - i,
                {
                    fs.push(functions[i]);
                    assert(fs@ =~= functions@.take(i + 1));
                    i += 1;
                }
                assert(functions@.take(i as int) =~= functions@);
                Dependency::ModelFor { config_key: crate::text::owned(config_key.as_str()), functions: fs, required: *required }
            },
            Dependency::Provider { id, required } => Dependency::Provider {
                id: crate::text::owned(id.as_str()),
                required: *required,
            },
            Dependency::ExternalTool { name, check_command } => Dependency::ExternalTool {
                name: crate::text::owned(name.as_str()),
                check_command: crate::text::owned(check_command.as_str()),
            },
            Dependency::Capability { id, required } => Dependency::Capability {
                id: crate::text::owned(id.as_str()),
                required: *required,
            },
        }
    }
}

/// Copies of the dependencies, in order.
pub fn copy_dependencies(deps: &Vec<Dependency>) -> (r: Vec<Dependency>)
    ensures
        same_dependencies(r@, deps@),
{
    let mut r: Vec<Dependency> = Vec::new();
    let mut i: usize = 0;
    while i < deps.len()
        invariant
            i <= deps@.len(),
            r@.len() == i,
            forall|j: int| 0 <= j < i ==> #[trigger] same_dependency(r@[j], deps@[j]),
        decreases deps@.len() - i,
    {
        r.push(deps[i].copy());
        i += 1;
    }
    r
}

/// What configuring a capability for a tool produced.
pub struct ConfigureResult {
    pub success: bool,
    pub artifacts: Vec<String>,
    pub messages: Vec<String>,
}

/// Metadata describing a capability implementation.
pub struct CapabilityMetadata {
    pub name: String,
    pub description: String,
    pub dependencies: Vec<Dependency>,
    pub tags: Vec<String>,
    pub binding_types: Vec<BindingType>,
}

} // verus!
