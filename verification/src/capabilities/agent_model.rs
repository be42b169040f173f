//! The agent-model capability: hands a launcher the connection details of a
//! configured model (endpoint, model name, key, TLS) so it can point the
//! agent at it.
use vstd::prelude::*;

use crate::capabilities::base::AgentModelBinding;
use crate::capabilities::base::BindingRequest;
use crate::capabilities::base::BindingType;
use crate::capabilities::base::CapabilityMetadata;
use crate::capabilities::base::Dependency;
use crate::json::JsonValue;
use crate::models::base::ModelFunction;
use crate::providers::base::ApiEndpoint;
use crate::providers::base::ApiType;
use crate::registry::secret::Secret;
use crate::text::join2;
use crate::text::string_views;

verus! {

/// What binding reads of the provider that serves the model: where it is,
/// how to authenticate, which dialects it speaks and its endpoints for chat.
pub struct ProviderConnection {
    pub provider_name: String,
    pub base_url: String,
    pub api_key: Option<Secret>,
    pub verify_ssl: bool,
    pub api_types: Vec<ApiType>,
    pub chat_endpoints: Vec<ApiEndpoint>,
}

/// An agent-model capability instance: the configured model, what it can do,
/// and its provider, or why it has no usable one.
pub struct AgentModelCapability {
    pub model_id: String,
    pub model_functions: Vec<ModelFunction>,
    pub context_length: Option<u64>,
    pub provider: Result<ProviderConnection, String>,
}

/// The model id a capability's settings name: the `model_id` member when it
/// is a string, else the empty id.
pub open spec fn configured_model_id(cfg: JsonValue) -> Seq<char> {
    match crate::json::json_get_str(cfg, "model_id"@) {
        Some(id) => id,
        None => Seq::empty(),
    }
}

/// The model id that `cfg` configures.
pub fn read_model_id(cfg: &JsonValue) -> (id: String)
    ensures
        id@ == configured_model_id(*cfg),
{
    proof {
        reveal_strlit("model_id");
    }
    match cfg.get_str("model_id") {
        Some(s) => crate::text::owned(s),
        None => String::new(),
    }
}

/// The first endpoint of dialect `t` in `endpoints`, if any.
pub open spec fn first_endpoint_of(endpoints: Seq<ApiEndpoint>, t: ApiType) -> Option<ApiEndpoint>
    decreases endpoints.len(),
{
    if endpoints.len() == 0 {
        None
    } else if endpoints[0].api_type_spec() == t {
        Some(endpoints[0])
    } else {
        first_endpoint_of(endpoints.drop_first(), t)
    }
}

/// Why binding the model `id` for dialect `t` fails, checked in this order:
/// no usable provider, a provider without the dialect, a model without chat,
/// a provider without chat endpoints, no chat endpoint of the dialect.
pub open spec fn bind_error(
    id: Seq<char>,
    functions: Seq<ModelFunction>,
    provider: Result<ProviderConnection, String>,
    t: ApiType,
) -> Option<Seq<char>> {
    match provider {
        Err(e) => Some("model '"@ + id + "' has no usable provider: "@ + e@),
        Ok(p) => if !p.api_types@.contains(t) {
            Some("provider for model '"@ + id + "' does not support "@ + t.display_spec())
        } else if !functions.contains(ModelFunction::Chat) {
            Some("model '"@ + id + "' does not support Chat"@)
        } else if p.chat_endpoints@.len() == 0 {
            Some("provider for model '"@ + id + "' does not support Chat"@)
        } else if first_endpoint_of(p.chat_endpoints@, t) is None {
            Some("provider for model '"@ + id + "' has no "@ + t.display_spec() + " endpoint for Chat"@)
        } else {
            None
        }
    }
}

/// The binding produced for dialect `t` when nothing is wrong: the
/// provider's connection, the model's name and context size, and the path
/// of the first chat endpoint of that dialect.
pub open spec fn bound_connection(
    b: AgentModelBinding,
    id: Seq<char>,
    context_length: Option<u64>,
    p: ProviderConnection,
    t: ApiType,
) -> bool {
    &&& b.api_type == t
    &&& b.provider_name@ == p.provider_name@
    &&& b.base_url@ == p.base_url@
    &&& b.model_name@ == id
    &&& b.endpoint_path@ == first_endpoint_of(p.chat_endpoints@, t).unwrap().path_spec()
    &&& match (b.api_key, p.api_key) {
        (Some(k), Some(q)) => k.0@ == q.0@,
        (None, None) => true,
        _ => false,
    }
    &&& b.verify_ssl == p.verify_ssl
    &&& b.context_length == context_length
}

fn contains_api_type(types: &Vec<ApiType>, t: ApiType) -> (b: bool)
    ensures
        b == types@.contains(t),
{
    let mut i: usize = 0;
    while i < types.len()
        invariant
            i <= types@.len(),
            forall|j: int| 0 <= j < i ==> types@[j] != t,
        decreases types@.len() - i,
    {
        if types[i] == t {
            assert(types@[i as int] == t);
            return true;
        }
        i += 1;
    }
    false
}

fn contains_function(functions: &Vec<ModelFunction>, f: ModelFunction) -> (b: bool)
    ensures
        b == functions@.contains(f),
{
    let mut i: usize = 0;
    while i < functions.len()
        invariant
            i <= functions@.len(),
            forall|j: int| 0 <= j < i ==> functions@[j] != f,
        decreases functions@.len() - i,
    {
        if functions[i] == f {
            assert(functions@[i as int] == f);
            return true;
        }
        i += 1;
    }
    false
}

proof fn lemma_first_endpoint_skip(endpoints: Seq<ApiEndpoint>, t: ApiType, i: int)
    requires
        0 <= i < endpoints.len(),
        forall|j: int| 0 <= j < i ==> #[trigger] endpoints[j].api_type_spec() != t,
    ensures
        first_endpoint_of(endpoints, t) == first_endpoint_of(endpoints.skip(i), t),
    decreases i,
{
    if i > 0 {
        assert(endpoints.skip(1) =~= endpoints.drop_first());
        assert(endpoints.drop_first().skip(i - 1) =~= endpoints.skip(i));
        assert forall|j: int| 0 <= j < i - 1 implies #[trigger] endpoints.drop_first()[j].api_type_spec() != t by {
            assert(endpoints.drop_first()[j] == endpoints[j + 1]);
        }
        lemma_first_endpoint_skip(endpoints.drop_first(), t, i - 1);
    } else {
        assert(endpoints.skip(0) =~= endpoints);
    }
}

fn find_endpoint(endpoints: &Vec<ApiEndpoint>, t: ApiType) -> (r: Option<ApiEndpoint>)
    ensures
        r == first_endpoint_of(endpoints@, t),
{
    let mut i: usize = 0;
    while i < endpoints.len()
        invariant
            i <= endpoints@.len(),
            forall|j: int| 0 <= j < i ==> #[trigger] endpoints@[j].api_type_spec() != t,
        decreases endpoints@.len() - i,
    {
        if endpoints[i].api_type() == t {
            proof {
                lemma_first_endpoint_skip(endpoints@, t, i as int);
                assert(endpoints@.skip(i as int)[0] == endpoints@[i as int]);
            }
            return Some(endpoints[i]);
        }
        i += 1;
    }
    proof {
        lemma_first_endpoint_none(endpoints@, t);
    }
    None
}

proof fn lemma_first_endpoint_none(endpoints: Seq<ApiEndpoint>, t: ApiType)
    requires
        forall|j: int| 0 <= j < endpoints.len() ==> #[trigger] endpoints[j].api_type_spec() != t,
    ensures
        first_endpoint_of(endpoints, t) is None,
    decreases endpoints.len(),
{
    if endpoints.len() > 0 {
        assert forall|j: int| 0 <= j < endpoints.drop_first().len() implies #[trigger] endpoints.drop_first()[j].api_type_spec() != t by {
            assert(endpoints.drop_first()[j] == endpoints[j + 1]);
        }
        assert(endpoints[0].api_type_spec() != t);
        lemma_first_endpoint_none(endpoints.drop_first(), t);
    }
}

fn copy_secret(k: &Option<Secret>) -> (r: Option<Secret>)
    ensures
        match (r, *k) {
            (Some(a), Some(b)) => a.0@ == b.0@,
            (None, None) => true,
            _ => false,
        },
{
    match k {
        Some(s) => Some(s.duplicate()),
        None => None,
    }
}

impl AgentModelCapability {
    /// `"Agent Model Binding"`.
    pub fn name(&self) -> (s: &'static str)
        ensures
            s@ == "Agent Model Binding"@,
    {
        "Agent Model Binding"
    }

    /// What the capability does.
    pub fn description(&self) -> (s: &'static str)
        ensures
            s@ == "Surfaces a configured model's connection details (base URL, model name, auth, TLS) to a launched agent."@,
    {
        "Surfaces a configured model's connection details (base URL, model name, auth, TLS) to a launched agent."
    }

    /// The configured model id.
    pub fn configured_model_id(&self) -> (s: &str)
        ensures
            s@ == self.model_id@,
    {
        self.model_id.as_str()
    }

    /// The one dependency: the configured model, required.
    pub fn dependencies(&self) -> (d: Vec<Dependency>)
        ensures
            d@.len() == 1,
            d@[0] matches Dependency::Model { id, required } && id@ == self.model_id@ && required,
    {
        vec![Dependency::Model { id: crate::text::owned(self.model_id.as_str()), required: true }]
    }

    /// The surfaces it fills: the agent-model one.
    pub fn binding_types(&self) -> (t: Vec<BindingType>)
        ensures
            t@ == seq![BindingType::AgentModel],
    {
        let t = vec![BindingType::AgentModel];
        assert(t@ =~= seq![BindingType::AgentModel]);
        t
    }

    /// The catalog entry of the capability type: it depends on a model that
    /// can chat and call tools, kept under `model_id`.
    pub fn metadata() -> (m: CapabilityMetadata)
        ensures
            m.name@ == "Agent Model Binding"@,
            m.dependencies@.len() == 1,
            m.dependencies@[0] matches Dependency::ModelFor { config_key, functions, required } && config_key@
                == "model_id"@ && functions@ == seq![ModelFunction::Chat, ModelFunction::ToolCalling] && required,
            string_views(m.tags@) == seq!["agent"@, "model"@],
            m.binding_types@ == seq![BindingType::AgentModel],
    {
        let t = vec![BindingType::AgentModel];
        assert(t@ =~= seq![BindingType::AgentModel]);
        let fs = vec![ModelFunction::Chat, ModelFunction::ToolCalling];
        assert(fs@ =~= seq![ModelFunction::Chat, ModelFunction::ToolCalling]);
        CapabilityMetadata {
            name: "Agent Model Binding".to_string(),
            description: "Surfaces a configured model's connection details (base URL, model name, auth, TLS) to a launched agent.".to_string(),
            dependencies: vec![Dependency::ModelFor { config_key: "model_id".to_string(), functions: fs, required: true }],
            tags: crate::text::strings2("agent", "model"),
            binding_types: t,
        }
    }

    /// The connection details of the configured model for the dialect the
    /// request asks for; refused, with the reason, when the model has no
    /// usable provider, the provider lacks the dialect or chat, the model
    /// cannot chat, or no chat endpoint speaks the dialect.
    pub fn bind(&self, request: BindingRequest) -> (r: Result<AgentModelBinding, String>)
        ensures
            ({
                let BindingRequest::AgentModel { api_type: t } = request;
                match r {
                    Ok(b) => match self.provider {
                        Ok(p) => bind_error(self.model_id@, self.model_functions@, self.provider, t) is None
                            && bound_connection(b, self.model_id@, self.context_length, p, t),
                        Err(_) => false,
                    },
                    Err(e) => bind_error(self.model_id@, self.model_functions@, self.provider, t) == Some(e@),
                }
            }),
    {
        let BindingRequest::AgentModel { api_type } = request;
        let id = self.model_id.as_str();
        let p = match &self.provider {
            Err(e) => {
                let a = join2("model '", id);
                let b = join2(a.as_str(), "' has no usable provider: ");
                return Err(join2(b.as_str(), e.as_str()));
            },
            Ok(p) => p,
        };
        if !contains_api_type(&p.api_types, api_type) {
            let a = join2("provider for model '", id);
            let b = join2(a.as_str(), "' does not support ");
            return Err(join2(b.as_str(), api_type.display().as_str()));
        }
        if !contains_function(&self.model_functions, ModelFunction::Chat) {
            let a = join2("model '", id);
            return Err(join2(a.as_str(), "' does not support Chat"));
        }
        if p.chat_endpoints.len() == 0 {
            let a = join2("provider for model '", id);
            return Err(join2(a.as_str(), "' does not support Chat"));
        }
        match find_endpoint(&p.chat_endpoints, api_type) {
            None => {
                let a = join2("provider for model '", id);
                let b = join2(a.as_str(), "' has no ");
                let c = join2(b.as_str(), api_type.display().as_str());
                Err(join2(c.as_str(), " endpoint for Chat"))
            },
            Some(endpoint) => Ok(
                AgentModelBinding {
                    api_type,
                    provider_name: crate::text::owned(p.provider_name.as_str()),
                    base_url: crate::text::owned(p.base_url.as_str()),
                    model_name: crate::text::owned(id),
                    endpoint_path: endpoint.path(),
                    api_key: copy_secret(&p.api_key),
                    verify_ssl: p.verify_ssl,
                    context_length: self.context_length,
                },
            ),
        }
    }
}

} // verus!
