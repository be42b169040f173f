//! The catalog of capability types that bind into launchers.
use vstd::prelude::*;

use crate::capabilities::agent_model::AgentModelCapability;
use crate::capabilities::base::BindingType;
use crate::capabilities::base::CapabilityMetadata;
use crate::capabilities::base::Dependency;
use crate::models::base::ModelFunction;
use crate::registry::Factory;

verus! {

/// Every capability type that fills a binding surface, registered under its id.
pub fn capability_types() -> (f: Factory<CapabilityMetadata>)
    ensures
        f@.dom() == set!["agent-model"@],
        f@["agent-model"@].name@ == "Agent Model Binding"@,
        f@["agent-model"@].binding_types@ == seq![BindingType::AgentModel],
        f@["agent-model"@].dependencies@.len() == 1,
        f@["agent-model"@].dependencies@[0] matches Dependency::ModelFor { config_key, functions, required }
            && config_key@ == "model_id"@ && functions@ == seq![ModelFunction::Chat, ModelFunction::ToolCalling]
            && required,
{
    let mut f: Factory<CapabilityMetadata> = Factory::new();
    f.register("agent-model", AgentModelCapability::metadata());
    assert(f@.dom() =~= set!["agent-model"@]);
    f
}

} // verus!
