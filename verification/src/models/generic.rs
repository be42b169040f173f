//! A model described entirely by its catalog metadata.
use vstd::prelude::*;

use crate::models::base::ModelFunction;
use crate::models::base::ModelMetadata;
use crate::models::base::ModelType;
use crate::models::base::ModelVariant;

verus! {

/// A model whose every property comes from its metadata.
pub struct GenericModel {
    pub config: ModelMetadata,
}

impl GenericModel {
    /// The model described by `config`.
    pub fn new(config: ModelMetadata) -> (m: Self)
        ensures
            m.config == config,
    {
        GenericModel { config }
    }

    /// Catalog id.
    pub fn id(&self) -> (s: &str)
        ensures
            s@ == self.config.id@,
    {
        self.config.id.as_str()
    }

    /// Model family.
    pub fn family(&self) -> (s: &str)
        ensures
            s@ == self.config.family@,
    {
        self.config.family.as_str()
    }

    /// Model version.
    pub fn version(&self) -> (s: &str)
        ensures
            s@ == self.config.version@,
    {
        self.config.version.as_str()
    }

    /// Number of parameters.
    pub fn size(&self) -> (n: u64)
        ensures
            n == self.config.size,
    {
        self.config.size
    }

    /// Context length in tokens.
    pub fn context_length(&self) -> (n: u64)
        ensures
            n == self.config.context_length,
    {
        self.config.context_length
    }

    /// Modality.
    pub fn model_type(&self) -> (t: &ModelType)
        ensures
            *t == self.config.model_type,
    {
        &self.config.model_type
    }

    /// HuggingFace repository.
    pub fn huggingface_repo(&self) -> (s: &str)
        ensures
            s@ == self.config.huggingface_repo@,
    {
        self.config.huggingface_repo.as_str()
    }

    /// API capabilities a provider needs to serve the model.
    pub fn required_provider_capabilities(&self) -> (v: &[String])
        ensures
            v@ == self.config.required_provider_capabilities@,
    {
        self.config.required_provider_capabilities.as_slice()
    }

    /// Downloadable variants.
    pub fn variants(&self) -> (v: &[ModelVariant])
        ensures
            v@ == self.config.variants@,
    {
        self.config.variants.as_slice()
    }

    /// Description, when the catalog has one.
    pub fn description(&self) -> (d: Option<&str>)
        ensures
            match d {
                Some(s) => self.config.description matches Some(c) && s@ == c@,
                None => self.config.description is None,
            },
    {
        match &self.config.description {
            Some(s) => Some(s.as_str()),
            None => None,
        }
    }

    /// Tags.
    pub fn tags(&self) -> (v: &[String])
        ensures
            v@ == self.config.tags@,
    {
        self.config.tags.as_slice()
    }

    /// Functions the model supports.
    pub fn supported_functions(&self) -> (v: &[ModelFunction])
        ensures
            v@ == self.config.supported_functions@,
    {
        self.config.supported_functions.as_slice()
    }
}

} // verus!
