//! The bundled catalog of models.
pub use crate::models::base::ModelType;
