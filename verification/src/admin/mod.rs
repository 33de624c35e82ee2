//! What the administrator of the gateway sets.

pub mod mapping_laws;
pub mod model_mapping;
