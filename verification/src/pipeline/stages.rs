//! The stages that a pipeline is made of.
//!
//! Each stage transforms or checks the scratchpad in place.

pub mod clip;
pub mod impute;
pub mod infer;
pub mod normalize;
pub mod postprocess;
pub mod validate;
