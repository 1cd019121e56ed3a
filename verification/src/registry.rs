//! What a model registry hands over.

use vstd::prelude::*;

use crate::config::ModelSchemaConfig;
use crate::numeric::F32;

pub mod mlflow;
pub mod starter;

verus! {

/// A model artifact fetched from the registry.
#[derive(Debug)]
pub struct RegisteredModel {
    /// Name of the model.
    pub name: String,
    /// Resolved version of the model.
    pub version: String,
    /// Local path of the downloaded artifact.
    pub local_path: String,
    /// Feature schema version the model was trained on, if the registry records
    /// it.
    pub schema_version: Option<u32>,
}

/// Config values that can be taken from the registry.
///
/// All fields are optional, because registries vary in what they store. What is
/// left out has to be filled in by hand.
#[derive(Debug)]
pub struct ConfigSeed {
    /// Input and output tensors, from the model signature.
    pub model_schema: Option<ModelSchemaConfig>,
    /// Mean for the normalize stage.
    pub mean: Option<F32>,
    /// Standard deviation for the normalize stage.
    pub std: Option<F32>,
    /// Lower bound for the clip stage.
    pub clip_min: Option<F32>,
    /// Upper bound for the clip stage.
    pub clip_max: Option<F32>,
    /// Threshold for the postprocess stage.
    pub threshold: Option<F32>,
}

impl Default for ConfigSeed {
    fn default() -> (seed: Self)
        ensures
            seed.model_schema is None,
            seed.mean is None,
            seed.std is None,
            seed.clip_min is None,
            seed.clip_max is None,
            seed.threshold is None,
    {
        ConfigSeed {
            model_schema: None,
            mean: None,
            std: None,
            clip_min: None,
            clip_max: None,
            threshold: None,
        }
    }
}

/// The schema version to hold served features to: the registry's if it records
/// one, otherwise the config's; none if neither has one.
pub fn expected_schema_version(model: &RegisteredModel, schema: &ModelSchemaConfig) -> (version:
    Option<u32>)
    ensures
        version == (if model.schema_version is Some {
            model.schema_version
        } else {
            schema.schema_version
        }),
{
    match model.schema_version {
        Some(version) => Some(version),
        None => schema.schema_version,
    }
}

} // verus!
