//! Configuration schema and validation.

use vstd::prelude::*;

use crate::error::{ConfigError, Reason};
use crate::numeric::F32;
use crate::text::{push_integer, push_size, same_text};

verus! {

/// Hardware device used for model inference.
///
/// A device other than the CPU fails at session creation if its runtime
/// libraries are missing; there is no silent fallback to the CPU.
#[non_exhaustive]
#[derive(Clone, Copy, Debug, PartialEq, Eq, Structural)]
pub enum DeviceConfig {
    /// CPU inference. Default.
    Cpu,
    /// Apple Neural Engine or GPU via CoreML.
    CoreMl,
    /// NVIDIA GPU via CUDA.
    Cuda,
    /// NVIDIA GPU via TensorRT.
    TensorRt,
}

impl DeviceConfig {
    /// The word that selects this device in a config file.
    pub open spec fn word(self) -> Seq<char> {
        match self {
            DeviceConfig::Cpu => "cpu"@,
            DeviceConfig::CoreMl => "coreml"@,
            DeviceConfig::Cuda => "cuda"@,
            DeviceConfig::TensorRt => "tensorrt"@,
        }
    }

    /// The device that a word selects, if it selects one.
    pub fn from_word(word: &str) -> (device: Option<DeviceConfig>)
        ensures
            device is Some ==> device->Some_0.word() == word@,
            device is None <==> forall|any: DeviceConfig| #[trigger] any.word() != word@,
    {
        let found = if same_text(word, "cpu") {
            Some(DeviceConfig::Cpu)
        } else if same_text(word, "coreml") {
            Some(DeviceConfig::CoreMl)
        } else if same_text(word, "cuda") {
            Some(DeviceConfig::Cuda)
        } else if same_text(word, "tensorrt") {
            Some(DeviceConfig::TensorRt)
        } else {
            None
        };
        proof {
            if found is Some {
                assert(found->Some_0.word() == word@);
            }
        }
        found
    }
}

impl Default for DeviceConfig {
    fn default() -> (device: Self)
        ensures
            device == DeviceConfig::Cpu,
    {
        DeviceConfig::Cpu
    }
}

/// Inference backend implementation.
#[non_exhaustive]
#[derive(Clone, Copy, Debug, PartialEq, Eq, Structural)]
pub enum BackendType {
    /// In-process ONNX Runtime.
    OnnxRuntime,
    /// NVIDIA Triton Inference Server. Not yet implemented.
    Triton,
}

impl BackendType {
    /// The word that selects this backend in a config file.
    pub open spec fn word(self) -> Seq<char> {
        match self {
            BackendType::OnnxRuntime => "onnx_runtime"@,
            BackendType::Triton => "triton"@,
        }
    }

    /// The backend that a word selects, if it selects one.
    pub fn from_word(word: &str) -> (backend: Option<BackendType>)
        ensures
            backend is Some ==> backend->Some_0.word() == word@,
            backend is None <==> forall|any: BackendType| #[trigger] any.word() != word@,
    {
        let found = if same_text(word, "onnx_runtime") {
            Some(BackendType::OnnxRuntime)
        } else if same_text(word, "triton") {
            Some(BackendType::Triton)
        } else {
            None
        };
        proof {
            if found is Some {
                assert(found->Some_0.word() == word@);
            }
        }
        found
    }
}

/// Feature store backend.
#[non_exhaustive]
#[derive(Clone, Copy, Debug, PartialEq, Eq, Structural)]
pub enum StoreType {
    /// Redis feature store.
    Redis,
}

impl StoreType {
    /// The word that selects this store in a config file.
    pub open spec fn word(self) -> Seq<char> {
        "redis"@
    }

    /// The store that a word selects, if it selects one.
    pub fn from_word(word: &str) -> (store: Option<StoreType>)
        ensures
            store is Some ==> store->Some_0.word() == word@,
            store is None <==> forall|any: StoreType| #[trigger] any.word() != word@,
    {
        let found = if same_text(word, "redis") {
            Some(StoreType::Redis)
        } else {
            None
        };
        proof {
            if found is Some {
                assert(found->Some_0.word() == word@);
            } else {
                assert(StoreType::Redis.word() != word@);
            }
        }
        found
    }
}

/// Model registry backend.
#[non_exhaustive]
#[derive(Clone, Copy, Debug, PartialEq, Eq, Structural)]
pub enum RegistryType {
    /// MLflow model registry.
    Mlflow,
}

impl RegistryType {
    /// The word that selects this registry in a config file or on the command
    /// line.
    pub open spec fn word(self) -> Seq<char> {
        "mlflow"@
    }

    /// The registry that a word selects, if it selects one.
    pub fn from_word(word: &str) -> (registry: Option<RegistryType>)
        ensures
            registry is Some ==> registry->Some_0.word() == word@,
            registry is None <==> forall|any: RegistryType| #[trigger] any.word() != word@,
    {
        let found = if same_text(word, "mlflow") {
            Some(RegistryType::Mlflow)
        } else {
            None
        };
        proof {
            if found is Some {
                assert(found->Some_0.word() == word@);
            } else {
                assert(RegistryType::Mlflow.word() != word@);
            }
        }
        found
    }
}

/// Output type produced by the postprocess stage.
#[non_exhaustive]
#[derive(Clone, Copy, Debug, PartialEq, Eq, Structural)]
pub enum OutputType {
    /// Thresholds the score to 1 (above the threshold) or -1.
    Binary,
    /// Passes the raw model score through unchanged.
    Probability,
    /// Passes the raw model output through unchanged.
    Raw,
}

impl OutputType {
    /// The word that selects this output type in a config file.
    pub open spec fn word(self) -> Seq<char> {
        match self {
            OutputType::Binary => "binary"@,
            OutputType::Probability => "probability"@,
            OutputType::Raw => "raw"@,
        }
    }

    /// The output type that a word selects, if it selects one.
    pub fn from_word(word: &str) -> (output: Option<OutputType>)
        ensures
            output is Some ==> output->Some_0.word() == word@,
            output is None <==> forall|any: OutputType| #[trigger] any.word() != word@,
    {
        let found = if same_text(word, "binary") {
            Some(OutputType::Binary)
        } else if same_text(word, "probability") {
            Some(OutputType::Probability)
        } else if same_text(word, "raw") {
            Some(OutputType::Raw)
        } else {
            None
        };
        proof {
            if found is Some {
                assert(found->Some_0.word() == word@);
            }
        }
        found
    }
}

/// What to do with features that are older than allowed.
#[non_exhaustive]
#[derive(Clone, Copy, Debug, PartialEq, Eq, Structural)]
pub enum FreshnessAction {
    /// Serve anyway and warn.
    Flag,
    /// Refuse the request.
    Reject,
}

impl FreshnessAction {
    /// The word that selects this action in a config file.
    pub open spec fn word(self) -> Seq<char> {
        match self {
            FreshnessAction::Flag => "flag"@,
            FreshnessAction::Reject => "reject"@,
        }
    }

    /// The action that a word selects, if it selects one.
    pub fn from_word(word: &str) -> (action: Option<FreshnessAction>)
        ensures
            action is Some ==> action->Some_0.word() == word@,
            action is None <==> forall|any: FreshnessAction| #[trigger] any.word() != word@,
    {
        let found = if same_text(word, "flag") {
            Some(FreshnessAction::Flag)
        } else if same_text(word, "reject") {
            Some(FreshnessAction::Reject)
        } else {
            None
        };
        proof {
            if found is Some {
                assert(found->Some_0.word() == word@);
            }
        }
        found
    }
}

/// gRPC server settings.
#[derive(Clone, Debug)]
pub struct GrpcConfig {
    /// Host address the gRPC server binds to.
    pub host: String,
    /// Port the gRPC server listens on.
    pub port: u16,
    /// How often the streaming RPC polls a store without push support, in
    /// milliseconds.
    pub stream_poll_interval_ms: u64,
    /// Maximum time allowed for a single RPC, in milliseconds.
    pub request_timeout_ms: u64,
    /// Number of pipelines kept in the pool; the number of logical CPUs if not
    /// set.
    pub pool_size: Option<usize>,
    /// Number of inference sessions in the backend pool; the number of logical
    /// CPUs if not set.
    pub session_pool_size: Option<usize>,
}

/// Inference backend settings.
#[derive(Clone, Debug)]
pub struct BackendConfig {
    /// Which backend implementation to use.
    pub backend_type: BackendType,
    /// Hardware device for inference.
    pub device: DeviceConfig,
}

/// Model registry connection settings.
#[derive(Clone, Debug)]
pub struct RegistryConfig {
    /// Which registry implementation to use.
    pub registry_type: RegistryType,
    /// Base URI of the registry server.
    pub uri: String,
    /// Name of the model to fetch from the registry.
    pub model_name: String,
    /// A version number or "latest".
    pub model_version: String,
}

/// Feature store connection settings.
#[derive(Clone, Debug)]
pub struct StoreConfig {
    /// Which store implementation to use.
    pub store_type: StoreType,
    /// Connection URL for the store.
    pub url: String,
    /// Prefix for feature keys; "features" if not set.
    pub key_prefix: Option<String>,
    /// How often the store is pinged for the readiness probe, in seconds; 10 if
    /// not set.
    pub health_check_interval_secs: Option<u64>,
}

/// Feature freshness settings.
#[derive(Clone, Debug)]
pub struct FreshnessConfig {
    /// Largest accepted age of a feature vector, in milliseconds.
    pub max_feature_age_ms: u64,
    /// What to do with an older one.
    pub on_stale: FreshnessAction,
}

/// Prediction logging settings.
#[derive(Clone, Debug)]
pub struct PredictionsConfig {
    /// Whether predictions are logged at all.
    pub enabled: bool,
    /// Addresses of the message brokers.
    pub brokers: String,
    /// Topic that records are published to.
    pub topic: String,
    /// Fraction of predictions logged, from 0 to 1.
    pub sample_rate: F32,
}

/// Metrics exposition settings.
#[derive(Clone, Debug)]
pub struct MetricsConfig {
    /// Port the metrics HTTP server listens on.
    pub port: u16,
}

/// Describes a single input or output tensor: name, data type, and shape.
#[derive(Clone, Debug)]
pub struct TensorSpec {
    /// Tensor name as registered in the model.
    pub name: String,
    /// Data type of the tensor elements, such as "float32".
    pub dtype: String,
    /// Shape of the tensor, one element per dimension.
    pub shape: Vec<i64>,
}

/// The input and output tensors the model expects.
#[derive(Clone, Debug)]
pub struct ModelSchemaConfig {
    /// Specs for each input tensor the model accepts.
    pub inputs: Vec<TensorSpec>,
    /// Specs for each output tensor the model produces.
    pub outputs: Vec<TensorSpec>,
    /// Feature schema version the model was trained on, for registries that
    /// record none.
    pub schema_version: Option<u32>,
}

/// Per-stage observability and reliability options.
#[derive(Clone, Copy, Debug)]
pub struct StageObservability {
    /// Records execution latency for this stage.
    pub timed: Option<bool>,
    /// Emits a tracing span on every execution of this stage.
    pub instrumented: Option<bool>,
    /// Retries the stage on failure up to this many total attempts.
    pub retries: Option<u32>,
    /// Fails the stage if execution exceeds this budget, in milliseconds.
    pub deadline_ms: Option<u64>,
}

/// A pipeline stage; each variant carries only the parameters of that stage.
#[non_exhaustive]
#[derive(Clone, Debug)]
pub enum StageConfig {
    /// Checks that the input tensor has the expected shape and finite values.
    Validate {
        /// Expected tensor dimensions; each must be positive.
        expected_shape: Vec<i64>,
        /// Observability wrappers for this stage.
        observability: StageObservability,
    },
    /// Applies zero-mean unit-variance normalisation to the input tensor.
    Normalize {
        /// Mean subtracted from each element.
        mean: F32,
        /// Standard deviation used to normalise; must not be 0.
        std: F32,
        /// Observability wrappers for this stage.
        observability: StageObservability,
    },
    /// Clips feature values to a range before normalisation.
    Clip {
        /// Lower bound.
        min: F32,
        /// Upper bound.
        max: F32,
        /// Observability wrappers for this stage.
        observability: StageObservability,
    },
    /// Replaces missing (NaN) feature values with a fixed default.
    Impute {
        /// Replacement value for NaN elements.
        default_value: F32,
        /// Observability wrappers for this stage.
        observability: StageObservability,
    },
    /// Runs model inference via the configured backend.
    Infer {
        /// Observability wrappers for this stage.
        observability: StageObservability,
    },
    /// Transforms raw model output into a structured prediction.
    Postprocess {
        /// Decision boundary for binary classification.
        threshold: F32,
        /// How to interpret and transform the raw model score.
        output_type: OutputType,
        /// Observability wrappers for this stage.
        observability: StageObservability,
    },
}

/// Ordered list of pipeline stages to execute per request.
#[derive(Clone, Debug)]
pub struct PipelineConfig {
    /// Stage definitions in execution order.
    pub stages: Vec<StageConfig>,
}

/// Top-level config, owns all section configs.
#[derive(Clone, Debug)]
pub struct Config {
    /// gRPC server settings.
    pub grpc: GrpcConfig,
    /// Inference backend settings.
    pub backend: BackendConfig,
    /// Model registry settings.
    pub registry: RegistryConfig,
    /// Feature store settings.
    pub store: StoreConfig,
    /// Feature freshness settings; no enforcement if not set.
    pub freshness: Option<FreshnessConfig>,
    /// Prediction logging settings; no logging if not set.
    pub predictions: Option<PredictionsConfig>,
    /// Metrics settings.
    pub metrics: MetricsConfig,
    /// Input and output tensors expected by the model.
    pub model_schema: ModelSchemaConfig,
    /// Pipeline stage configuration.
    pub pipeline: PipelineConfig,
}

/// Why a config is refused.
pub enum Refusal {
    /// A key is refused for a reason.
    Key(Seq<char>, Seq<char>),
    /// A key's bounds leave no range between them.
    Range(Seq<char>, F32, F32),
}

impl ConfigError {
    /// The refusal that this error reports, if it reports one.
    pub open spec fn refusal(self) -> Option<Refusal> {
        match self {
            ConfigError::Invalid { field, reason } => Some(
                match reason {
                    Reason::Text(text) => Refusal::Key(field@, text@),
                    Reason::EmptyRange { min, max } => Refusal::Range(field@, min, max),
                },
            ),
            _ => None,
        }
    }
}

/// Index of the first dimension that is not positive, or the number of
/// dimensions if there is none.
pub open spec fn first_nonpositive(shape: Seq<i64>) -> int
    decreases shape.len(),
{
    if shape.len() == 0 || shape[0] <= 0 {
        0
    } else {
        1 + first_nonpositive(shape.skip(1))
    }
}

/// True if every dimension is positive.
pub open spec fn all_positive(shape: Seq<i64>) -> bool {
    forall|i: int| 0 <= i < shape.len() ==> #[trigger] shape[i] > 0
}

impl StageConfig {
    /// True if the parameters of this stage make sense.
    pub open spec fn well_formed(self) -> bool {
        match self {
            StageConfig::Validate { expected_shape, .. } => expected_shape@.len() > 0
                && all_positive(expected_shape@),
            StageConfig::Normalize { std, .. } => !std.spec_is_zero(),
            StageConfig::Clip { min, max, .. } => !max.spec_le(min),
            _ => true,
        }
    }

    /// Why this stage is refused, if it is.
    pub open spec fn refusal(self) -> Option<Refusal> {
        match self {
            StageConfig::Normalize { std, .. } => if std.spec_is_zero() {
                Some(
                    Refusal::Key(
                        "pipeline.stages[normalize].std"@,
                        "must not be 0 (division by zero)"@,
                    ),
                )
            } else {
                None
            },
            StageConfig::Validate { expected_shape, .. } => if expected_shape@.len() == 0 {
                Some(
                    Refusal::Key("pipeline.stages[validate].expected_shape"@, "must not be empty"@),
                )
            } else if !all_positive(expected_shape@) {
                Some(
                    Refusal::Key(
                        "pipeline.stages[validate].expected_shape"@,
                        "all dimensions must be positive, got "@ + crate::text::integer_text(
                            expected_shape@[first_nonpositive(expected_shape@)] as int,
                        ),
                    ),
                )
            } else {
                None
            },
            StageConfig::Clip { min, max, .. } => if max.spec_le(min) {
                Some(Refusal::Range("pipeline.stages[clip]"@, min, max))
            } else {
                None
            },
            _ => None,
        }
    }
}

/// Why the first refused stage of a list is refused, if one is.
pub open spec fn stages_refusal(stages: Seq<StageConfig>) -> Option<Refusal>
    decreases stages.len(),
{
    if stages.len() == 0 {
        None
    } else if stages[0].refusal() is Some {
        stages[0].refusal()
    } else {
        stages_refusal(stages.skip(1))
    }
}

/// True if every stage of a list has sensible parameters.
pub open spec fn stages_well_formed(stages: Seq<StageConfig>) -> bool {
    forall|i: int| 0 <= i < stages.len() ==> (#[trigger] stages[i]).well_formed()
}

impl Config {
    /// True if every field makes sense.
    pub open spec fn well_formed(self) -> bool {
        &&& self.pipeline.stages@.len() > 0
        &&& self.grpc.port != 0
        &&& self.grpc.stream_poll_interval_ms != 0
        &&& self.grpc.request_timeout_ms != 0
        &&& self.metrics.port != 0
        &&& self.backend.backend_type != BackendType::Triton
        &&& self.store.url@.len() > 0
        &&& self.grpc.session_pool_size != Some(0usize)
        &&& self.store.health_check_interval_secs != Some(0u64)
        &&& self.model_schema.inputs@.len() == 1
        &&& self.model_schema.outputs@.len() > 0
        &&& stages_well_formed(self.pipeline.stages@)
    }

    /// The first reason for which this config is refused, if there is one.
    ///
    /// Server settings come first, then the model schema, then the stages in
    /// the order of the pipeline.
    pub open spec fn refusal(self) -> Option<Refusal> {
        if self.pipeline.stages@.len() == 0 {
            Some(Refusal::Key("pipeline.stages"@, "must have at least one stage"@))
        } else if self.grpc.port == 0 {
            Some(Refusal::Key("grpc.port"@, "must not be 0"@))
        } else if self.grpc.stream_poll_interval_ms == 0 {
            Some(Refusal::Key("grpc.stream_poll_interval_ms"@, "must not be 0"@))
        } else if self.grpc.request_timeout_ms == 0 {
            Some(Refusal::Key("grpc.request_timeout_ms"@, "must not be 0"@))
        } else if self.metrics.port == 0 {
            Some(Refusal::Key("metrics.port"@, "must not be 0"@))
        } else if self.backend.backend_type == BackendType::Triton {
            Some(
                Refusal::Key("backend.type"@, "Triton is not yet implemented; use onnx_runtime"@),
            )
        } else if self.store.url@.len() == 0 {
            Some(Refusal::Key("store.url"@, "must not be empty"@))
        } else if self.grpc.session_pool_size == Some(0usize) {
            Some(
                Refusal::Key(
                    "grpc.session_pool_size"@,
                    "must not be 0; omit the field to use the default"@,
                ),
            )
        } else if self.store.health_check_interval_secs == Some(0u64) {
            Some(
                Refusal::Key(
                    "store.health_check_interval_secs"@,
                    "must not be 0; omit the field to use the default of 10 seconds"@,
                ),
            )
        } else if self.model_schema.inputs@.len() == 0 {
            Some(Refusal::Key("model_schema.inputs"@, "must define at least one tensor"@))
        } else if self.model_schema.inputs@.len() > 1 {
            Some(
                Refusal::Key(
                    "model_schema.inputs"@,
                    "defines "@ + crate::text::natural_text(self.model_schema.inputs@.len())
                        + " tensors; only one input is supported"@,
                ),
            )
        } else if self.model_schema.outputs@.len() == 0 {
            Some(Refusal::Key("model_schema.outputs"@, "must define at least one tensor"@))
        } else {
            stages_refusal(self.pipeline.stages@)
        }
    }

    /// Validates all config fields for semantic correctness.
    ///
    /// Succeeds exactly on the well-formed configs, and otherwise reports the
    /// first fault: the offending key and why it is refused.
    pub fn validate(&self) -> (checked: Result<(), ConfigError>)
        ensures
            checked is Ok <==> self.well_formed(),
            checked is Ok <==> self.refusal() is None,
            checked is Err ==> checked->Err_0 is Invalid,
            checked is Err ==> checked->Err_0.refusal() == self.refusal(),
    {
        proof {
            lemma_stages_refusal(self.pipeline.stages@);
        }
        if self.pipeline.stages.len() == 0 {
            return refuse("pipeline.stages", "must have at least one stage");
        }
        if self.grpc.port == 0 {
            return refuse("grpc.port", "must not be 0");
        }
        if self.grpc.stream_poll_interval_ms == 0 {
            return refuse("grpc.stream_poll_interval_ms", "must not be 0");
        }
        if self.grpc.request_timeout_ms == 0 {
            return refuse("grpc.request_timeout_ms", "must not be 0");
        }
        if self.metrics.port == 0 {
            return refuse("metrics.port", "must not be 0");
        }
        match self.backend.backend_type {
            BackendType::Triton => {
                return refuse("backend.type", "Triton is not yet implemented; use onnx_runtime");
            },
            BackendType::OnnxRuntime => {},
        }
        if self.store.url.as_str().unicode_len() == 0 {
            return refuse("store.url", "must not be empty");
        }
        if let Some(size) = self.grpc.session_pool_size {
            if size == 0 {
                return refuse(
                    "grpc.session_pool_size",
                    "must not be 0; omit the field to use the default",
                );
            }
        }
        if let Some(secs) = self.store.health_check_interval_secs {
            if secs == 0 {
                return refuse(
                    "store.health_check_interval_secs",
                    "must not be 0; omit the field to use the default of 10 seconds",
                );
            }
        }
        if self.model_schema.inputs.len() == 0 {
            return refuse("model_schema.inputs", "must define at least one tensor");
        }
        if self.model_schema.inputs.len() > 1 {
            let mut reason = String::new();
            reason.append("defines ");
            push_size(&mut reason, self.model_schema.inputs.len());
            reason.append(" tensors; only one input is supported");
            assert(reason@ =~= "defines "@ + crate::text::natural_text(
                self.model_schema.inputs@.len(),
            ) + " tensors; only one input is supported"@);
            return refuse("model_schema.inputs", reason.as_str());
        }
        if self.model_schema.outputs.len() == 0 {
            return refuse("model_schema.outputs", "must define at least one tensor");
        }
        let ghost stages = self.pipeline.stages@;
        assert(stages.skip(0) =~= stages);
        let count = self.pipeline.stages.len();
        for i in 0..count
            invariant
                stages == self.pipeline.stages@,
                count == stages.len(),
                stages_refusal(stages) == stages_refusal(stages.skip(i as int)),
                self.refusal() == stages_refusal(stages),
                self.refusal() is None <==> self.well_formed(),
        {
            proof {
                assert(stages.skip(i as int)[0] == stages[i as int]);
                assert(stages.skip(i as int).skip(1) =~= stages.skip(i + 1));
            }
            let checked = validate_stage(&self.pipeline.stages[i]);
            if checked.is_err() {
                return checked;
            }
        }
        Ok(())
    }
}

/// Reports that a key is refused.
fn refuse(field: &'static str, reason: &str) -> (refused: Result<(), ConfigError>)
    ensures
        refused is Err,
        refused->Err_0 is Invalid,
        refused->Err_0.refusal() == Some(Refusal::Key(field@, reason@)),
{
    Err(ConfigError::Invalid { field, reason: Reason::Text(reason.to_owned()) })
}

/// Validates the parameters of one stage.
fn validate_stage(stage: &StageConfig) -> (checked: Result<(), ConfigError>)
    ensures
        checked is Ok <==> stage.refusal() is None,
        checked is Err ==> checked->Err_0 is Invalid,
        checked is Err ==> checked->Err_0.refusal() == stage.refusal(),
{
    match stage {
        StageConfig::Normalize { std, .. } => {
            if std.is_zero() {
                return refuse("pipeline.stages[normalize].std", "must not be 0 (division by zero)");
            }
        },
        StageConfig::Validate { expected_shape, .. } => {
            if expected_shape.len() == 0 {
                return refuse("pipeline.stages[validate].expected_shape", "must not be empty");
            }
            if let Some(dim) = nonpositive_dimension(expected_shape) {
                let mut reason = String::new();
                reason.append("all dimensions must be positive, got ");
                push_integer(&mut reason, dim);
                assert(reason@ =~= "all dimensions must be positive, got "@
                    + crate::text::integer_text(dim as int));
                return refuse("pipeline.stages[validate].expected_shape", reason.as_str());
            }
        },
        StageConfig::Clip { min, max, .. } => {
            if max.le(*min) {
                return Err(
                    ConfigError::Invalid {
                        field: "pipeline.stages[clip]",
                        reason: Reason::EmptyRange { min: *min, max: *max },
                    },
                );
            }
        },
        _ => {},
    }
    Ok(())
}

/// The first dimension that is not positive, if there is one.
pub(crate) fn nonpositive_dimension(shape: &Vec<i64>) -> (dim: Option<i64>)
    ensures
        dim is None <==> all_positive(shape@),
        dim is Some ==> 0 <= first_nonpositive(shape@) < shape@.len() && dim->Some_0
            == shape@[first_nonpositive(shape@)],
{
    let count = shape.len();
    assert(shape@.skip(0) =~= shape@);
    for i in 0..count
        invariant
            count == shape@.len(),
            forall|j: int| 0 <= j < i ==> #[trigger] shape@[j] > 0,
            first_nonpositive(shape@) == i + first_nonpositive(shape@.skip(i as int)),
    {
        assert(shape@.skip(i as int)[0] == shape@[i as int]);
        assert(shape@.skip(i as int).skip(1) =~= shape@.skip(i + 1));
        if shape[i] <= 0 {
            return Some(shape[i]);
        }
    }
    None
}

/// The first dimension that is not positive is found.
pub(crate) proof fn lemma_first_nonpositive(shape: Seq<i64>, i: int)
    requires
        0 <= i < shape.len(),
        shape[i] <= 0,
        forall|j: int| 0 <= j < i ==> #[trigger] shape[j] > 0,
    ensures
        first_nonpositive(shape) == i,
    decreases shape.len(),
{
    if i > 0 {
        let rest = shape.skip(1);
        assert(shape[0] > 0);
        assert(rest[i - 1] == shape[i]);
        assert forall|j: int| 0 <= j < i - 1 implies #[trigger] rest[j] > 0 by {
            assert(rest[j] == shape[j + 1]);
        }
        lemma_first_nonpositive(rest, i - 1);
    }
}

/// A stage is refused exactly if its parameters make no sense.
pub proof fn lemma_stage_refusal(stage: StageConfig)
    ensures
        stage.refusal() is None <==> stage.well_formed(),
{
}

/// A list of stages is refused exactly if the parameters of one make no sense.
pub proof fn lemma_stages_refusal(stages: Seq<StageConfig>)
    ensures
        stages_refusal(stages) is None <==> stages_well_formed(stages),
    decreases stages.len(),
{
    if stages.len() > 0 {
        lemma_stage_refusal(stages[0]);
        let rest = stages.skip(1);
        lemma_stages_refusal(rest);
        assert(forall|i: int| 0 <= i < rest.len() ==> #[trigger] rest[i] == stages[i + 1]);
        if stages[0].well_formed() && stages_well_formed(rest) {
            assert forall|i: int| 0 <= i < stages.len() implies (#[trigger] stages[i]).well_formed() by {
                if i > 0 {
                    assert(rest[i - 1] == stages[i]);
                }
            }
        }
        if stages_well_formed(stages) {
            assert forall|i: int| 0 <= i < rest.len() implies (#[trigger] rest[i]).well_formed() by {
                assert(rest[i] == stages[i + 1]);
            }
        }
    }
}

/// Law: the words of a config file, and what each of them selects.
pub proof fn law_words()
    ensures
        DeviceConfig::Cpu.word() == "cpu"@,
        DeviceConfig::CoreMl.word() == "coreml"@,
        DeviceConfig::Cuda.word() == "cuda"@,
        DeviceConfig::TensorRt.word() == "tensorrt"@,
        BackendType::OnnxRuntime.word() == "onnx_runtime"@,
        BackendType::Triton.word() == "triton"@,
        StoreType::Redis.word() == "redis"@,
        RegistryType::Mlflow.word() == "mlflow"@,
        OutputType::Binary.word() == "binary"@,
        OutputType::Probability.word() == "probability"@,
        OutputType::Raw.word() == "raw"@,
        FreshnessAction::Flag.word() == "flag"@,
        FreshnessAction::Reject.word() == "reject"@,
{
}

/// Law: no two devices, output types, backends or actions have the same word, so
/// a word selects at most one.
pub proof fn law_words_differ(
    devices: (DeviceConfig, DeviceConfig),
    outputs: (OutputType, OutputType),
    backends: (BackendType, BackendType),
    actions: (FreshnessAction, FreshnessAction),
)
    ensures
        devices.0.word() == devices.1.word() ==> devices.0 == devices.1,
        outputs.0.word() == outputs.1.word() ==> outputs.0 == outputs.1,
        backends.0.word() == backends.1.word() ==> backends.0 == backends.1,
        actions.0.word() == actions.1.word() ==> actions.0 == actions.1,
{
    reveal_strlit("cpu");
    reveal_strlit("coreml");
    reveal_strlit("cuda");
    reveal_strlit("tensorrt");
    reveal_strlit("binary");
    reveal_strlit("probability");
    reveal_strlit("raw");
    reveal_strlit("onnx_runtime");
    reveal_strlit("triton");
    reveal_strlit("flag");
    reveal_strlit("reject");
    assert("cpu"@.len() == 3 && "coreml"@.len() == 6 && "cuda"@.len() == 4 && "tensorrt"@.len()
        == 8);
    assert("binary"@.len() == 6 && "probability"@.len() == 11 && "raw"@.len() == 3);
    assert("onnx_runtime"@.len() == 12 && "triton"@.len() == 6);
    assert("flag"@.len() == 4 && "reject"@.len() == 6);
}

/// Law: an error reports the key and the reason that it carries, and an error
/// that is not about a key reports none.
pub proof fn law_error_reports_its_key(
    field: &'static str,
    text: String,
    min: F32,
    max: F32,
    cause: String,
)
    ensures
        (ConfigError::Invalid { field, reason: Reason::Text(text) }).refusal() == Some(
            Refusal::Key(field@, text@),
        ),
        (ConfigError::Invalid { field, reason: Reason::EmptyRange { min, max } }).refusal() == Some(
            Refusal::Range(field@, min, max),
        ),
        ConfigError::Io(cause).refusal() is None,
        ConfigError::Parse(cause).refusal() is None,
{
}

/// Law: a stage is refused exactly for a standard deviation of zero, for a shape
/// without dimensions or with one that is not positive, and for a lower bound
/// that reaches the upper one; the refusal names the key, and the first
/// dimension at fault or the bounds.
pub proof fn law_what_stage_is_refused(stage: StageConfig)
    ensures
        stage.well_formed() <==> stage.refusal() is None,
        match stage {
            StageConfig::Normalize { std, .. } => stage.refusal() == (if std.units() == 0 {
                Some(
                    Refusal::Key(
                        "pipeline.stages[normalize].std"@,
                        "must not be 0 (division by zero)"@,
                    ),
                )
            } else {
                None
            }),
            StageConfig::Validate { expected_shape, .. } => {
                let shape = expected_shape@;
                let key = "pipeline.stages[validate].expected_shape"@;
                &&& stage.refusal() is None <==> shape.len() > 0 && (forall|i: int|
                    0 <= i < shape.len() ==> #[trigger] shape[i] > 0)
                &&& shape.len() == 0 ==> stage.refusal() == Some(
                    Refusal::Key(key, "must not be empty"@),
                )
                &&& forall|i: int|
                    0 <= i < shape.len() && #[trigger] shape[i] <= 0 && (forall|j: int|
                        0 <= j < i ==> #[trigger] shape[j] > 0) ==> stage.refusal() == Some(
                        Refusal::Key(
                            key,
                            "all dimensions must be positive, got "@ + crate::text::integer_text(
                                shape[i] as int,
                            ),
                        ),
                    )
            },
            StageConfig::Clip { min, max, .. } => stage.refusal() == (if max.spec_le(min) {
                Some(Refusal::Range("pipeline.stages[clip]"@, min, max))
            } else {
                None
            }),
            _ => stage.refusal() is None,
        },
{
    match stage {
        StageConfig::Validate { expected_shape, .. } => {
            let shape = expected_shape@;
            let key = "pipeline.stages[validate].expected_shape"@;
            assert forall|i: int|
                0 <= i < shape.len() && #[trigger] shape[i] <= 0 && (forall|j: int|
                    0 <= j < i ==> #[trigger] shape[j] > 0) implies stage.refusal() == Some(
                Refusal::Key(
                    key,
                    "all dimensions must be positive, got "@ + crate::text::integer_text(
                        shape[i] as int,
                    ),
                ),
            ) by {
                lemma_first_nonpositive(shape, i);
            }
        },
        _ => {},
    }
}

/// Law: the first refused stage of a list decides, and a list without one is not
/// refused.
pub proof fn law_first_refused_stage_decides(stages: Seq<StageConfig>, k: int)
    requires
        0 <= k <= stages.len(),
        forall|j: int| 0 <= j < k ==> (#[trigger] stages[j]).refusal() is None,
        k < stages.len() ==> stages[k].refusal() is Some,
    ensures
        stages_refusal(stages) == (if k < stages.len() {
            stages[k].refusal()
        } else {
            None
        }),
    decreases stages.len(),
{
    if k > 0 {
        let rest = stages.skip(1);
        assert(stages[0].refusal() is None);
        assert forall|j: int| 0 <= j < k - 1 implies (#[trigger] rest[j]).refusal() is None by {
            assert(rest[j] == stages[j + 1]);
        }
        if k < stages.len() {
            assert(rest[k - 1] == stages[k]);
        }
        law_first_refused_stage_decides(rest, k - 1);
    }
}

/// Law: a config is accepted exactly if it has a stage, no port, interval or
/// timeout of zero, a backend that is implemented, an address of the store, no
/// pool size or check interval of zero, one input, an output, and no stage that
/// is refused.
pub proof fn law_what_config_is_accepted(config: Config)
    ensures
        config.well_formed() <==> config.refusal() is None,
        config.refusal() is None <==> {
            &&& config.pipeline.stages@.len() > 0
            &&& config.grpc.port > 0
            &&& config.grpc.stream_poll_interval_ms > 0
            &&& config.grpc.request_timeout_ms > 0
            &&& config.metrics.port > 0
            &&& config.backend.backend_type is OnnxRuntime
            &&& config.store.url@.len() > 0
            &&& (config.grpc.session_pool_size matches Some(size) ==> size > 0)
            &&& (config.store.health_check_interval_secs matches Some(secs) ==> secs > 0)
            &&& config.model_schema.inputs@.len() == 1
            &&& config.model_schema.outputs@.len() > 0
            &&& forall|i: int|
                0 <= i < config.pipeline.stages@.len()
                    ==> (#[trigger] config.pipeline.stages@[i]).refusal() is None
        },
{
    let stages = config.pipeline.stages@;
    lemma_stages_refusal(stages);
    assert forall|i: int| 0 <= i < stages.len() implies ((#[trigger] stages[i]).refusal() is None)
        == stages[i].well_formed() by {
        lemma_stage_refusal(stages[i]);
    }
    if stages_refusal(stages) is None {
        assert forall|i: int| 0 <= i < stages.len() implies (
        #[trigger] stages[i]).refusal() is None by {
            assert(stages[i].well_formed());
        }
    }
}

/// Law: the first of these faults is the one that is reported, with its key.
pub proof fn law_first_fault_of_config_is_reported(config: Config)
    ensures
        ({
            let no_stage = config.pipeline.stages@.len() == 0;
            let no_port = config.grpc.port == 0;
            let no_interval = config.grpc.stream_poll_interval_ms == 0;
            let no_timeout = config.grpc.request_timeout_ms == 0;
            let no_metrics = config.metrics.port == 0;
            let triton = config.backend.backend_type is Triton;
            let no_url = config.store.url@.len() == 0;
            let no_pool = config.grpc.session_pool_size matches Some(size) && size == 0;
            let no_check = config.store.health_check_interval_secs matches Some(secs) && secs == 0;
            let inputs = config.model_schema.inputs@.len();
            let no_output = config.model_schema.outputs@.len() == 0;
            let server = !no_stage && !no_port && !no_interval && !no_timeout && !no_metrics;
            let model = server && !triton && !no_url && !no_pool && !no_check;
            &&& no_stage ==> config.refusal() == Some(
                Refusal::Key("pipeline.stages"@, "must have at least one stage"@),
            )
            &&& !no_stage && no_port ==> config.refusal() == Some(
                Refusal::Key("grpc.port"@, "must not be 0"@),
            )
            &&& !no_stage && !no_port && no_interval ==> config.refusal() == Some(
                Refusal::Key("grpc.stream_poll_interval_ms"@, "must not be 0"@),
            )
            &&& !no_stage && !no_port && !no_interval && no_timeout ==> config.refusal() == Some(
                Refusal::Key("grpc.request_timeout_ms"@, "must not be 0"@),
            )
            &&& !no_stage && !no_port && !no_interval && !no_timeout && no_metrics
                ==> config.refusal() == Some(Refusal::Key("metrics.port"@, "must not be 0"@))
            &&& server && triton ==> config.refusal() == Some(
                Refusal::Key("backend.type"@, "Triton is not yet implemented; use onnx_runtime"@),
            )
            &&& server && !triton && no_url ==> config.refusal() == Some(
                Refusal::Key("store.url"@, "must not be empty"@),
            )
            &&& server && !triton && !no_url && no_pool ==> config.refusal() == Some(
                Refusal::Key(
                    "grpc.session_pool_size"@,
                    "must not be 0; omit the field to use the default"@,
                ),
            )
            &&& server && !triton && !no_url && !no_pool && no_check ==> config.refusal() == Some(
                Refusal::Key(
                    "store.health_check_interval_secs"@,
                    "must not be 0; omit the field to use the default of 10 seconds"@,
                ),
            )
            &&& model && inputs == 0 ==> config.refusal() == Some(
                Refusal::Key("model_schema.inputs"@, "must define at least one tensor"@),
            )
            &&& model && inputs > 1 ==> config.refusal() == Some(
                Refusal::Key(
                    "model_schema.inputs"@,
                    "defines "@ + crate::text::natural_text(inputs)
                        + " tensors; only one input is supported"@,
                ),
            )
            &&& model && inputs == 1 && no_output ==> config.refusal() == Some(
                Refusal::Key("model_schema.outputs"@, "must define at least one tensor"@),
            )
            &&& model && inputs == 1 && !no_output ==> config.refusal() == stages_refusal(
                config.pipeline.stages@,
            )
        }),
{
}

} // verus!
