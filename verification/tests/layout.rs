use std::sync::Arc;

use axon::backend::Backend;
use axon::config::{
    BackendConfig, BackendType, Config, DeviceConfig, GrpcConfig, MetricsConfig,
    ModelSchemaConfig, OutputType, PipelineConfig, RegistryConfig, RegistryType, StageConfig,
    StageObservability, StoreConfig, StoreType, TensorSpec,
};
use axon::error::BackendError;
use axon::numeric::F32;
use axon::pipeline::build::{
    build, build_scratchpad, can_build_scratchpad, to_axes, validate_ordering, BuildError, Layer,
    PlannedStage,
};
use axon::types::{NamedTensorRef, OutputBuffer};

fn f(value: f32) -> F32 {
    F32::from_bits(value.to_bits())
}

fn obs() -> StageObservability {
    StageObservability { timed: None, instrumented: None, retries: None, deadline_ms: None }
}

fn infer() -> StageConfig {
    StageConfig::Infer { observability: obs() }
}

fn impute() -> StageConfig {
    StageConfig::Impute { default_value: f(0.0), observability: obs() }
}

fn validate(expected_shape: Vec<i64>) -> StageConfig {
    StageConfig::Validate { expected_shape, observability: obs() }
}

fn clip(min: f32, max: f32) -> StageConfig {
    StageConfig::Clip { min: f(min), max: f(max), observability: obs() }
}

fn normalize(mean: f32, std: f32) -> StageConfig {
    StageConfig::Normalize { mean: f(mean), std: f(std), observability: obs() }
}

fn postprocess() -> StageConfig {
    StageConfig::Postprocess {
        threshold: f(0.5),
        output_type: OutputType::Binary,
        observability: obs(),
    }
}

fn spec(name: &str, shape: Vec<i64>) -> TensorSpec {
    TensorSpec { name: name.to_owned(), dtype: "float32".to_owned(), shape }
}

fn config(stages: Vec<StageConfig>) -> Config {
    Config {
        grpc: GrpcConfig {
            host: "0.0.0.0".to_owned(),
            port: 50051,
            stream_poll_interval_ms: 1,
            request_timeout_ms: 5000,
            pool_size: None,
            session_pool_size: None,
        },
        backend: BackendConfig {
            backend_type: BackendType::OnnxRuntime,
            device: DeviceConfig::Cpu,
        },
        registry: RegistryConfig {
            registry_type: RegistryType::Mlflow,
            uri: "http://localhost:5000".to_owned(),
            model_name: "m".to_owned(),
            model_version: "1".to_owned(),
        },
        store: StoreConfig {
            store_type: StoreType::Redis,
            url: "redis://localhost:6379".to_owned(),
            key_prefix: None,
            health_check_interval_secs: None,
        },
        freshness: None,
        predictions: None,
        metrics: MetricsConfig { port: 9090 },
        model_schema: ModelSchemaConfig {
            inputs: vec![spec("features", vec![1, 2])],
            outputs: vec![spec("score", vec![1, 1])],
            schema_version: None,
        },
        pipeline: PipelineConfig { stages },
    }
}

#[test]
fn order_needs_inference() {
    assert!(matches!(validate_ordering(&vec![]), Err(BuildError::NoInferStage)));
    assert!(matches!(
        validate_ordering(&vec![impute(), postprocess()]),
        Err(BuildError::NoInferStage)
    ));
    assert!(validate_ordering(&vec![infer()]).is_ok());
}

#[test]
fn postprocess_comes_after_inference() {
    assert!(matches!(
        validate_ordering(&vec![postprocess(), infer()]),
        Err(BuildError::PostprocessBeforeInfer)
    ));
    assert!(validate_ordering(&vec![infer(), postprocess()]).is_ok());
    assert!(validate_ordering(&vec![infer(), postprocess(), infer()]).is_ok());
}

#[test]
fn impute_comes_before_validate() {
    assert!(matches!(
        validate_ordering(&vec![validate(vec![1]), impute(), infer()]),
        Err(BuildError::ImputeAfterValidate)
    ));
    assert!(validate_ordering(&vec![impute(), validate(vec![1]), infer()]).is_ok());
    // Only the first stage of either kind is compared.
    assert!(validate_ordering(&vec![impute(), validate(vec![1]), impute(), infer()]).is_ok());
}

#[test]
fn faults_of_order_are_found_in_order() {
    assert!(matches!(
        validate_ordering(&vec![validate(vec![1]), impute(), postprocess(), infer()]),
        Err(BuildError::PostprocessBeforeInfer)
    ));
}

#[test]
fn plan_follows_the_config() {
    let cfg = config(vec![
        impute(),
        validate(vec![1, 2]),
        clip(-3.0, 3.0),
        normalize(0.5, 4.0),
        infer(),
        postprocess(),
    ]);
    let plan = build(&cfg).unwrap();
    let labels: Vec<&str> = plan.iter().map(|p| p.label).collect();
    assert_eq!(labels, ["impute", "validate", "clip", "normalize", "infer", "postprocess"]);
    assert!(plan.iter().all(|p| p.layers.is_empty()));
    assert!(matches!(&plan[0].stage, PlannedStage::Impute(s) if s.default_value == f(0.0)));
    assert!(matches!(&plan[1].stage, PlannedStage::Validate(s) if s.expected_shape == vec![1, 2]));
    assert!(
        matches!(&plan[2].stage, PlannedStage::Clip(s) if s.min == f(-3.0) && s.max == f(3.0))
    );
    assert!(
        matches!(&plan[3].stage, PlannedStage::Normalize(s) if s.mean == f(0.5) && s.inv_std == f(0.25))
    );
    assert!(matches!(&plan[4].stage, PlannedStage::Infer(name) if name.as_str() == "features"));
    assert!(matches!(
        &plan[5].stage,
        PlannedStage::Postprocess(s)
            if s.threshold == f(0.5) && s.output_type == OutputType::Binary
    ));
}

#[test]
fn layers_go_from_retry_to_timing() {
    let all = StageObservability {
        timed: Some(true),
        instrumented: Some(true),
        retries: Some(3),
        deadline_ms: Some(50),
    };
    let none = StageObservability {
        timed: Some(false),
        instrumented: Some(false),
        retries: None,
        deadline_ms: None,
    };
    let cfg = config(vec![
        StageConfig::Infer { observability: all },
        StageConfig::Infer { observability: none },
    ]);
    let plan = build(&cfg).unwrap();
    assert_eq!(
        plan[0].layers,
        vec![Layer::Retry(3), Layer::Instrumented, Layer::Deadline(50), Layer::Timed]
    );
    assert_eq!(plan[1].layers, vec![]);
}

#[test]
fn first_stage_that_cannot_be_built_is_reported() {
    assert!(matches!(
        build(&config(vec![clip(2.0, 1.0), validate(vec![]), infer()])),
        Err(BuildError::EmptyRange { min, max }) if min == f(2.0) && max == f(1.0)
    ));
    assert!(matches!(
        build(&config(vec![validate(vec![]), infer()])),
        Err(BuildError::EmptyShape)
    ));
    assert!(matches!(
        build(&config(vec![validate(vec![3, 0]), infer()])),
        Err(BuildError::NonPositiveDimension(0))
    ));
}

#[test]
fn input_name_has_to_fit() {
    let mut cfg = config(vec![infer()]);
    cfg.model_schema.inputs[0].name = "n".repeat(64);
    assert!(build(&cfg).is_ok());
    cfg.model_schema.inputs[0].name = "n".repeat(65);
    assert!(matches!(build(&cfg), Err(BuildError::InputNameTooLong(name)) if name.len() == 65));
    // Names are measured in bytes.
    cfg.model_schema.inputs[0].name = "\u{e9}".repeat(33);
    assert!(matches!(build(&cfg), Err(BuildError::InputNameTooLong(_))));
}

#[test]
fn config_without_inputs_can_be_refused() {
    let mut cfg = config(vec![validate(vec![]), infer()]);
    cfg.model_schema.inputs.clear();
    assert!(matches!(build(&cfg), Err(BuildError::EmptyShape)));
}

#[test]
fn valid_config_in_order_builds() {
    let cfg = config(vec![impute(), validate(vec![1, 2]), clip(-1.0, 1.0), infer()]);
    assert!(cfg.validate().is_ok());
    assert!(build(&cfg).is_ok());
}

#[test]
fn scratchpad_has_declared_shapes() {
    let mut cfg = config(vec![infer()]);
    cfg.model_schema.outputs.push(spec("embedding", vec![2, 3]));
    assert!(can_build_scratchpad(&cfg));
    let pad = build_scratchpad(&cfg).unwrap();
    assert_eq!(pad.input.shape(), vec![1, 2]);
    assert_eq!(pad.input.values(), vec![f(0.0); 2]);
    assert_eq!(pad.outputs.len(), 2);
    assert_eq!(pad.outputs[0].name.as_str(), "score");
    assert_eq!(pad.outputs[1].name.as_str(), "embedding");
    assert_eq!(pad.outputs[1].data.shape(), vec![2, 3]);
    assert_eq!(pad.outputs[1].data.values(), vec![f(0.0); 6]);
    assert_eq!(pad.timestamp_ms, 0);
    assert!(pad.entity_id.is_empty() && pad.request_id.is_empty());
}

#[test]
fn output_name_has_to_fit() {
    let mut cfg = config(vec![infer()]);
    cfg.model_schema.outputs.push(spec(&"o".repeat(65), vec![1]));
    assert!(matches!(
        build_scratchpad(&cfg),
        Err(BuildError::OutputNameTooLong(name)) if name == "o".repeat(65)
    ));
}

#[test]
fn shapes_that_cannot_exist_are_known() {
    let mut cfg = config(vec![infer()]);
    cfg.model_schema.inputs[0].shape = vec![1 << 40, 1 << 40];
    assert!(!can_build_scratchpad(&cfg));
    cfg.model_schema.inputs[0].shape = vec![-1];
    assert!(!can_build_scratchpad(&cfg));
    cfg.model_schema.outputs[0].name = "o".repeat(65);
    assert!(can_build_scratchpad(&cfg));
    assert!(build_scratchpad(&cfg).is_err());
    assert_eq!(to_axes(&vec![1, 28, 28]), vec![1usize, 28, 28]);
}

#[test]
fn reset_leaves_no_trace() {
    let cfg = config(vec![infer()]);
    let mut pad = build_scratchpad(&cfg).unwrap();
    assert!(!pad.validate());
    pad.entity_id.push_str("user_1");
    pad.request_id.push_str("req_1");
    pad.timestamp_ms = 17;
    pad.input.fill(f(2.0));
    pad.outputs[0].data.fill(f(3.0));
    assert!(pad.validate());
    pad.reset();
    let fresh = build_scratchpad(&cfg).unwrap();
    assert_eq!(pad.entity_id, fresh.entity_id);
    assert_eq!(pad.request_id, fresh.request_id);
    assert_eq!(pad.timestamp_ms, fresh.timestamp_ms);
    assert_eq!(pad.input.shape(), fresh.input.shape());
    assert_eq!(pad.input.values(), fresh.input.values());
    assert_eq!(pad.outputs[0].name, fresh.outputs[0].name);
    assert_eq!(pad.outputs[0].data.values(), fresh.outputs[0].data.values());
}

#[test]
fn scratchpad_without_elements_is_not_ready() {
    let mut cfg = config(vec![infer()]);
    cfg.model_schema.inputs[0].shape = vec![0, 5];
    let mut pad = build_scratchpad(&cfg).unwrap();
    pad.entity_id.push_str("user_1");
    assert!(!pad.validate());
}

/// Sums the input into every output.
#[derive(Debug)]
struct SumBackend;

impl Backend for SumBackend {
    fn run(
        &self,
        inputs: &Vec<NamedTensorRef<'_>>,
        outputs: &mut Vec<OutputBuffer>,
    ) -> Result<(), BackendError> {
        let sum: f32 = inputs[0].data.values().iter().map(|v| f32::from_bits(v.to_bits())).sum();
        for out in outputs.iter_mut() {
            out.data.fill(f(sum));
        }
        Ok(())
    }
}

fn run_all(cfg: &Config, input: &[f32]) -> Result<f32, String> {
    let backend = Arc::new(SumBackend);
    let mut pad = build_scratchpad(cfg).unwrap();
    pad.input.copy_from(&input.iter().map(|v| f(*v)).collect());
    for planned in build(cfg).unwrap().iter_mut() {
        assert!(planned.stage.can_run());
        planned.stage.run(&backend, &mut pad).map_err(|e| format!("{e:?}"))?;
    }
    Ok(f32::from_bits(pad.outputs[0].data.values()[0].to_bits()))
}

#[test]
fn pipeline_runs_end_to_end() {
    let cfg = config(vec![
        impute(),
        validate(vec![1, 2]),
        clip(-3.0, 3.0),
        normalize(1.0, 2.0),
        infer(),
    ]);
    // NaN becomes 0, 9 becomes 3; then (0 - 1) / 2 + (3 - 1) / 2.
    assert_eq!(run_all(&cfg, &[f32::NAN, 9.0]), Ok(0.5));
}

#[test]
fn pipeline_keeps_identity() {
    let cfg = config(vec![impute(), normalize(1.0, 2.0), infer(), postprocess()]);
    let backend = Arc::new(SumBackend);
    let mut pad = build_scratchpad(&cfg).unwrap();
    pad.entity_id.push_str("user_9");
    pad.request_id.push_str("req_9");
    pad.timestamp_ms = 9;
    for planned in build(&cfg).unwrap().iter_mut() {
        planned.stage.run(&backend, &mut pad).unwrap();
    }
    assert_eq!(pad.entity_id.as_str(), "user_9");
    assert_eq!(pad.request_id.as_str(), "req_9");
    assert_eq!(pad.timestamp_ms, 9);
    assert_eq!(pad.input.shape(), vec![1, 2]);
    assert_eq!(pad.outputs[0].name.as_str(), "score");
    assert_eq!(pad.outputs[0].data.shape(), vec![1, 1]);
    assert_eq!(pad.outputs[0].data.len(), 1);
}

#[test]
fn inference_does_not_depend_on_what_the_outputs_held() {
    let cfg = config(vec![infer()]);
    let backend = Arc::new(SumBackend);
    let mut plan = build(&cfg).unwrap();
    let mut pad = build_scratchpad(&cfg).unwrap();
    pad.input.copy_from(&vec![f(0.25), f(0.5)]);
    plan[0].stage.run(&backend, &mut pad).unwrap();
    let first = pad.outputs[0].data.values();
    pad.outputs[0].data.fill(f(-7.0));
    plan[0].stage.run(&backend, &mut pad).unwrap();
    assert_eq!(pad.outputs[0].data.values(), first);
    assert_eq!(first, vec![f(0.75)]);
}

#[test]
fn pipeline_output_changes_with_different_inputs() {
    let cfg = config(vec![infer()]);
    assert_ne!(run_all(&cfg, &[0.0, 0.0]), run_all(&cfg, &[1.0, 1.0]));
}

#[test]
fn pipeline_stops_at_the_first_failure() {
    let cfg = config(vec![validate(vec![1, 2]), infer(), postprocess()]);
    assert!(run_all(&cfg, &[f32::INFINITY, 0.0]).unwrap_err().contains("infinite"));
    assert_eq!(run_all(&cfg, &[0.25, 0.5]), Ok(1.0));
    assert_eq!(run_all(&cfg, &[0.25, 0.0]), Ok(-1.0));
}

#[test]
fn clip_with_nan_bound_cannot_run() {
    let cfg = config(vec![clip(f32::NAN, 1.0), infer()]);
    let plan = build(&cfg).unwrap();
    assert!(!plan[0].stage.can_run());
    assert!(plan[1].stage.can_run());
}

#[test]
fn any_order_is_judged() {
    let kinds = [
        validate(vec![1]),
        normalize(0.0, 1.0),
        clip(0.0, 1.0),
        impute(),
        infer(),
        postprocess(),
    ];
    for a in &kinds {
        for b in &kinds {
            for c in &kinds {
                let stages = vec![a.clone(), b.clone(), c.clone()];
                let position = |wanted: fn(&StageConfig) -> bool| stages.iter().position(wanted);
                let infer = position(|s| matches!(s, StageConfig::Infer { .. }));
                let post = position(|s| matches!(s, StageConfig::Postprocess { .. }));
                let impute = position(|s| matches!(s, StageConfig::Impute { .. }));
                let validate = position(|s| matches!(s, StageConfig::Validate { .. }));
                let fine = match infer {
                    None => false,
                    Some(infer) => {
                        !matches!(post, Some(post) if post < infer)
                            && !matches!((impute, validate), (Some(i), Some(v)) if i > v)
                    }
                };
                assert_eq!(validate_ordering(&stages).is_ok(), fine);
            }
        }
    }
}
