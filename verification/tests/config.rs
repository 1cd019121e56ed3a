use axon::config::{
    BackendConfig, BackendType, Config, DeviceConfig, FreshnessAction, GrpcConfig, MetricsConfig,
    ModelSchemaConfig, OutputType, PipelineConfig, RegistryConfig, RegistryType, StageConfig,
    StageObservability, StoreConfig, StoreType, TensorSpec,
};
use axon::error::{ConfigError, Reason};
use axon::numeric::F32;

fn f(value: f32) -> F32 {
    F32::from_bits(value.to_bits())
}

fn obs() -> StageObservability {
    StageObservability { timed: None, instrumented: None, retries: None, deadline_ms: None }
}

fn valid_config() -> Config {
    Config {
        grpc: GrpcConfig {
            host: "0.0.0.0".to_owned(),
            port: 50051,
            stream_poll_interval_ms: 100,
            request_timeout_ms: 5000,
            pool_size: None,
            session_pool_size: None,
        },
        backend: BackendConfig {
            backend_type: BackendType::OnnxRuntime,
            device: DeviceConfig::Cpu,
        },
        registry: RegistryConfig {
            registry_type: RegistryType::Mlflow,
            uri: "http://localhost:5000".to_owned(),
            model_name: "model".to_owned(),
            model_version: "1".to_owned(),
        },
        store: StoreConfig {
            store_type: StoreType::Redis,
            url: "redis://localhost:6379".to_owned(),
            key_prefix: None,
            health_check_interval_secs: None,
        },
        freshness: None,
        predictions: None,
        metrics: MetricsConfig { port: 9090 },
        model_schema: ModelSchemaConfig {
            inputs: vec![TensorSpec {
                name: "input".to_owned(),
                dtype: "float32".to_owned(),
                shape: vec![1, 10],
            }],
            outputs: vec![TensorSpec {
                name: "output".to_owned(),
                dtype: "float32".to_owned(),
                shape: vec![1, 1],
            }],
            schema_version: None,
        },
        pipeline: PipelineConfig { stages: vec![StageConfig::Infer { observability: obs() }] },
    }
}

fn refusal(config: &Config) -> (String, String) {
    match config.validate() {
        Err(ConfigError::Invalid { field, reason: Reason::Text(reason) }) => {
            (field.to_owned(), reason)
        }
        other => panic!("expected a refused key, got {other:?}"),
    }
}

fn expect(config: &Config, field: &str, reason: &str) {
    assert_eq!(refusal(config), (field.to_owned(), reason.to_owned()));
}

#[test]
fn valid_config_passes() {
    assert!(valid_config().validate().is_ok());
}

#[test]
fn rejects_empty_pipeline() {
    let mut cfg = valid_config();
    cfg.pipeline.stages.clear();
    assert!(cfg.validate().is_err());
    expect(&cfg, "pipeline.stages", "must have at least one stage");
}

#[test]
fn rejects_zero_grpc_port() {
    let mut cfg = valid_config();
    cfg.grpc.port = 0;
    assert!(cfg.validate().is_err());
    expect(&cfg, "grpc.port", "must not be 0");
}

#[test]
fn rejects_zero_stream_poll_interval() {
    let mut cfg = valid_config();
    cfg.grpc.stream_poll_interval_ms = 0;
    assert!(cfg.validate().is_err());
    expect(&cfg, "grpc.stream_poll_interval_ms", "must not be 0");
}

#[test]
fn rejects_zero_request_timeout() {
    let mut cfg = valid_config();
    cfg.grpc.request_timeout_ms = 0;
    assert!(cfg.validate().is_err());
    expect(&cfg, "grpc.request_timeout_ms", "must not be 0");
}

#[test]
fn rejects_zero_metrics_port() {
    let mut cfg = valid_config();
    cfg.metrics.port = 0;
    assert!(cfg.validate().is_err());
    expect(&cfg, "metrics.port", "must not be 0");
}

#[test]
fn rejects_triton_backend() {
    let mut cfg = valid_config();
    cfg.backend.backend_type = BackendType::Triton;
    assert!(cfg.validate().is_err());
    expect(&cfg, "backend.type", "Triton is not yet implemented; use onnx_runtime");
}

#[test]
fn rejects_empty_store_url() {
    let mut cfg = valid_config();
    cfg.store.url.clear();
    assert!(cfg.validate().is_err());
    expect(&cfg, "store.url", "must not be empty");
}

#[test]
fn rejects_zero_session_pool_size() {
    let mut cfg = valid_config();
    cfg.grpc.session_pool_size = Some(0);
    assert!(cfg.validate().is_err());
    expect(
        &cfg,
        "grpc.session_pool_size",
        "must not be 0; omit the field to use the default",
    );
}

#[test]
fn accepts_explicit_session_pool_size() {
    let mut cfg = valid_config();
    cfg.grpc.session_pool_size = Some(4);
    assert!(cfg.validate().is_ok());
}

#[test]
fn rejects_zero_health_check_interval() {
    let mut cfg = valid_config();
    cfg.store.health_check_interval_secs = Some(0);
    assert!(cfg.validate().is_err());
    expect(
        &cfg,
        "store.health_check_interval_secs",
        "must not be 0; omit the field to use the default of 10 seconds",
    );
}

#[test]
fn accepts_explicit_health_check_interval() {
    let mut cfg = valid_config();
    cfg.store.health_check_interval_secs = Some(30);
    assert!(cfg.validate().is_ok());
}

#[test]
fn rejects_no_inputs() {
    let mut cfg = valid_config();
    cfg.model_schema.inputs.clear();
    assert!(cfg.validate().is_err());
    expect(&cfg, "model_schema.inputs", "must define at least one tensor");
}

#[test]
fn rejects_multiple_inputs() {
    let mut cfg = valid_config();
    cfg.model_schema.inputs.push(TensorSpec {
        name: "input2".to_owned(),
        dtype: "float32".to_owned(),
        shape: vec![1, 5],
    });
    assert!(cfg.validate().is_err());
    expect(
        &cfg,
        "model_schema.inputs",
        "defines 2 tensors; only one input is supported",
    );
}

#[test]
fn rejects_no_outputs() {
    let mut cfg = valid_config();
    cfg.model_schema.outputs.clear();
    assert!(cfg.validate().is_err());
    expect(&cfg, "model_schema.outputs", "must define at least one tensor");
}

#[test]
fn rejects_normalize_zero_std() {
    let mut cfg = valid_config();
    cfg.pipeline.stages =
        vec![StageConfig::Normalize { mean: f(0.0), std: f(0.0), observability: obs() }];
    assert!(cfg.validate().is_err());
    expect(
        &cfg,
        "pipeline.stages[normalize].std",
        "must not be 0 (division by zero)",
    );
}

#[test]
fn rejects_normalize_negative_zero_std() {
    let mut cfg = valid_config();
    cfg.pipeline.stages =
        vec![StageConfig::Normalize { mean: f(0.0), std: f(-0.0), observability: obs() }];
    assert!(cfg.validate().is_err());
}

#[test]
fn accepts_normalize_nonzero_std() {
    let mut cfg = valid_config();
    cfg.pipeline.stages = vec![
        StageConfig::Normalize { mean: f(0.5), std: f(1.5), observability: obs() },
        StageConfig::Infer { observability: obs() },
    ];
    assert!(cfg.validate().is_ok());
}

#[test]
fn rejects_clip_min_ge_max() {
    let mut cfg = valid_config();
    cfg.pipeline.stages = vec![
        StageConfig::Clip { min: f(1.0), max: f(1.0), observability: obs() },
        StageConfig::Infer { observability: obs() },
    ];
    assert!(cfg.validate().is_err());
    match cfg.validate() {
        Err(error) => {
            assert!(matches!(
                error,
                ConfigError::Invalid {
                    field: "pipeline.stages[clip]",
                    reason: Reason::EmptyRange { min, max },
                } if min.to_bits() == 1.0f32.to_bits() && max.to_bits() == 1.0f32.to_bits()
            ));
            assert_eq!(
                error.message("1", "1"),
                "invalid config \u{2014} pipeline.stages[clip]: min (1) must be less than max (1)"
            );
        }
        Ok(()) => panic!("accepted an empty range"),
    }
}

#[test]
fn accepts_clip_valid_range() {
    let mut cfg = valid_config();
    cfg.pipeline.stages = vec![
        StageConfig::Clip { min: f(-1.0), max: f(1.0), observability: obs() },
        StageConfig::Infer { observability: obs() },
    ];
    assert!(cfg.validate().is_ok());
}

#[test]
fn clip_bound_that_is_nan_is_not_compared() {
    let mut cfg = valid_config();
    cfg.pipeline.stages =
        vec![StageConfig::Clip { min: f(f32::NAN), max: f(1.0), observability: obs() }];
    assert!(cfg.validate().is_ok());
}

#[test]
fn rejects_validate_without_dimensions() {
    let mut cfg = valid_config();
    cfg.pipeline.stages =
        vec![StageConfig::Validate { expected_shape: vec![], observability: obs() }];
    expect(&cfg, "pipeline.stages[validate].expected_shape", "must not be empty");
}

#[test]
fn rejects_first_dimension_that_is_not_positive() {
    let mut cfg = valid_config();
    cfg.pipeline.stages =
        vec![StageConfig::Validate { expected_shape: vec![1, -32, 0], observability: obs() }];
    expect(
        &cfg,
        "pipeline.stages[validate].expected_shape",
        "all dimensions must be positive, got -32",
    );
}

#[test]
fn first_fault_wins() {
    let mut cfg = valid_config();
    cfg.grpc.port = 0;
    cfg.metrics.port = 0;
    cfg.store.url.clear();
    expect(&cfg, "grpc.port", "must not be 0");
    cfg.grpc.port = 1;
    expect(&cfg, "metrics.port", "must not be 0");
    cfg.metrics.port = 1;
    expect(&cfg, "store.url", "must not be empty");
}

#[test]
fn first_refused_stage_wins() {
    let mut cfg = valid_config();
    cfg.pipeline.stages = vec![
        StageConfig::Impute { default_value: f(0.0), observability: obs() },
        StageConfig::Normalize { mean: f(0.0), std: f(0.0), observability: obs() },
        StageConfig::Validate { expected_shape: vec![], observability: obs() },
    ];
    expect(
        &cfg,
        "pipeline.stages[normalize].std",
        "must not be 0 (division by zero)",
    );
}

fn device_of(table: &toml::Table) -> Option<DeviceConfig> {
    match table.get("device") {
        Some(value) => DeviceConfig::from_word(value.as_str().unwrap()),
        None => Some(DeviceConfig::default()),
    }
}

fn parsed(text: &str) -> toml::Table {
    text.parse().unwrap()
}

#[test]
fn device_defaults_to_cpu_when_omitted() {
    let text = r#"
        [grpc]
        host = "0.0.0.0"
        port = 50051
        stream_poll_interval_ms = 100
        request_timeout_ms = 5000

        [backend]
        type = "onnx_runtime"

        [registry]
        type = "mlflow"
        uri = "http://localhost:5000"
        model_name = "m"
        model_version = "1"

        [store]
        type = "redis"
        url = "redis://localhost:6379"

        [metrics]
        port = 9090

        [[model_schema.inputs]]
        name = "x"
        dtype = "float32"
        shape = [1, 4]

        [[model_schema.outputs]]
        name = "y"
        dtype = "float32"
        shape = [1, 1]

        [[pipeline.stages]]
        type = "infer"
    "#;
    let table = parsed(text);
    let backend = table["backend"].as_table().unwrap();
    assert!(matches!(device_of(backend), Some(DeviceConfig::Cpu)));
}

#[test]
fn device_cpu_parses() {
    let text = r#"type = "onnx_runtime"
device = "cpu""#;
    assert!(matches!(device_of(&parsed(text)), Some(DeviceConfig::Cpu)));
}

#[test]
fn device_coreml_parses() {
    let text = r#"type = "onnx_runtime"
device = "coreml""#;
    assert!(matches!(device_of(&parsed(text)), Some(DeviceConfig::CoreMl)));
}

#[test]
fn device_cuda_parses() {
    let text = r#"type = "onnx_runtime"
device = "cuda""#;
    assert!(matches!(device_of(&parsed(text)), Some(DeviceConfig::Cuda)));
}

#[test]
fn device_tensorrt_parses() {
    let text = r#"type = "onnx_runtime"
device = "tensorrt""#;
    assert!(matches!(device_of(&parsed(text)), Some(DeviceConfig::TensorRt)));
}

#[test]
fn device_unknown_value_rejected() {
    let text = r#"type = "onnx_runtime"
device = "vulkan""#;
    assert!(device_of(&parsed(text)).is_none());
}

#[test]
fn words_select_settings() {
    assert_eq!(BackendType::from_word("onnx_runtime"), Some(BackendType::OnnxRuntime));
    assert_eq!(BackendType::from_word("triton"), Some(BackendType::Triton));
    assert_eq!(BackendType::from_word("onnx"), None);
    assert_eq!(StoreType::from_word("redis"), Some(StoreType::Redis));
    assert_eq!(StoreType::from_word("Redis"), None);
    assert_eq!(RegistryType::from_word("mlflow"), Some(RegistryType::Mlflow));
    assert_eq!(RegistryType::from_word(""), None);
    assert_eq!(OutputType::from_word("binary"), Some(OutputType::Binary));
    assert_eq!(OutputType::from_word("probability"), Some(OutputType::Probability));
    assert_eq!(OutputType::from_word("raw"), Some(OutputType::Raw));
    assert_eq!(OutputType::from_word("logits"), None);
    assert_eq!(FreshnessAction::from_word("flag"), Some(FreshnessAction::Flag));
    assert_eq!(FreshnessAction::from_word("reject"), Some(FreshnessAction::Reject));
    assert_eq!(FreshnessAction::from_word("warn"), None);
}
