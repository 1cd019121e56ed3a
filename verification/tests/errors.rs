use axon::error::{BackendError, ConfigError, Reason, RegistryError, ServeError, StoreError};
use axon::numeric::F32;
use axon::pipeline::build::BuildError;
use axon::predictions::PredictionsError;

#[test]
fn config_invalid_includes_field_and_reason() {
    let e = ConfigError::Invalid {
        field: "grpc.port",
        reason: Reason::Text("must not be 0".into()),
    };
    let msg = e.message("", "");
    assert!(msg.contains("grpc.port"));
    assert!(msg.contains("must not be 0"));
    assert_eq!(msg, "invalid config \u{2014} grpc.port: must not be 0");
}

#[test]
fn backend_shape_mismatch_shows_both_shapes() {
    let e = BackendError::ShapeMismatch { expected: vec![1, 32], got: vec![1, 16] };
    let msg = e.message();
    assert!(msg.contains("32"));
    assert!(msg.contains("16"));
    assert_eq!(msg, "input shape mismatch: expected [1, 32], got [1, 16]");
}

#[test]
fn store_fetch_includes_entity_id() {
    let e = StoreError::Fetch {
        entity_id: "user_123".into(),
        reason: "connection reset".into(),
    };
    let msg = e.message();
    assert!(msg.contains("user_123"));
    assert!(msg.contains("connection reset"));
    assert_eq!(msg, "feature fetch failed for entity 'user_123': connection reset");
}

#[test]
fn registry_not_found_includes_model_name() {
    let e = RegistryError::ModelNotFound { name: "fraud_model".into() };
    assert!(e.message().contains("fraud_model"));
    assert_eq!(e.message(), "model 'fraud_model' not found in registry");
}

#[test]
fn serve_metrics_registration_includes_metric_name() {
    let e = ServeError::MetricsRegistration {
        name: "axon_requests_total",
        reason: "already registered".into(),
    };
    let msg = e.message();
    assert!(msg.contains("axon_requests_total"));
    assert!(msg.contains("already registered"));
    assert_eq!(msg, "failed to register metric 'axon_requests_total': already registered");
}

#[test]
fn every_config_error_has_its_message() {
    assert_eq!(
        ConfigError::Io("gone".into()).message("", ""),
        "failed to read config file: gone"
    );
    assert_eq!(
        ConfigError::Parse("line 1".into()).message("", ""),
        "failed to parse config: line 1"
    );
    let range = ConfigError::Invalid {
        field: "pipeline.stages[clip]",
        reason: Reason::EmptyRange { min: F32::from_bits(0), max: F32::from_bits(0) },
    };
    assert_eq!(
        range.message("2.5", "-1"),
        "invalid config \u{2014} pipeline.stages[clip]: min (2.5) must be less than max (-1)"
    );
}

#[test]
fn every_backend_error_has_its_message() {
    assert_eq!(
        BackendError::SessionCreation("no file".into()).message(),
        "failed to create inference session: no file"
    );
    assert_eq!(
        BackendError::OutputCountMismatch { expected: 2, got: 10 }.message(),
        "output count mismatch: expected 2, got 10"
    );
    assert_eq!(
        BackendError::InferenceFailed("oom".into()).message(),
        "inference failed: oom"
    );
    assert_eq!(
        BackendError::ShapeMismatch { expected: vec![], got: vec![-1, i64::MIN] }.message(),
        "input shape mismatch: expected [], got [-1, -9223372036854775808]"
    );
}

#[test]
fn every_store_error_has_its_message() {
    assert_eq!(
        StoreError::Connection("refused".into()).message(),
        "failed to connect to feature store: refused"
    );
    assert_eq!(
        StoreError::Deserialize { entity_id: "e".into(), reason: "bad byte".into() }.message(),
        "failed to deserialise features for entity 'e': bad byte"
    );
    assert_eq!(
        StoreError::ShapeMismatch { entity_id: "e".into(), expected: vec![3], got: vec![1, 20] }
            .message(),
        "feature shape mismatch for entity 'e': expected [3], got [1, 20]"
    );
}

#[test]
fn every_registry_error_has_its_message() {
    assert_eq!(
        RegistryError::HttpClient("tls".into()).message(),
        "failed to build HTTP client: tls"
    );
    assert_eq!(
        RegistryError::Request("503".into()).message(),
        "registry request failed: 503"
    );
    assert_eq!(
        RegistryError::Parse("eof".into()).message(),
        "failed to parse registry response: eof"
    );
    assert_eq!(RegistryError::Io("disk full".into()).message(), "I/O error: disk full");
}

#[test]
fn every_serve_error_has_its_message() {
    assert_eq!(
        ServeError::MetricsEncoding("utf8".into()).message(),
        "failed to encode metrics: utf8"
    );
}

#[test]
fn every_build_error_has_its_message() {
    let zero = F32::from_bits(0);
    let cases = vec![
        (BuildError::NoInferStage, "pipeline must contain an infer stage"),
        (
            BuildError::PostprocessBeforeInfer,
            "pipeline: postprocess stage must come after infer",
        ),
        (
            BuildError::ImputeAfterValidate,
            "pipeline: impute stage must come before validate",
        ),
        (
            BuildError::EmptyShape,
            "validate stage: expected_shape must not be empty",
        ),
        (
            BuildError::NonPositiveDimension(-4),
            "validate stage: all dimensions must be positive, got -4",
        ),
        (
            BuildError::EmptyRange { min: zero, max: zero },
            "clip stage: min (3) must be less than max (1.5)",
        ),
        (
            BuildError::InputNameTooLong("long".into()),
            "infer stage: input tensor name 'long' exceeds 64 bytes",
        ),
        (
            BuildError::OutputNameTooLong("long".into()),
            "output tensor name 'long' exceeds 64 bytes",
        ),
    ];
    for (error, text) in cases {
        assert_eq!(error.message("3", "1.5"), text);
    }
}

#[test]
fn predictions_error_has_its_message() {
    assert_eq!(
        PredictionsError::ProducerCreation("no brokers".into()).message(),
        "failed to create Kafka producer: no brokers"
    );
}
