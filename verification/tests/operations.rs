use std::cell::Cell;

use axon::config::{
    BackendConfig, BackendType, Config, DeviceConfig, GrpcConfig, MetricsConfig,
    ModelSchemaConfig, PipelineConfig, RegistryConfig, RegistryType, StoreConfig, StoreType,
};
use axon::error::{ConfigError, Reason};
use axon::health::{HealthAction, HealthMonitor};
use axon::metrics::{metric_specs, metrics_page, registration_error, MetricKind};
use axon::numeric::F32;
use axon::pipeline::pool::{IdlePool, PipelinePool};
use axon::startup::{pool_size, report_config_error, unknown_registry_message};

fn config() -> Config {
    Config {
        grpc: GrpcConfig {
            host: "127.0.0.1".to_owned(),
            port: 50051,
            stream_poll_interval_ms: 1,
            request_timeout_ms: 5000,
            pool_size: None,
            session_pool_size: None,
        },
        backend: BackendConfig {
            backend_type: BackendType::OnnxRuntime,
            device: DeviceConfig::Cpu,
        },
        registry: RegistryConfig {
            registry_type: RegistryType::Mlflow,
            uri: String::new(),
            model_name: String::new(),
            model_version: String::new(),
        },
        store: StoreConfig {
            store_type: StoreType::Redis,
            url: String::new(),
            key_prefix: None,
            health_check_interval_secs: None,
        },
        freshness: None,
        predictions: None,
        metrics: MetricsConfig { port: 9090 },
        model_schema: ModelSchemaConfig {
            inputs: vec![],
            outputs: vec![],
            schema_version: None,
        },
        pipeline: PipelineConfig { stages: vec![] },
    }
}

#[test]
fn readiness_drops_after_two_failures_and_recovers() {
    let mut monitor = HealthMonitor::new();
    assert_eq!(monitor.record(true), HealthAction::Keep);
    assert_eq!(monitor.record(false), HealthAction::Keep);
    assert_eq!(monitor.record(true), HealthAction::Keep);
    assert_eq!(monitor.record(false), HealthAction::Keep);
    assert_eq!(monitor.record(false), HealthAction::SetNotServing);
    assert_eq!(monitor.record(false), HealthAction::Keep);
    assert_eq!(monitor.consecutive_failures, 3);
    assert_eq!(monitor.record(true), HealthAction::SetServing);
    assert_eq!(monitor.record(true), HealthAction::Keep);
    assert_eq!(HealthMonitor::default().consecutive_failures, 0);
}

#[test]
fn pool_is_filled_to_capacity() {
    let made = Cell::new(0);
    let make = || {
        made.set(made.get() + 1);
        made.get()
    };
    let mut pool = PipelinePool::new(100, 3, make);
    assert_eq!(made.get(), 2);
    assert_eq!(pool.idle_count(), 3);
    assert_eq!(pool.acquire(), 2);
    assert_eq!(pool.acquire(), 1);
    assert_eq!(pool.acquire(), 100);
    assert_eq!(pool.acquire(), 3);
    assert_eq!(made.get(), 3);
}

#[test]
fn factory_is_not_called_for_a_single_slot() {
    for capacity in [0, 1] {
        let calls = Cell::new(0);
        let make = || {
            calls.set(calls.get() + 1);
            0
        };
        let mut pool = PipelinePool::new(7, capacity, make);
        assert_eq!(calls.get(), 0);
        assert_eq!(pool.idle_count(), 1);
        assert_eq!(pool.acquire(), 7);
        assert_eq!(calls.get(), 0);
    }
}

#[test]
fn overflow_pipelines_are_dropped_on_return() {
    let mut pool = PipelinePool::new(1, 1, || 2);
    let first = pool.acquire();
    let overflow = pool.acquire();
    pool.release(first);
    pool.release(overflow);
    assert_eq!(pool.idle_count(), 1);
    assert_eq!(pool.acquire(), 1);
}

#[test]
fn acquire_then_release_leaves_the_pool_as_it_was() {
    let mut pool = PipelinePool::new(1, 3, || 2);
    let taken = pool.acquire();
    assert_eq!(pool.idle_count(), 2);
    pool.release(taken);
    assert_eq!(pool.idle_count(), 3);
    assert_eq!(pool.acquire(), 2);
}

#[test]
fn pool_size_respected() {
    let mut sessions: IdlePool<u8> = IdlePool::with_capacity(3);
    for session in 0..sessions.capacity() {
        sessions.give_back(session as u8);
    }
    assert_eq!(sessions.capacity(), 3);
    assert_eq!(sessions.idle_count(), 3);
}

#[test]
fn pool_size_zero_clamps_to_one() {
    let sessions: IdlePool<u8> = IdlePool::with_capacity(0);
    assert_eq!(sessions.capacity(), 1);
}

#[test]
fn idle_pool_keeps_at_least_one() {
    let mut pool: IdlePool<u8> = IdlePool::with_capacity(0);
    assert_eq!(pool.capacity(), 1);
    assert_eq!(pool.take(), None);
    pool.give_back(5);
    pool.give_back(6);
    assert_eq!(pool.idle_count(), 1);
    assert_eq!(pool.take(), Some(5));
    let mut pool: IdlePool<u8> = IdlePool::with_capacity(3);
    assert_eq!(pool.capacity(), 3);
    pool.give_back(1);
    pool.give_back(2);
    assert_eq!(pool.take(), Some(2));
    assert_eq!(pool.take(), Some(1));
}

#[test]
fn metrics_are_declared_in_order() {
    let specs = metric_specs();
    let names: Vec<&str> = specs.iter().map(|s| s.name).collect();
    assert_eq!(
        names,
        [
            "axon_requests_total",
            "axon_request_duration_seconds",
            "axon_store_fetch_duration_seconds",
            "axon_store_misses_total",
            "axon_stage_p99_ns",
            "axon_stage_p999_ns",
            "axon_stage_count_total",
            "axon_stage_error_rate",
            "axon_served_feature_age_seconds",
            "axon_schema_version_rejects_total",
            "axon_predictions_emitted_total",
            "axon_predictions_dropped_total",
        ]
    );
    assert_eq!(specs[0].kind, MetricKind::Counter);
    assert_eq!(specs[0].labels, vec!["rpc", "status"]);
    assert_eq!(specs[0].help, "Total inference requests by RPC and status.");
    assert_eq!(specs[1].kind, MetricKind::Histogram);
    assert_eq!(
        specs[1].buckets_us,
        vec![1_000, 5_000, 10_000, 25_000, 50_000, 100_000, 250_000, 500_000, 1_000_000]
    );
    assert_eq!(specs[2].buckets_us, vec![100, 500, 1_000, 5_000, 10_000, 50_000]);
    assert_eq!(specs[7].labels, vec!["stage"]);
    assert_eq!(
        registration_error(&specs[3], "taken".to_owned()).message(),
        "failed to register metric 'axon_store_misses_total': taken"
    );
}

#[test]
fn metrics_can_be_registered() {
    let registry = prometheus::Registry::new();
    for spec in metric_specs() {
        let opts = prometheus::Opts::new(spec.name, spec.help);
        let gauge = prometheus::GaugeVec::new(opts, &spec.labels).unwrap();
        registry.register(Box::new(gauge)).unwrap();
    }
}

#[test]
fn metrics_page_gives_its_length_in_bytes() {
    assert_eq!(
        metrics_page("a \u{b5}s"),
        "HTTP/1.1 200 OK\r\nContent-Type: text/plain; version=0.0.4\r\nContent-Length: 5\r\nConnection: close\r\n\r\na \u{b5}s"
    );
    assert!(metrics_page("").contains("Content-Length: 0\r\n"));
}

#[test]
fn config_errors_are_reported_with_a_hint() {
    assert_eq!(
        report_config_error("c.toml", &ConfigError::Io("gone".to_owned()), "", ""),
        "could not read config file 'c.toml'\n  cause:  gone\n  hint:   check the path is correct and the file is readable"
    );
    assert_eq!(
        report_config_error("c.toml", &ConfigError::Parse("line 3".to_owned()), "", ""),
        "config file 'c.toml' contains invalid TOML\n  cause:  line 3\n  hint:   run `axon init` to generate a valid starter config"
    );
    let invalid = ConfigError::Invalid {
        field: "grpc.port",
        reason: Reason::Text("must not be 0".to_owned()),
    };
    assert_eq!(
        report_config_error("c.toml", &invalid, "", ""),
        "config file 'c.toml' failed validation\n  field:  grpc.port\n  reason: must not be 0\n  hint:   run `axon init` to generate a valid starter config"
    );
    let range = ConfigError::Invalid {
        field: "pipeline.stages[clip]",
        reason: Reason::EmptyRange { min: F32::from_bits(0), max: F32::from_bits(0) },
    };
    assert_eq!(
        report_config_error("c.toml", &range, "1", "0.5"),
        "config file 'c.toml' failed validation\n  field:  pipeline.stages[clip]\n  reason: min (1) must be less than max (0.5)\n  hint:   run `axon init` to generate a valid starter config"
    );
}

#[test]
fn defaults_fill_the_gaps() {
    let mut cfg = config();
    assert_eq!(cfg.key_prefix(), "features");
    assert_eq!(cfg.health_interval_secs(), 10);
    cfg.store.key_prefix = Some("feats".to_owned());
    cfg.store.health_check_interval_secs = Some(3);
    assert_eq!(cfg.key_prefix(), "feats");
    assert_eq!(cfg.health_interval_secs(), 3);
    assert_eq!(cfg.grpc_address(), "127.0.0.1:50051");
    assert_eq!(cfg.metrics_address(), "0.0.0.0:9090");
    assert_eq!(pool_size(Some(2), Some(8)), 2);
    assert_eq!(pool_size(None, Some(8)), 8);
    assert_eq!(pool_size(None, None), 4);
    assert_eq!(unknown_registry_message("vertex"), "unknown registry type: 'vertex'");
}
