use axon::config::PredictionsConfig;
use axon::numeric::F32;
use axon::predictions::{
    emit, enabled_predictions, sample_rate_to_every_n, Delivery, PredictionSink, CHANNEL_CAPACITY,
};

fn f(value: f32) -> F32 {
    F32::from_bits(value.to_bits())
}

fn test_config(sample_rate: f32) -> PredictionsConfig {
    PredictionsConfig {
        enabled: true,
        brokers: "localhost:1".to_owned(),
        topic: "predictions-test".to_owned(),
        sample_rate: f(sample_rate),
    }
}

#[test]
fn sample_rate_one_emits_every_record() {
    assert_eq!(sample_rate_to_every_n(f(1.0)), 1);
}

#[test]
fn sample_rate_above_one_clamps_to_every_record() {
    assert_eq!(sample_rate_to_every_n(f(2.0)), 1);
}

#[test]
fn sample_rate_zero_never_emits() {
    assert_eq!(sample_rate_to_every_n(f(0.0)), u64::MAX);
    let sink = PredictionSink::new(&test_config(0.0));
    assert!((0..1000).all(|ticket| !sink.should_sample(ticket)));
}

#[test]
fn sample_rate_negative_never_emits() {
    assert_eq!(sample_rate_to_every_n(f(-1.0)), u64::MAX);
    let sink = PredictionSink::new(&test_config(-1.0));
    assert!(!sink.should_sample(0));
}

#[test]
fn sample_rate_half_emits_every_other_record() {
    assert_eq!(sample_rate_to_every_n(f(0.5)), 2);
}

#[test]
fn sample_rate_tenth_emits_every_tenth_record() {
    assert_eq!(sample_rate_to_every_n(f(0.1)), 10);
}

#[test]
fn sample_rate_agrees_with_the_machine() {
    for rate in [0.9f32, 0.67, 0.66, 0.4, 0.3, 1e-3, 1e-9, 1e-19, 1e-30, 1e-44, f32::NAN] {
        let machine = ((1.0 / rate).round() as u64).max(1);
        assert_eq!(sample_rate_to_every_n(f(rate)), machine, "{rate}");
    }
}

#[test]
fn should_sample_respects_sample_rate() {
    let sink = PredictionSink::new(&test_config(0.5));
    let sampled = (0..10).filter(|ticket| sink.should_sample(*ticket)).count();
    assert_eq!(sampled, 5);
}

#[test]
fn any_window_of_one_distance_has_one_sample() {
    let sink = PredictionSink::new(&test_config(0.1));
    for start in 0..30u64 {
        let sampled = (start..start + 10).filter(|ticket| sink.should_sample(*ticket)).count();
        assert_eq!(sampled, 1);
    }
}

fn count(deliveries: &[Delivery], wanted: Delivery) -> usize {
    deliveries.iter().filter(|d| **d == wanted).count()
}

#[test]
fn emit_is_non_blocking_and_counts_as_emitted_even_when_broker_unreachable() {
    let sink = PredictionSink::new(&test_config(1.0));
    let (tx, _rx) = tokio::sync::mpsc::channel(CHANNEL_CAPACITY);
    let mut deliveries = Vec::new();
    for i in 0..10u64 {
        assert!(sink.should_sample(i));
        deliveries.push(emit(tx.try_send(format!("e{i}")).is_ok()));
    }
    assert_eq!(count(&deliveries, Delivery::Emitted), 10);
    assert_eq!(count(&deliveries, Delivery::Dropped), 0);
}

#[test]
fn full_channel_drops_and_counts_instead_of_blocking() {
    let (tx, _rx) = tokio::sync::mpsc::channel(CHANNEL_CAPACITY);
    let deliveries: Vec<Delivery> = (0..(CHANNEL_CAPACITY * 2))
        .map(|i| emit(tx.try_send(format!("e{i}")).is_ok()))
        .collect();
    let dropped = count(&deliveries, Delivery::Dropped);
    assert!(dropped > 0);
    assert_eq!(count(&deliveries, Delivery::Emitted) + dropped, CHANNEL_CAPACITY * 2);
    assert_eq!(dropped, CHANNEL_CAPACITY);
}

#[test]
fn logging_has_to_be_configured_and_enabled() {
    assert!(enabled_predictions(&None).is_none());
    let mut config = test_config(1.0);
    config.enabled = false;
    assert!(enabled_predictions(&Some(config)).is_none());
    let enabled = Some(test_config(1.0));
    assert_eq!(enabled_predictions(&enabled).unwrap().topic, "predictions-test");
}

fn sampled_among_first(sink: &PredictionSink, count: u64) -> u64 {
    (0..count).filter(|ticket| sink.should_sample(*ticket)).count() as u64
}

#[test]
fn samples_are_the_count_over_the_distance_rounded_up() {
    for every_n in [1, 2, 3, 7, 100] {
        let sink = PredictionSink { sample_every_n: every_n, never: false };
        for count in [0, 1, 2, 3, 6, 7, 8, 99, 100, 101] {
            assert_eq!(sampled_among_first(&sink, count), count.div_ceil(every_n));
        }
    }
}

#[test]
fn higher_rate_never_samples_less() {
    let rates = [-1.0, 0.0, 1e-44, 1e-30, 1e-19, 0.01, 0.1, 0.3, 0.34, 0.5, 0.66, 0.67, 0.9, 1.0, 2.0];
    for pair in rates.windows(2) {
        let rare = PredictionSink::new(&test_config(pair[0]));
        let dense = PredictionSink::new(&test_config(pair[1]));
        assert!(dense.sample_every_n <= rare.sample_every_n, "{pair:?}");
        for count in [0, 1, 2, 5, 99, 500] {
            assert!(sampled_among_first(&rare, count) <= sampled_among_first(&dense, count));
        }
    }
}
