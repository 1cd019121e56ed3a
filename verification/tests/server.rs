use arrayvec::ArrayString;

use axon::config::{FreshnessAction, FreshnessConfig};
use axon::error::StoreError;
use axon::numeric::F32;
use axon::pipeline::InferenceScratchpad;
use axon::predictions::PredictionSink;
use axon::server::{
    outcome_label, predict_stream, stream_goes_on, Code, FeatureSource, Happened, InferenceServer,
    MetricEvent, Phase, RecordHeader, Rpc, Status, Step,
};
use axon::store::FetchResult;
use axon::types::{OutputBuffer, Tensor};

fn list(values: &[f32]) -> Vec<F32> {
    values.iter().map(|v| F32::from_bits(v.to_bits())).collect()
}

fn freshness(max_feature_age_ms: u64, on_stale: FreshnessAction) -> FreshnessConfig {
    FreshnessConfig { max_feature_age_ms, on_stale }
}

fn server(freshness: Option<FreshnessConfig>, schema: Option<u32>) -> InferenceServer {
    InferenceServer::new(freshness, schema, None, "fraud".to_owned(), "7".to_owned())
}

fn logging_server(sample_every_n: u64) -> InferenceServer {
    let sink = PredictionSink { sample_every_n, never: false };
    InferenceServer::new(None, None, Some(sink), "fraud".to_owned(), "7".to_owned())
}

fn pad() -> InferenceScratchpad {
    InferenceScratchpad {
        entity_id: ArrayString::new(),
        request_id: ArrayString::new(),
        timestamp_ms: 0,
        input: Tensor::zeros(&vec![1, 2]),
        outputs: vec![OutputBuffer {
            name: "score".parse().unwrap(),
            data: Tensor::zeros(&vec![1, 1]),
        }],
    }
}

fn refused<T: std::fmt::Debug>(result: Result<T, Status>) -> (Code, String) {
    match result {
        Err(status) => (status.code, status.message),
        Ok(value) => panic!("expected a refusal, got {value:?}"),
    }
}

#[test]
fn freshness_within_bound_is_ok() {
    let cfg = freshness(1000, FreshnessAction::Reject);
    assert!(InferenceServer::enforce_freshness(&cfg, 500, "e1").is_ok());
}

#[test]
fn freshness_at_exact_bound_is_ok() {
    let cfg = freshness(1000, FreshnessAction::Reject);
    assert!(InferenceServer::enforce_freshness(&cfg, 1000, "e1").is_ok());
}

#[test]
fn freshness_flag_never_errors_even_when_stale() {
    let cfg = freshness(100, FreshnessAction::Flag);
    assert!(InferenceServer::enforce_freshness(&cfg, 5000, "e1").is_ok());
}

#[test]
fn freshness_reject_errors_when_stale() {
    let cfg = freshness(100, FreshnessAction::Reject);
    let err = InferenceServer::enforce_freshness(&cfg, 5000, "e1").unwrap_err();
    assert_eq!(err.code, Code::FailedPrecondition);
    assert!(err.message.contains("e1"));
    assert_eq!(
        err.message,
        "features stale for entity 'e1': age 5000ms exceeds max 100ms"
    );
}

#[test]
fn schema_version_match_is_ok() {
    assert!(InferenceServer::enforce_schema_version(1, 1, "e1").is_ok());
}

#[test]
fn schema_version_mismatch_errors() {
    let err = InferenceServer::enforce_schema_version(1, 2, "e1").unwrap_err();
    assert_eq!(err.code, Code::FailedPrecondition);
    assert!(err.message.contains("e1"));
    assert_eq!(
        err.message,
        "schema_version mismatch for entity 'e1': model trained on 1, served record is 2"
    );
}

#[test]
fn inline_features_bypass_the_store() {
    let mut ctx = pad();
    let source = InferenceServer::receive(&mut ctx, "user_1", &list(&[1.0, 2.0]), 99).unwrap();
    assert_eq!(source, FeatureSource::Inline);
    assert_eq!(ctx.entity_id.as_str(), "user_1");
    assert_eq!(ctx.timestamp_ms, 99);
    assert_eq!(ctx.input.values(), list(&[1.0, 2.0]));
}

#[test]
fn request_without_features_goes_to_the_store() {
    let mut ctx = pad();
    let source = InferenceServer::receive(&mut ctx, "user_1", &vec![], 99).unwrap();
    assert_eq!(source, FeatureSource::Store);
    assert_eq!(ctx.input.values(), list(&[0.0, 0.0]));
    assert_eq!(ctx.timestamp_ms, 99);
}

#[test]
fn wrong_number_of_features_is_refused() {
    let mut ctx = pad();
    assert_eq!(
        refused(InferenceServer::receive(&mut ctx, "u", &list(&[1.0, 2.0, 3.0]), 0)),
        (Code::InvalidArgument, "expected 2 features, got 3".to_owned())
    );
}

#[test]
fn long_entity_id_is_refused() {
    let mut ctx = pad();
    assert!(InferenceServer::receive(&mut ctx, &"x".repeat(128), &vec![], 1).is_ok());
    assert_eq!(ctx.entity_id.len(), 128);
    let mut ctx = pad();
    assert_eq!(
        refused(InferenceServer::receive(&mut ctx, &"x".repeat(129), &list(&[1.0, 2.0]), 1)),
        (Code::InvalidArgument, "entity_id exceeds maximum length".to_owned())
    );
    assert!(ctx.entity_id.is_empty());
    assert_eq!(ctx.timestamp_ms, 0);
    // The limit is in bytes.
    assert!(InferenceServer::receive(&mut ctx, &"\u{20ac}".repeat(43), &vec![], 1).is_err());
}

#[test]
fn store_failure_makes_the_service_unavailable() {
    let mut events = Vec::new();
    let fetched = Err(StoreError::Connection("refused".to_owned()));
    let header = RecordHeader::default();
    assert_eq!(
        refused(server(None, None).accept_fetch("e", 10, &fetched, &header, &mut events)),
        (
            Code::Unavailable,
            "feature store error: failed to connect to feature store: refused".to_owned()
        )
    );
    assert!(events.is_empty());
}

#[test]
fn miss_is_counted_and_served() {
    let mut events = Vec::new();
    let header = RecordHeader::default();
    server(Some(freshness(0, FreshnessAction::Reject)), Some(5))
        .accept_fetch("e", 10, &Ok(FetchResult::Miss), &header, &mut events)
        .unwrap();
    assert_eq!(events, vec![MetricEvent::StoreFetched, MetricEvent::StoreMiss]);
}

#[test]
fn fresh_hit_is_served() {
    let mut events = Vec::new();
    let header = RecordHeader { schema_version: 5, event_time_ms: 900 };
    server(Some(freshness(100, FreshnessAction::Reject)), Some(5))
        .accept_fetch("e", 1000, &Ok(FetchResult::Hit), &header, &mut events)
        .unwrap();
    assert_eq!(events, vec![MetricEvent::StoreFetched, MetricEvent::FeatureAge(100)]);
}

#[test]
fn clock_skew_does_not_make_an_age_negative() {
    let mut events = Vec::new();
    let header = RecordHeader { schema_version: 0, event_time_ms: 2000 };
    server(Some(freshness(0, FreshnessAction::Reject)), None)
        .accept_fetch("e", 1000, &Ok(FetchResult::Hit), &header, &mut events)
        .unwrap();
    assert_eq!(events, vec![MetricEvent::StoreFetched, MetricEvent::FeatureAge(0)]);
}

#[test]
fn stale_hit_is_refused_before_its_schema_is_looked_at() {
    let mut events = Vec::new();
    let header = RecordHeader { schema_version: 4, event_time_ms: 0 };
    let judged = server(Some(freshness(100, FreshnessAction::Reject)), Some(5)).accept_fetch(
        "e",
        1000,
        &Ok(FetchResult::Hit),
        &header,
        &mut events,
    );
    assert_eq!(
        refused(judged),
        (
            Code::FailedPrecondition,
            "features stale for entity 'e': age 1000ms exceeds max 100ms".to_owned()
        )
    );
    assert_eq!(events, vec![MetricEvent::StoreFetched, MetricEvent::FeatureAge(1000)]);
}

#[test]
fn schema_mismatch_is_counted_and_refused() {
    let mut events = Vec::new();
    let header = RecordHeader { schema_version: 4, event_time_ms: 1000 };
    let judged = server(Some(freshness(100, FreshnessAction::Flag)), Some(5)).accept_fetch(
        "e",
        1000,
        &Ok(FetchResult::Hit),
        &header,
        &mut events,
    );
    assert_eq!(
        refused(judged).1,
        "schema_version mismatch for entity 'e': model trained on 5, served record is 4"
    );
    assert_eq!(
        events,
        vec![
            MetricEvent::StoreFetched,
            MetricEvent::FeatureAge(0),
            MetricEvent::SchemaVersionReject,
        ]
    );
}

#[test]
fn reply_shows_the_outputs() {
    let mut ctx = pad();
    ctx.timestamp_ms = 42;
    ctx.outputs[0].data.copy_from(&list(&[0.75]));
    let header = RecordHeader { schema_version: 3, event_time_ms: 40 };
    let (reply, record) =
        server(None, None).finish(&ctx, "user_1", &header, None, &Ok(())).unwrap();
    assert!(record.is_none());
    assert_eq!(reply.entity_id, "user_1");
    assert_eq!(reply.timestamp_ms, 42);
    assert_eq!(reply.outputs.len(), 1);
    assert_eq!(reply.outputs[0].name, "score");
    assert_eq!(reply.outputs[0].values, list(&[0.75]));
    assert_eq!(reply.outputs[0].shape, vec![1, 1]);
}

#[test]
fn sampled_prediction_is_recorded() {
    let mut ctx = pad();
    ctx.timestamp_ms = 42;
    ctx.outputs[0].data.copy_from(&list(&[0.75]));
    let header = RecordHeader { schema_version: 3, event_time_ms: 40 };
    let sampled = Some(list(&[5.0, 6.0]));
    let (_, record) =
        server(None, None).finish(&ctx, "user_1", &header, sampled, &Ok(())).unwrap();
    let record = record.unwrap();
    assert_eq!(record.entity_id, "user_1");
    assert_eq!(record.model_name, "fraud");
    assert_eq!(record.model_version, "7");
    assert_eq!(record.schema_version, 3);
    assert_eq!(record.event_time_ms, 40);
    assert_eq!(record.predict_time_ms, 42);
    assert_eq!(record.features, list(&[5.0, 6.0]));
    assert_eq!(record.output, list(&[0.75]));
    assert_eq!(record.request_id, "");
}

#[test]
fn record_without_outputs_has_none() {
    let mut ctx = pad();
    ctx.outputs.clear();
    let header = RecordHeader::default();
    let (reply, record) = server(None, None)
        .finish(&ctx, "u", &header, Some(vec![]), &Ok(()))
        .unwrap();
    assert!(reply.outputs.is_empty());
    assert!(record.unwrap().output.is_empty());
}

#[test]
fn failed_pipeline_gives_neither_reply_nor_record() {
    let header = RecordHeader::default();
    let ran = Err("stage 'ValidateStage' failed".to_owned());
    assert_eq!(
        refused(server(None, None).finish(&pad(), "u", &header, Some(vec![]), &ran)),
        (
            Code::Internal,
            "pipeline error: stage 'ValidateStage' failed".to_owned()
        )
    );
}

#[test]
fn labels_tell_requests_apart() {
    assert_eq!(Rpc::Predict.label(), "predict");
    assert_eq!(Rpc::PredictStream.label(), "predict_stream");
    let header = RecordHeader::default();
    let ok = server(None, None)
        .finish(&pad(), "u", &header, None, &Ok(()))
        .map(|(reply, _)| reply);
    assert_eq!(outcome_label(&ok), "success");
    let failed = Err(Status { code: Code::Internal, message: "x".to_owned() });
    assert_eq!(outcome_label(&failed), "error");
    let item = predict_stream(ok).unwrap();
    assert_eq!(item.entity_id, "u");
    assert_eq!(item.outputs.len(), 1);
    assert_eq!(refused(predict_stream(failed)), (Code::Internal, "x".to_owned()));
}

#[test]
fn inline_request_goes_straight_to_the_pipeline() {
    let server = server(None, None);
    let mut ctx = pad();
    let mut events = Vec::new();
    let (mut request, step) = server.start(&mut ctx, "user_1", &list(&[1.0, 2.0]), 5);
    assert!(matches!(step, Step::Run));
    assert_eq!(request.phase, Phase::Running);
    ctx.outputs[0].data.copy_from(&list(&[0.5]));
    let step = server.advance(&mut request, &ctx, Happened::Ran(Ok(())), &mut events);
    match step {
        Step::Reply(Ok(reply)) => {
            assert_eq!(reply.entity_id, "user_1");
            assert_eq!(reply.timestamp_ms, 5);
            assert_eq!(reply.outputs[0].values, list(&[0.5]));
        }
        other => panic!("expected a reply, got {other:?}"),
    }
    assert_eq!(request.phase, Phase::Done);
    assert!(events.is_empty());
}

#[test]
fn stored_features_are_fetched_sampled_and_logged() {
    let server = logging_server(2);
    let mut ctx = pad();
    let mut events = Vec::new();
    let (mut request, step) = server.start(&mut ctx, "user_1", &vec![], 50);
    assert!(matches!(step, Step::Fetch));
    ctx.input.copy_from(&list(&[7.0, 8.0]));
    let header = RecordHeader { schema_version: 3, event_time_ms: 40 };
    let fetched = Happened::Fetched(Ok(FetchResult::Hit), header);
    let step = server.advance(&mut request, &ctx, fetched, &mut events);
    assert!(matches!(step, Step::Draw));
    assert_eq!(events, vec![MetricEvent::StoreFetched, MetricEvent::FeatureAge(10)]);
    let step = server.advance(&mut request, &ctx, Happened::Drew(4), &mut events);
    assert!(matches!(step, Step::Run));
    ctx.input.copy_from(&list(&[0.0, 0.0]));
    ctx.outputs[0].data.copy_from(&list(&[0.25]));
    match server.advance(&mut request, &ctx, Happened::Ran(Ok(())), &mut events) {
        Step::ReplyAndLog(reply, record) => {
            assert_eq!(reply.outputs[0].values, list(&[0.25]));
            assert_eq!(record.features, list(&[7.0, 8.0]));
            assert_eq!(record.output, list(&[0.25]));
            assert_eq!(record.schema_version, 3);
            assert_eq!(record.event_time_ms, 40);
            assert_eq!(record.predict_time_ms, 50);
        }
        other => panic!("expected a logged reply, got {other:?}"),
    }
}

#[test]
fn request_that_is_not_sampled_is_not_logged() {
    let server = logging_server(2);
    let mut ctx = pad();
    let mut events = Vec::new();
    let (mut request, step) = server.start(&mut ctx, "u", &list(&[1.0, 2.0]), 0);
    assert!(matches!(step, Step::Draw));
    let step = server.advance(&mut request, &ctx, Happened::Drew(3), &mut events);
    assert!(matches!(step, Step::Run));
    assert!(request.sampled.is_none());
    let step = server.advance(&mut request, &ctx, Happened::Ran(Ok(())), &mut events);
    assert!(matches!(step, Step::Reply(Ok(_))));
}

#[test]
fn failures_end_a_request() {
    let refusal = |step: Step| match step {
        Step::Reply(Err(status)) => (status.code, status.message),
        other => panic!("expected a refusal, got {other:?}"),
    };
    let strict = server(Some(freshness(1, FreshnessAction::Reject)), None);
    let mut events = Vec::new();
    let mut ctx = pad();
    let (request, step) = strict.start(&mut ctx, &"x".repeat(200), &vec![], 0);
    assert_eq!(refusal(step).0, Code::InvalidArgument);
    assert_eq!(request.phase, Phase::Done);

    let mut ctx = pad();
    let (mut request, _) = strict.start(&mut ctx, "e", &vec![], 100);
    let header = RecordHeader { schema_version: 0, event_time_ms: 0 };
    let fetched = Happened::Fetched(Ok(FetchResult::Hit), header);
    let step = strict.advance(&mut request, &ctx, fetched, &mut events);
    assert_eq!(refusal(step).0, Code::FailedPrecondition);
    assert_eq!(request.phase, Phase::Done);

    let logging = logging_server(1);
    let mut ctx = pad();
    let (mut request, _) = logging.start(&mut ctx, "e", &list(&[1.0, 2.0]), 0);
    logging.advance(&mut request, &ctx, Happened::Drew(0), &mut events);
    assert_eq!(request.sampled, Some(list(&[1.0, 2.0])));
    let ran = Happened::Ran(Err("boom".to_owned()));
    let step = logging.advance(&mut request, &ctx, ran, &mut events);
    assert_eq!(refusal(step), (Code::Internal, "pipeline error: boom".to_owned()));
}

#[test]
fn stream_ends_with_the_first_refusal() {
    let reply = |entity: &str| {
        server(None, None)
            .finish(&pad(), entity, &RecordHeader::default(), None, &Ok(()))
            .map(|(reply, _)| reply)
    };
    let refusal = |message: &str| {
        Err(Status { code: Code::Unavailable, message: message.to_owned() })
    };
    let results = vec![reply("a"), reply("b"), refusal("gone"), reply("c"), refusal("later")];
    let mut sent = Vec::new();
    for result in results {
        let item = predict_stream(result);
        let on = stream_goes_on(&item);
        sent.push(item);
        if !on {
            break;
        }
    }
    assert_eq!(sent.len(), 3);
    assert_eq!(sent[0].as_ref().unwrap().entity_id, "a");
    assert_eq!(sent[1].as_ref().unwrap().entity_id, "b");
    assert_eq!(refused(sent.pop().unwrap()), (Code::Unavailable, "gone".to_owned()));
}

#[test]
fn miss_is_logged_with_a_blank_header() {
    let server = logging_server(1);
    let mut ctx = pad();
    let mut events = Vec::new();
    let (mut request, step) = server.start(&mut ctx, "user_1", &vec![], 50);
    assert!(matches!(step, Step::Fetch));
    let header = RecordHeader { schema_version: 3, event_time_ms: 40 };
    let missed = Happened::Fetched(Ok(FetchResult::Miss), header);
    server.advance(&mut request, &ctx, missed, &mut events);
    assert_eq!(request.header.schema_version, 0);
    assert_eq!(request.header.event_time_ms, 0);
    assert_eq!(events, vec![MetricEvent::StoreFetched, MetricEvent::StoreMiss]);
    server.advance(&mut request, &ctx, Happened::Drew(0), &mut events);
    match server.advance(&mut request, &ctx, Happened::Ran(Ok(())), &mut events) {
        Step::ReplyAndLog(_, record) => {
            assert_eq!(record.schema_version, 0);
            assert_eq!(record.event_time_ms, 0);
            assert_eq!(record.features, list(&[0.0, 0.0]));
        }
        other => panic!("expected a logged reply, got {other:?}"),
    }
}
