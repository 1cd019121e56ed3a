//! What the inference service decides on the way from a request to its reply.
//!
//! [`InferenceServer::start`] takes a request into a scratchpad and says what has
//! to be done first. Whoever drives the request does that, and tells
//! [`InferenceServer::advance`] what came of it, until there is a reply: the
//! features are fetched unless the request carries them, a ticket is drawn if
//! predictions are logged, the pipeline runs, and the reply is made, with a
//! record of the prediction where it is sampled.

use vstd::prelude::*;

use crate::backend::to_dimensions;
use crate::config::{FreshnessAction, FreshnessConfig};
use crate::error::StoreError;
use crate::numeric::F32;
use crate::pipeline::{InferenceScratchpad, ScratchpadView};
use crate::predictions::PredictionSink;
use crate::store::FetchResult;
use crate::text::{push_integer, push_natural, push_size};
use crate::types::{id_try_push_str, name_as_str, OutputBuffer, OutputView, MAX_ID_LEN};

verus! {

/// The kinds of refusal that a caller can tell apart.
#[derive(Clone, Copy, Debug, PartialEq, Eq, Structural)]
pub enum Code {
    /// The request itself is at fault.
    InvalidArgument,
    /// The feature store cannot be used.
    Unavailable,
    /// The stored features must not be used.
    FailedPrecondition,
    /// The pipeline failed.
    Internal,
}

/// A refusal.
#[derive(Debug)]
pub struct Status {
    /// The kind of refusal.
    pub code: Code,
    /// What the caller is told.
    pub message: String,
}

/// What a refusal says.
#[verifier::ext_equal]
pub struct StatusView {
    /// The kind of refusal.
    pub code: Code,
    /// What the caller is told.
    pub message: Seq<char>,
}

impl View for Status {
    type V = StatusView;

    open spec fn view(&self) -> StatusView {
        StatusView { code: self.code, message: self.message@ }
    }
}

/// What a feature store keeps beside the features of an entity.
#[derive(Clone, Copy, Debug)]
pub struct RecordHeader {
    /// Version of the feature schema that the record follows.
    pub schema_version: u32,
    /// When the features were computed, in milliseconds since the epoch.
    pub event_time_ms: i64,
}

impl Default for RecordHeader {
    fn default() -> (header: Self)
        ensures
            header.schema_version == 0,
            header.event_time_ms == 0,
    {
        RecordHeader { schema_version: 0, event_time_ms: 0 }
    }
}

/// An output tensor of a reply.
#[derive(Debug)]
pub struct OutputTensor {
    /// Tensor name.
    pub name: String,
    /// Tensor values, in row-major order.
    pub values: Vec<F32>,
    /// Axis lengths.
    pub shape: Vec<i64>,
}

impl OutputTensor {
    /// True if this tensor shows what an output buffer holds.
    pub open spec fn shows(self, output: OutputView) -> bool {
        &&& self.name@ == output.name
        &&& self.values@ == output.data.elements
        &&& self.shape@ == output.data.axes.map_values(|axis: usize| axis as i64)
    }
}

/// The reply to a request.
#[derive(Debug)]
pub struct PredictResponse {
    /// Entity that the prediction is about.
    pub entity_id: String,
    /// Output tensors.
    pub outputs: Vec<OutputTensor>,
    /// When the request was received, in milliseconds since the epoch.
    pub timestamp_ms: i64,
}

impl PredictResponse {
    /// True if this is the reply about an entity that a scratchpad holds.
    pub open spec fn answers(self, entity_id: Seq<char>, pad: ScratchpadView) -> bool {
        &&& self.entity_id@ == entity_id
        &&& self.timestamp_ms == pad.timestamp_ms
        &&& self.outputs@.len() == pad.outputs.len()
        &&& forall|i: int|
            0 <= i < pad.outputs.len() ==> (#[trigger] self.outputs@[i]).shows(pad.outputs[i])
    }
}

/// One reply of a streaming request.
#[derive(Debug)]
pub struct PredictStreamResponse {
    /// Entity that the prediction is about.
    pub entity_id: String,
    /// Output tensors.
    pub outputs: Vec<OutputTensor>,
    /// When the features were taken up, in milliseconds since the epoch.
    pub timestamp_ms: i64,
}

/// A logged prediction.
#[derive(Debug)]
pub struct PredictionRecord {
    /// Entity that the prediction is about.
    pub entity_id: String,
    /// Name of the served model.
    pub model_name: String,
    /// Version of the served model.
    pub model_version: String,
    /// Version of the feature schema that the served features follow.
    pub schema_version: u32,
    /// When the served features were computed.
    pub event_time_ms: i64,
    /// When the request was received.
    pub predict_time_ms: i64,
    /// The served features, before any stage has touched them.
    pub features: Vec<F32>,
    /// The first output.
    pub output: Vec<F32>,
    /// Request identifier; not filled in yet.
    pub request_id: String,
}

/// Where the features of a request come from.
#[derive(Clone, Copy, Debug, PartialEq, Eq, Structural)]
pub enum FeatureSource {
    /// The request carries them.
    Inline,
    /// They have to be fetched from the feature store.
    Store,
}

/// Something to be counted or observed.
#[derive(Clone, Copy, Debug, PartialEq, Eq, Structural)]
pub enum MetricEvent {
    /// The feature store has answered; its latency is to be observed.
    StoreFetched,
    /// The feature store had no entry for the entity.
    StoreMiss,
    /// Features of this age, in milliseconds, are about to be served.
    FeatureAge(i64),
    /// Features were refused for their schema version.
    SchemaVersionReject,
}

/// The settings that decide on requests.
#[derive(Debug)]
pub struct InferenceServer {
    /// Freshness enforcement; none if not set.
    pub freshness: Option<FreshnessConfig>,
    /// Schema version that served features must have; any if not set.
    pub expected_schema_version: Option<u32>,
    /// Prediction logging; none if not set.
    pub predictions: Option<PredictionSink>,
    /// Name of the served model.
    pub model_name: String,
    /// Version of the served model.
    pub model_version: String,
}

impl ScratchpadView {
    /// The scratchpad with an identifier appended and the time of receipt set.
    pub open spec fn identified(self, entity_id: Seq<char>, now_ms: i64) -> ScratchpadView {
        ScratchpadView { entity_id: self.entity_id + entity_id, timestamp_ms: now_ms, ..self }
    }
}

/// The message for a request with the wrong number of features.
pub open spec fn feature_count_message(expected: nat, got: nat) -> Seq<char> {
    "expected "@ + crate::text::natural_text(expected) + " features, got "@
        + crate::text::natural_text(got)
}

/// What becomes of a request that is taken into a scratchpad.
pub enum Received {
    /// It is refused with a status, and the scratchpad is as given.
    Refused(StatusView, ScratchpadView),
    /// It brings its features, and the scratchpad is as given.
    Inline(ScratchpadView),
    /// Its features have to be fetched, and the scratchpad is as given.
    Store(ScratchpadView),
}

/// What becomes of a request: an identifier that does not fit is refused first,
/// then inline features of the wrong number.
pub open spec fn received(
    pad: ScratchpadView,
    entity_id: Seq<char>,
    features: Seq<F32>,
    now_ms: i64,
) -> Received {
    let taken = pad.identified(entity_id, now_ms);
    if crate::types::byte_len(pad.entity_id) + crate::types::byte_len(entity_id) > MAX_ID_LEN {
        Received::Refused(
            StatusView {
                code: Code::InvalidArgument,
                message: "entity_id exceeds maximum length"@,
            },
            pad,
        )
    } else if features.len() == 0 {
        Received::Store(taken)
    } else if features.len() != pad.input.elements.len() {
        Received::Refused(
            StatusView {
                code: Code::InvalidArgument,
                message: feature_count_message(pad.input.elements.len(), features.len()),
            },
            taken,
        )
    } else {
        Received::Inline(taken.with_input(features))
    }
}

/// The refusal of features that are too old.
pub open spec fn stale_status(entity_id: Seq<char>, age_ms: i64, limit: u64) -> StatusView {
    StatusView {
        code: Code::FailedPrecondition,
        message: "features stale for entity '"@ + entity_id + "': age "@
            + crate::text::integer_text(age_ms as int) + "ms exceeds max "@
            + crate::text::natural_text(limit as nat) + "ms"@,
    }
}

/// The refusal of features with another schema version.
pub open spec fn schema_status(entity_id: Seq<char>, expected: u32, got: u32) -> StatusView {
    StatusView {
        code: Code::FailedPrecondition,
        message: "schema_version mismatch for entity '"@ + entity_id + "': model trained on "@
            + crate::text::natural_text(expected as nat) + ", served record is "@
            + crate::text::natural_text(got as nat),
    }
}

/// True if the feature store had features for the entity.
pub open spec fn found(fetched: Result<FetchResult, StoreError>) -> bool {
    match fetched {
        Ok(FetchResult::Hit) => true,
        _ => false,
    }
}

/// The header that a request keeps of an answer of the feature store: what came
/// with features that were found, and a blank one otherwise.
pub open spec fn kept_header(
    fetched: Result<FetchResult, StoreError>,
    header: RecordHeader,
) -> RecordHeader {
    if found(fetched) {
        header
    } else {
        RecordHeader { schema_version: 0, event_time_ms: 0 }
    }
}

/// The age of features at the time of a request; never negative, whatever the
/// clocks say.
pub open spec fn feature_age(timestamp_ms: i64, event_time_ms: i64) -> i64 {
    if timestamp_ms - event_time_ms < 0 {
        0
    } else {
        (timestamp_ms - event_time_ms) as i64
    }
}

impl InferenceServer {
    /// Puts the settings together.
    pub fn new(
        freshness: Option<FreshnessConfig>,
        expected_schema_version: Option<u32>,
        predictions: Option<PredictionSink>,
        model_name: String,
        model_version: String,
    ) -> (server: Self)
        ensures
            server == (InferenceServer {
                freshness,
                expected_schema_version,
                predictions,
                model_name,
                model_version,
            }),
    {
        InferenceServer {
            freshness,
            expected_schema_version,
            predictions,
            model_name,
            model_version,
        }
    }

    /// Takes a request into a scratchpad.
    ///
    /// An identifier that does not fit is refused. Inline features are copied
    /// into the input if there are as many as the model takes, and refused
    /// otherwise; without any, the features have to be fetched.
    pub fn receive(
        ctx: &mut InferenceScratchpad,
        entity_id: &str,
        inline_features: &Vec<F32>,
        now_ms: i64,
    ) -> (source: Result<FeatureSource, Status>)
        ensures
            match received(old(ctx)@, entity_id@, inline_features@, now_ms) {
                Received::Refused(status, pad) => source is Err && source->Err_0@ == status
                    && final(ctx)@ == pad,
                Received::Inline(pad) => source == Ok::<FeatureSource, Status>(
                    FeatureSource::Inline,
                ) && final(ctx)@ == pad,
                Received::Store(pad) => source == Ok::<FeatureSource, Status>(FeatureSource::Store)
                    && final(ctx)@ == pad,
            },
    {
        if !id_try_push_str(&mut ctx.entity_id, entity_id) {
            assert(ctx@ =~= old(ctx)@);
            return Err(
                Status {
                    code: Code::InvalidArgument,
                    message: "entity_id exceeds maximum length".to_owned(),
                },
            );
        }
        ctx.timestamp_ms = now_ms;
        assert(ctx@ =~= old(ctx)@.identified(entity_id@, now_ms));
        if inline_features.len() == 0 {
            return Ok(FeatureSource::Store);
        }
        if inline_features.len() != ctx.input.len() {
            let mut message = String::new();
            message.append("expected ");
            push_size(&mut message, ctx.input.len());
            message.append(" features, got ");
            push_size(&mut message, inline_features.len());
            assert(message@ =~= feature_count_message(
                old(ctx)@.input.elements.len(),
                inline_features@.len(),
            ));
            return Err(Status { code: Code::InvalidArgument, message });
        }
        ctx.input.copy_from(inline_features);
        assert(ctx@ =~= old(ctx)@.identified(entity_id@, now_ms).with_input(inline_features@));
        Ok(FeatureSource::Inline)
    }

    /// Applies freshness enforcement to the age of served features.
    ///
    /// Features within the bound pass. Older ones pass too if they are only to
    /// be flagged, and are refused if they are to be rejected.
    pub fn enforce_freshness(freshness: &FreshnessConfig, age_ms: i64, entity_id: &str) -> (checked:
        Result<(), Status>)
        ensures
            checked is Err <==> (age_ms as u64) > freshness.max_feature_age_ms && freshness.on_stale
                == FreshnessAction::Reject,
            checked is Err ==> checked->Err_0@ == stale_status(
                entity_id@,
                age_ms,
                freshness.max_feature_age_ms,
            ),
    {
        if #[verifier::truncate] (age_ms as u64) <= freshness.max_feature_age_ms {
            return Ok(());
        }
        match freshness.on_stale {
            FreshnessAction::Flag => Ok(()),
            FreshnessAction::Reject => {
                let mut message = String::new();
                message.append("features stale for entity '");
                message.append(entity_id);
                message.append("': age ");
                push_integer(&mut message, age_ms);
                message.append("ms exceeds max ");
                push_natural(&mut message, freshness.max_feature_age_ms);
                message.append("ms");
                assert(message@ =~= stale_status(
                    entity_id@,
                    age_ms,
                    freshness.max_feature_age_ms,
                ).message);
                Err(Status { code: Code::FailedPrecondition, message })
            },
        }
    }

    /// Applies schema-version enforcement: an error exactly if the versions
    /// differ.
    pub fn enforce_schema_version(expected: u32, got: u32, entity_id: &str) -> (checked: Result<
        (),
        Status,
    >)
        ensures
            checked is Ok <==> got == expected,
            checked is Err ==> checked->Err_0@ == schema_status(entity_id@, expected, got),
    {
        if got == expected {
            return Ok(());
        }
        let mut message = String::new();
        message.append("schema_version mismatch for entity '");
        message.append(entity_id);
        message.append("': model trained on ");
        push_natural(&mut message, expected as u64);
        message.append(", served record is ");
        push_natural(&mut message, got as u64);
        assert(message@ =~= schema_status(entity_id@, expected, got).message);
        Err(Status { code: Code::FailedPrecondition, message })
    }

    /// The refusal of features that were found, if they are refused: those that
    /// are too old first, then those with another schema version.
    pub open spec fn hit_refusal(
        self,
        entity_id: Seq<char>,
        age_ms: i64,
        schema_version: u32,
    ) -> Option<StatusView> {
        if self.is_stale(age_ms) {
            Some(
                stale_status(entity_id, age_ms, self.freshness->Some_0.max_feature_age_ms),
            )
        } else if self.expected_schema_version is Some && self.expected_schema_version->Some_0
            != schema_version {
            Some(
                schema_status(entity_id, self.expected_schema_version->Some_0, schema_version),
            )
        } else {
            None
        }
    }

    /// True if features of this age are to be rejected.
    pub open spec fn is_stale(self, age_ms: i64) -> bool {
        &&& self.freshness is Some
        &&& self.freshness->Some_0.on_stale == FreshnessAction::Reject
        &&& (age_ms as u64) > self.freshness->Some_0.max_feature_age_ms
    }

    /// What is counted and observed for features that were found.
    pub open spec fn hit_events(self, age_ms: i64, schema_version: u32) -> Seq<MetricEvent> {
        let served = seq![MetricEvent::StoreFetched, MetricEvent::FeatureAge(age_ms)];
        if !self.is_stale(age_ms) && self.expected_schema_version is Some
            && self.expected_schema_version->Some_0 != schema_version {
            served.push(MetricEvent::SchemaVersionReject)
        } else {
            served
        }
    }

    /// Judges what the feature store answered.
    ///
    /// A store that failed makes the service unavailable. A miss is counted, and
    /// the pipeline runs on the input as it is. Features that were found are
    /// checked for their age and for their schema version.
    pub fn accept_fetch(
        &self,
        entity_id: &str,
        timestamp_ms: i64,
        fetched: &Result<FetchResult, StoreError>,
        header: &RecordHeader,
        events: &mut Vec<MetricEvent>,
    ) -> (accepted: Result<(), Status>)
        requires
            found(*fetched) ==> i64::MIN <= timestamp_ms - header.event_time_ms <= i64::MAX,
        ensures
            ({
                let refusal = self.fetch_refusal(entity_id@, timestamp_ms, *fetched, *header);
                &&& accepted is Ok <==> refusal is None
                &&& accepted is Err ==> Some(accepted->Err_0@) == refusal
            }),
            final(events)@ == old(events)@ + self.fetch_events(timestamp_ms, *fetched, *header),
            found(*fetched) && self.freshness is Some && self.freshness->Some_0.on_stale
                == FreshnessAction::Reject && timestamp_ms - header.event_time_ms
                > self.freshness->Some_0.max_feature_age_ms ==> accepted is Err
                && accepted->Err_0.code == Code::FailedPrecondition,
            found(*fetched) && timestamp_ms - header.event_time_ms >= 0 ==> final(events)@[old(events)@.len() as int + 1] == MetricEvent::FeatureAge(
                (timestamp_ms - header.event_time_ms) as i64,
            ),
    {
        let result = match fetched {
            Ok(result) => *result,
            Err(error) => {
                let mut message = String::new();
                message.append("feature store error: ");
                message.append(error.message().as_str());
                assert(message@ =~= "feature store error: "@ + error.message_text());
                assert(events@ =~= old(events)@ + Seq::<MetricEvent>::empty());
                return Err(Status { code: Code::Unavailable, message });
            },
        };
        events.push(MetricEvent::StoreFetched);
        match result {
            FetchResult::Miss => {
                events.push(MetricEvent::StoreMiss);
                assert(events@ =~= old(events)@ + seq![
                    MetricEvent::StoreFetched,
                    MetricEvent::StoreMiss,
                ]);
            },
            FetchResult::Hit => {
                let elapsed: i64 = timestamp_ms - header.event_time_ms;
                let age_ms: i64 = if elapsed < 0 {
                    0
                } else {
                    elapsed
                };
                events.push(MetricEvent::FeatureAge(age_ms));
                if let Some(freshness) = &self.freshness {
                    match InferenceServer::enforce_freshness(freshness, age_ms, entity_id) {
                        Ok(()) => {},
                        Err(status) => {
                            assert(events@ =~= old(events)@ + self.hit_events(
                                age_ms,
                                header.schema_version,
                            ));
                            return Err(status);
                        },
                    }
                }
                if let Some(expected) = self.expected_schema_version {
                    if header.schema_version != expected {
                        events.push(MetricEvent::SchemaVersionReject);
                        assert(events@ =~= old(events)@ + self.hit_events(
                            age_ms,
                            header.schema_version,
                        ));
                        return InferenceServer::enforce_schema_version(
                            expected,
                            header.schema_version,
                            entity_id,
                        );
                    }
                }
                assert(events@ =~= old(events)@ + self.hit_events(age_ms, header.schema_version));
            },
        }
        Ok(())
    }

    /// True if this is the record of a prediction that a scratchpad holds.
    pub open spec fn records(
        self,
        record: PredictionRecord,
        entity_id: Seq<char>,
        header: RecordHeader,
        features: Seq<F32>,
        pad: ScratchpadView,
    ) -> bool {
        &&& record.entity_id@ == entity_id
        &&& record.model_name@ == self.model_name@
        &&& record.model_version@ == self.model_version@
        &&& record.schema_version == header.schema_version
        &&& record.event_time_ms == header.event_time_ms
        &&& record.predict_time_ms == pad.timestamp_ms
        &&& record.features@ == features
        &&& record.output@ == (if pad.outputs.len() > 0 {
            pad.outputs[0].data.elements
        } else {
            Seq::empty()
        })
        &&& record.request_id@ == Seq::<char>::empty()
    }

    /// Makes the reply once the pipeline has run, and the record of the
    /// prediction if its features were sampled.
    ///
    /// A pipeline that failed is reported with its message; then there is
    /// neither a reply nor a record.
    pub fn finish(
        &self,
        ctx: &InferenceScratchpad,
        entity_id: &str,
        header: &RecordHeader,
        sampled: Option<Vec<F32>>,
        ran: &Result<(), String>,
    ) -> (finished: Result<(PredictResponse, Option<PredictionRecord>), Status>)
        ensures
            finished is Ok <==> ran is Ok,
            finished is Err ==> finished->Err_0@ == (StatusView {
                code: Code::Internal,
                message: "pipeline error: "@ + ran->Err_0@,
            }),
            finished is Ok ==> {
                let (response, record) = finished->Ok_0;
                &&& response.answers(entity_id@, ctx@)
                &&& response.entity_id@ == entity_id@
                &&& response.timestamp_ms == ctx.timestamp_ms
                &&& response.outputs@.len() == ctx.outputs@.len()
                &&& forall|i: int|
                    0 <= i < ctx.outputs@.len() ==> {
                        let tensor = #[trigger] response.outputs@[i];
                        &&& tensor.name@ == ctx.outputs@[i]@.name
                        &&& tensor.values@ == ctx.outputs@[i]@.data.elements
                        &&& tensor.shape@ == ctx.outputs@[i]@.data.axes.map_values(
                            |axis: usize| axis as i64,
                        )
                    }
                &&& record is Some <==> sampled is Some
                &&& record is Some ==> self.records(
                    record->Some_0,
                    entity_id@,
                    *header,
                    sampled->Some_0@,
                    ctx@,
                )
            },
    {
        match ran {
            Ok(()) => {},
            Err(cause) => {
                let mut message = String::new();
                message.append("pipeline error: ");
                message.append(cause.as_str());
                assert(message@ =~= "pipeline error: "@ + cause@);
                return Err(Status { code: Code::Internal, message });
            },
        }
        let record = match sampled {
            Some(features) => {
                let output = if ctx.outputs.len() > 0 {
                    assert(ctx@.outputs[0] == ctx.outputs@[0]@);
                    ctx.outputs[0].data.values()
                } else {
                    Vec::new()
                };
                Some(
                    PredictionRecord {
                        entity_id: entity_id.to_owned(),
                        model_name: self.model_name.clone(),
                        model_version: self.model_version.clone(),
                        schema_version: header.schema_version,
                        event_time_ms: header.event_time_ms,
                        predict_time_ms: ctx.timestamp_ms,
                        features,
                        output,
                        request_id: String::new(),
                    },
                )
            },
            None => None,
        };
        let mut outputs: Vec<OutputTensor> = Vec::new();
        let count = ctx.outputs.len();
        for i in 0..count
            invariant
                count == ctx.outputs@.len(),
                outputs@.len() == i,
                forall|j: int|
                    0 <= j < i ==> (#[trigger] outputs@[j]).shows(ctx.outputs@[j]@),
        {
            outputs.push(show_output(&ctx.outputs[i]));
        }
        let response = PredictResponse {
            entity_id: entity_id.to_owned(),
            outputs,
            timestamp_ms: ctx.timestamp_ms,
        };
        assert forall|i: int| 0 <= i < ctx@.outputs.len() implies (
        #[trigger] response.outputs@[i]).shows(ctx@.outputs[i]) by {
            assert(ctx@.outputs[i] == ctx.outputs@[i]@);
        }
        Ok((response, record))
    }
}

/// How far a request has come.
#[derive(Clone, Copy, Debug, PartialEq, Eq, Structural)]
pub enum Phase {
    /// Its features are being fetched.
    Fetching,
    /// It is about to draw a ticket.
    Drawing,
    /// The pipeline is running.
    Running,
    /// It has been answered.
    Done,
}

/// A request on its way.
#[derive(Debug)]
pub struct Inference {
    /// Entity that the prediction is about.
    pub entity_id: String,
    /// What the feature store keeps beside the features; blank unless they came
    /// from there.
    pub header: RecordHeader,
    /// The features as they were served, if the prediction is sampled.
    pub sampled: Option<Vec<F32>>,
    /// How far the request has come.
    pub phase: Phase,
}

/// What has to be done next for a request.
#[derive(Debug)]
pub enum Step {
    /// Fetch the features of the entity into the input.
    Fetch,
    /// Draw the next ticket number.
    Draw,
    /// Run the pipeline on the scratchpad.
    Run,
    /// Answer the request.
    Reply(Result<PredictResponse, Status>),
    /// Answer the request, and log the prediction.
    ReplyAndLog(PredictResponse, PredictionRecord),
}

/// What came of a step.
#[derive(Debug)]
pub enum Happened {
    /// The feature store has answered.
    Fetched(Result<FetchResult, StoreError>, RecordHeader),
    /// A ticket number was drawn.
    Drew(u64),
    /// The pipeline has run, or failed with a message.
    Ran(Result<(), String>),
}

impl Step {
    /// The phase in which this step is carried out.
    pub open spec fn phase(self) -> Phase {
        match self {
            Step::Fetch => Phase::Fetching,
            Step::Draw => Phase::Drawing,
            Step::Run => Phase::Running,
            _ => Phase::Done,
        }
    }

    /// True if this step refuses the request with the given status.
    pub open spec fn refuses(self, status: StatusView) -> bool {
        match self {
            Step::Reply(Err(given)) => given@ == status,
            _ => false,
        }
    }
}

impl Happened {
    /// The phase in which this can happen.
    pub open spec fn phase(self) -> Phase {
        match self {
            Happened::Fetched(..) => Phase::Fetching,
            Happened::Drew(..) => Phase::Drawing,
            Happened::Ran(..) => Phase::Running,
        }
    }

    /// True if features were found that are not too far off in time for their
    /// age to be computed, or none were found.
    pub open spec fn has_age(self, timestamp_ms: i64) -> bool {
        match self {
            Happened::Fetched(fetched, header) => found(fetched) ==> i64::MIN <= timestamp_ms
                - header.event_time_ms <= i64::MAX,
            _ => true,
        }
    }
}

impl InferenceServer {
    /// True if sampling can be decided.
    pub open spec fn well_formed(self) -> bool {
        self.predictions is Some ==> self.predictions->Some_0.well_formed()
    }

    /// The step that follows once the features are in.
    pub open spec fn step_with_features(self) -> Step {
        if self.predictions is Some {
            Step::Draw
        } else {
            Step::Run
        }
    }

    /// Takes a request into a scratchpad and says what has to be done first.
    ///
    /// A request that cannot be taken is answered at once.
    pub fn start(
        &self,
        ctx: &mut InferenceScratchpad,
        entity_id: &str,
        inline_features: &Vec<F32>,
        now_ms: i64,
    ) -> (started: (Inference, Step))
        ensures
            ({
                let (inference, step) = started;
                &&& inference.entity_id@ == entity_id@
                &&& inference.header.schema_version == 0
                &&& inference.header.event_time_ms == 0
                &&& inference.sampled is None
                &&& inference.phase == step.phase()
                &&& match received(old(ctx)@, entity_id@, inline_features@, now_ms) {
                    Received::Refused(status, pad) => step.refuses(status) && final(ctx)@ == pad,
                    Received::Inline(pad) => step == self.step_with_features() && final(ctx)@
                        == pad,
                    Received::Store(pad) => step == Step::Fetch && final(ctx)@ == pad,
                }
            }),
    {
        let step = match InferenceServer::receive(ctx, entity_id, inline_features, now_ms) {
            Ok(FeatureSource::Store) => Step::Fetch,
            Ok(FeatureSource::Inline) => self.with_features(),
            Err(status) => Step::Reply(Err(status)),
        };
        let phase = phase_of(&step);
        let inference = Inference {
            entity_id: entity_id.to_owned(),
            header: RecordHeader::default(),
            sampled: None,
            phase,
        };
        (inference, step)
    }

    /// The step that follows once the features are in.
    fn with_features(&self) -> (step: Step)
        ensures
            step == self.step_with_features(),
    {
        match self.predictions {
            Some(_) => Step::Draw,
            None => Step::Run,
        }
    }

    /// Takes what came of the last step, and says what has to be done next.
    ///
    /// What is to be counted and observed is appended to `events`.
    pub fn advance(
        &self,
        inference: &mut Inference,
        ctx: &InferenceScratchpad,
        happened: Happened,
        events: &mut Vec<MetricEvent>,
    ) -> (step: Step)
        requires
            self.well_formed(),
            old(inference).phase == happened.phase(),
            happened.has_age(ctx.timestamp_ms),
        ensures
            final(inference).entity_id == old(inference).entity_id,
            final(inference).phase == step.phase(),
            match happened {
                Happened::Fetched(fetched, header) => {
                    &&& final(inference).header == kept_header(fetched, header)
                    &&& final(inference).sampled == old(inference).sampled
                    &&& final(events)@ == old(events)@ + self.fetch_events(
                        ctx.timestamp_ms,
                        fetched,
                        header,
                    )
                    &&& match self.fetch_refusal(
                        old(inference).entity_id@,
                        ctx.timestamp_ms,
                        fetched,
                        header,
                    ) {
                        Some(status) => step.refuses(status),
                        None => step == self.step_with_features(),
                    }
                },
                Happened::Drew(ticket) => {
                    &&& final(inference).header == old(inference).header
                    &&& final(events)@ == old(events)@
                    &&& step == Step::Run
                    &&& final(inference).sampled is Some <==> self.predictions is Some
                        && self.predictions->Some_0.samples(ticket)
                    &&& final(inference).sampled is Some ==> final(inference).sampled->Some_0@
                        == ctx@.input.elements
                },
                Happened::Ran(ran) => {
                    &&& final(inference).header == old(inference).header
                    &&& final(events)@ == old(events)@
                    &&& self.answers(*old(inference), ctx@, ran, step)
                },
            },
    {
        match happened {
            Happened::Fetched(fetched, header) => {
                inference.header = match &fetched {
                    Ok(FetchResult::Hit) => header,
                    _ => RecordHeader::default(),
                };
                let accepted = self.accept_fetch(
                    inference.entity_id.as_str(),
                    ctx.timestamp_ms,
                    &fetched,
                    &header,
                    events,
                );
                let step = match accepted {
                    Ok(()) => self.with_features(),
                    Err(status) => Step::Reply(Err(status)),
                };
                inference.phase = phase_of(&step);
                step
            },
            Happened::Drew(ticket) => {
                inference.sampled = match &self.predictions {
                    Some(sink) => {
                        if sink.should_sample(ticket) {
                            Some(ctx.input.values())
                        } else {
                            None
                        }
                    },
                    None => None,
                };
                inference.phase = Phase::Running;
                Step::Run
            },
            Happened::Ran(ran) => {
                let sampled = inference.sampled.take();
                inference.phase = Phase::Done;
                let finished = self.finish(
                    ctx,
                    inference.entity_id.as_str(),
                    &inference.header,
                    sampled,
                    &ran,
                );
                match finished {
                    Ok((response, Some(record))) => Step::ReplyAndLog(response, record),
                    Ok((response, None)) => Step::Reply(Ok(response)),
                    Err(status) => Step::Reply(Err(status)),
                }
            },
        }
    }

    /// Why what the feature store answered is refused, if it is.
    pub open spec fn fetch_refusal(
        self,
        entity_id: Seq<char>,
        timestamp_ms: i64,
        fetched: Result<FetchResult, StoreError>,
        header: RecordHeader,
    ) -> Option<StatusView> {
        match fetched {
            Err(error) => Some(
                StatusView {
                    code: Code::Unavailable,
                    message: "feature store error: "@ + error.message_text(),
                },
            ),
            Ok(FetchResult::Miss) => None,
            Ok(FetchResult::Hit) => self.hit_refusal(
                entity_id,
                feature_age(timestamp_ms, header.event_time_ms),
                header.schema_version,
            ),
        }
    }

    /// What is counted and observed for an answer of the feature store.
    pub open spec fn fetch_events(
        self,
        timestamp_ms: i64,
        fetched: Result<FetchResult, StoreError>,
        header: RecordHeader,
    ) -> Seq<MetricEvent> {
        match fetched {
            Err(_) => Seq::empty(),
            Ok(FetchResult::Miss) => seq![MetricEvent::StoreFetched, MetricEvent::StoreMiss],
            Ok(FetchResult::Hit) => self.hit_events(
                feature_age(timestamp_ms, header.event_time_ms),
                header.schema_version,
            ),
        }
    }

    /// True if `step` is the answer to a request once the pipeline has run.
    pub open spec fn answers(
        self,
        inference: Inference,
        pad: ScratchpadView,
        ran: Result<(), String>,
        step: Step,
    ) -> bool {
        match (ran, inference.sampled) {
            (Err(cause), _) => step.refuses(
                StatusView { code: Code::Internal, message: "pipeline error: "@ + cause@ },
            ),
            (Ok(()), None) => match step {
                Step::Reply(Ok(response)) => response.answers(inference.entity_id@, pad),
                _ => false,
            },
            (Ok(()), Some(features)) => match step {
                Step::ReplyAndLog(response, record) => {
                    &&& response.answers(inference.entity_id@, pad)
                    &&& self.records(
                        record,
                        inference.entity_id@,
                        inference.header,
                        features@,
                        pad,
                    )
                },
                _ => false,
            },
        }
    }
}

/// The phase in which a step is carried out.
fn phase_of(step: &Step) -> (phase: Phase)
    ensures
        phase == step.phase(),
{
    match step {
        Step::Fetch => Phase::Fetching,
        Step::Draw => Phase::Drawing,
        Step::Run => Phase::Running,
        _ => Phase::Done,
    }
}

/// An output buffer as part of a reply.
fn show_output(output: &OutputBuffer) -> (tensor: OutputTensor)
    ensures
        tensor.shows(output@),
{
    OutputTensor {
        name: name_as_str(&output.name).to_owned(),
        values: output.data.values(),
        shape: to_dimensions(&output.data.shape()),
    }
}

/// The remote procedures of the service.
#[derive(Clone, Copy, Debug, PartialEq, Eq, Structural)]
pub enum Rpc {
    /// One request, one reply.
    Predict,
    /// One request, a reply for every update.
    PredictStream,
}

impl Rpc {
    /// The label under which requests are counted and timed.
    pub open spec fn label_text(self) -> Seq<char> {
        match self {
            Rpc::Predict => "predict"@,
            Rpc::PredictStream => "predict_stream"@,
        }
    }

    /// The label under which requests are counted and timed.
    pub fn label(self) -> (label: &'static str)
        ensures
            label@ == self.label_text(),
    {
        match self {
            Rpc::Predict => "predict",
            Rpc::PredictStream => "predict_stream",
        }
    }
}

/// The label under which the outcome of a request is counted.
pub fn outcome_label(result: &Result<PredictResponse, Status>) -> (label: &'static str)
    ensures
        label@ == (if result is Ok {
            "success"@
        } else {
            "error"@
        }),
{
    match result {
        Ok(_) => "success",
        Err(_) => "error",
    }
}

/// One item of a stream of replies: a reply is passed on, and so is a refusal,
/// which ends the stream.
pub fn predict_stream(result: Result<PredictResponse, Status>) -> (item: Result<
    PredictStreamResponse,
    Status,
>)
    ensures
        item == stream_item(result),
{
    match result {
        Ok(response) => Ok(
            PredictStreamResponse {
                entity_id: response.entity_id,
                outputs: response.outputs,
                timestamp_ms: response.timestamp_ms,
            },
        ),
        Err(status) => Err(status),
    }
}

/// True if a stream goes on after this item: it ends with the first refusal.
pub fn stream_goes_on(item: &Result<PredictStreamResponse, Status>) -> (on: bool)
    ensures
        on == (item is Ok),
{
    item.is_ok()
}

/// Position of the first refusal among the results of a stream, or the number
/// of results if there is none.
pub open spec fn first_refusal(results: Seq<Result<PredictResponse, Status>>) -> int
    decreases results.len(),
{
    if results.len() == 0 || results[0] is Err {
        0
    } else {
        1 + first_refusal(results.skip(1))
    }
}

/// The item of a stream that a result becomes.
pub open spec fn stream_item(result: Result<PredictResponse, Status>) -> Result<
    PredictStreamResponse,
    Status,
> {
    match result {
        Ok(response) => Ok(
            PredictStreamResponse {
                entity_id: response.entity_id,
                outputs: response.outputs,
                timestamp_ms: response.timestamp_ms,
            },
        ),
        Err(status) => Err(status),
    }
}

/// The items that a stream sends for a sequence of results: one for each, as
/// long as the stream goes on.
pub open spec fn stream_items(results: Seq<Result<PredictResponse, Status>>) -> Seq<
    Result<PredictStreamResponse, Status>,
>
    decreases results.len(),
{
    if results.len() == 0 {
        Seq::empty()
    } else if stream_item(results[0]) is Ok {
        seq![stream_item(results[0])] + stream_items(results.skip(1))
    } else {
        seq![stream_item(results[0])]
    }
}

/// Law: a stream sends one item for every result up to the first refusal, and
/// that refusal last.
pub proof fn law_stream_ends_at_first_refusal(results: Seq<Result<PredictResponse, Status>>)
    ensures
        ({
            let items = stream_items(results);
            let end = first_refusal(results);
            &&& 0 <= end <= results.len()
            &&& items.len() == (if end < results.len() {
                end + 1
            } else {
                end
            })
            &&& forall|i: int| 0 <= i < items.len() ==> #[trigger] items[i] == stream_item(results[i])
            &&& forall|i: int| 0 <= i < end ==> #[trigger] items[i] is Ok
            &&& end < results.len() ==> results[end] is Err && items.last()
                == Err::<PredictStreamResponse, Status>(results[end]->Err_0)
        }),
    decreases results.len(),
{
    if results.len() > 0 && results[0] is Ok {
        let rest = results.skip(1);
        law_stream_ends_at_first_refusal(rest);
        let items = stream_items(results);
        assert forall|i: int| 0 <= i < items.len() implies #[trigger] items[i] == stream_item(
            results[i],
        ) by {
            if i > 0 {
                assert(items[i] == stream_items(rest)[i - 1]);
                assert(rest[i - 1] == results[i]);
            }
        }
        assert forall|i: int| 0 <= i < first_refusal(results) implies #[trigger] items[i] is Ok by {
            if i > 0 {
                assert(items[i] == stream_items(rest)[i - 1]);
            }
        }
    }
}

/// Law: without enforcement, features that were found are never refused.
pub proof fn law_no_enforcement_no_refusal(
    server: InferenceServer,
    entity_id: Seq<char>,
    age_ms: i64,
    schema_version: u32,
)
    requires
        server.freshness is None || server.freshness->Some_0.on_stale == FreshnessAction::Flag,
        server.expected_schema_version is None,
    ensures
        server.hit_refusal(entity_id, age_ms, schema_version) is None,
{
}

/// Law: fresh features of the expected schema version are never refused,
/// whatever is enforced.
pub proof fn law_fresh_and_matching_is_served(
    server: InferenceServer,
    entity_id: Seq<char>,
    age_ms: i64,
    schema_version: u32,
)
    requires
        server.freshness is Some ==> (age_ms as u64) <= server.freshness->Some_0.max_feature_age_ms,
        server.expected_schema_version is Some ==> server.expected_schema_version->Some_0
            == schema_version,
    ensures
        server.hit_refusal(entity_id, age_ms, schema_version) is None,
{
}

/// Law: features that carry another schema version than the expected one are
/// never served.
pub proof fn law_schema_mismatch_is_refused(
    server: InferenceServer,
    entity_id: Seq<char>,
    age_ms: i64,
    schema_version: u32,
)
    requires
        server.expected_schema_version is Some,
        server.expected_schema_version->Some_0 != schema_version,
    ensures
        server.hit_refusal(entity_id, age_ms, schema_version) is Some,
        server.hit_refusal(entity_id, age_ms, schema_version)->Some_0.code
            == Code::FailedPrecondition,
{
}

/// Law: a request that brings its features is never sent to the feature store.
pub proof fn law_inline_features_bypass_store(
    pad: ScratchpadView,
    entity_id: Seq<char>,
    features: Seq<F32>,
    now_ms: i64,
)
    requires
        features.len() > 0,
    ensures
        !(received(pad, entity_id, features, now_ms) is Store),
        received(pad, entity_id, features, now_ms) is Inline ==> received(
            pad,
            entity_id,
            features,
            now_ms,
        )->Inline_0.input.elements == features,
{
}

/// Law: a prediction is logged exactly if the pipeline succeeded and the
/// prediction was sampled, and then with the features that were served.
pub proof fn law_logged_iff_sampled_and_served(
    server: InferenceServer,
    inference: Inference,
    pad: ScratchpadView,
    ran: Result<(), String>,
    step: Step,
)
    requires
        server.answers(inference, pad, ran, step),
    ensures
        step is ReplyAndLog <==> ran is Ok && inference.sampled is Some,
        step is ReplyAndLog ==> step->ReplyAndLog_1.features@ == inference.sampled->Some_0@,
        step.phase() == Phase::Done,
{
}

/// Law: a reply about a request names the entity that was asked about, and the
/// time at which the request was taken in.
pub proof fn law_reply_names_the_request(
    server: InferenceServer,
    inference: Inference,
    pad: ScratchpadView,
    ran: Result<(), String>,
    step: Step,
)
    requires
        server.answers(inference, pad, ran, step),
    ensures
        step matches Step::Reply(Ok(response)) ==> response.entity_id@ == inference.entity_id@
            && response.timestamp_ms == pad.timestamp_ms,
        step matches Step::ReplyAndLog(response, record) ==> response.entity_id@
            == inference.entity_id@ && response.timestamp_ms == pad.timestamp_ms
            && record.entity_id@ == inference.entity_id@ && record.predict_time_ms
            == pad.timestamp_ms,
{
}

/// Law: the record of a prediction for which no features were found has a blank
/// header, whatever came with the miss.
pub proof fn law_miss_is_logged_blank(
    server: InferenceServer,
    inference: Inference,
    header: RecordHeader,
    pad: ScratchpadView,
    ran: Result<(), String>,
    step: Step,
)
    requires
        inference.header == kept_header(Ok(FetchResult::Miss), header),
        server.answers(inference, pad, ran, step),
    ensures
        step matches Step::ReplyAndLog(_, record) ==> record.schema_version == 0
            && record.event_time_ms == 0,
{
}

/// Law: a request without stored features runs on zeros, whatever an earlier
/// request had left in the scratchpad.
pub proof fn law_miss_runs_on_zeros(
    pad: ScratchpadView,
    entity_id: Seq<char>,
    now_ms: i64,
    i: int,
)
    requires
        0 <= i < pad.input.elements.len(),
    ensures
        pad.blank().identified(entity_id, now_ms).input.axes == pad.input.axes,
        pad.blank().identified(entity_id, now_ms).input.elements.len()
            == pad.input.elements.len(),
        pad.blank().identified(entity_id, now_ms).input.elements[i] == (F32 { bits: 0 }),
        pad.blank().identified(entity_id, now_ms).entity_id == entity_id,
{
    assert(Seq::<char>::empty() + entity_id =~= entity_id);
}

/// The response of a step that answers a request with success.
pub open spec fn reply_of(step: Step) -> Option<PredictResponse> {
    match step {
        Step::Reply(Ok(response)) => Some(response),
        Step::ReplyAndLog(response, _) => Some(response),
        _ => None,
    }
}

/// Law: a reply has one tensor for every output buffer, in order: under the name
/// of the buffer, with the length of every axis, and with every one of its
/// elements in its place.
pub proof fn law_reply_shows_every_output(
    server: InferenceServer,
    inference: Inference,
    pad: ScratchpadView,
    ran: Result<(), String>,
    step: Step,
    i: int,
    k: int,
)
    requires
        server.answers(inference, pad, ran, step),
        0 <= i < pad.outputs.len(),
    ensures
        reply_of(step) is Some <==> ran is Ok,
        ran is Ok ==> {
            let outputs = reply_of(step)->Some_0.outputs@;
            &&& outputs.len() == pad.outputs.len()
            &&& outputs[i].name@ == pad.outputs[i].name
            &&& outputs[i].shape@.len() == pad.outputs[i].data.axes.len()
            &&& 0 <= k < pad.outputs[i].data.axes.len() && pad.outputs[i].data.axes[k] <= i64::MAX
                ==> outputs[i].shape@[k] == pad.outputs[i].data.axes[k]
            &&& outputs[i].values@.len() == pad.outputs[i].data.elements.len()
            &&& 0 <= k < pad.outputs[i].data.elements.len() ==> outputs[i].values@[k]
                == pad.outputs[i].data.elements[k]
        },
{
    let outputs = reply_of(step)->Some_0.outputs@;
    if ran is Ok {
        assert(outputs[i].shows(pad.outputs[i]));
    }
}

/// Law: a tensor that has as many elements as its axes give has as many in the
/// reply as the replied shape gives.
pub proof fn law_reply_fills_its_shape(tensor: OutputTensor, output: OutputView)
    requires
        tensor.shows(output),
        output.data.elements.len() == crate::types::volume(output.data.axes),
        forall|k: int|
            0 <= k < output.data.axes.len() ==> #[trigger] output.data.axes[k] <= i64::MAX,
    ensures
        tensor.values@.len() == crate::types::volume(
            tensor.shape@.map_values(|dim: i64| dim as usize),
        ),
{
    let axes = tensor.shape@.map_values(|dim: i64| dim as usize);
    assert forall|k: int| 0 <= k < axes.len() implies axes[k] == output.data.axes[k] by {
        assert(output.data.axes[k] <= i64::MAX);
    }
    assert(axes =~= output.data.axes);
}

/// Law: a pipeline that fails is answered with its message and nothing else.
pub proof fn law_failed_pipeline_is_reported(
    server: InferenceServer,
    inference: Inference,
    pad: ScratchpadView,
    cause: String,
    step: Step,
)
    requires
        server.answers(inference, pad, Err(cause), step),
    ensures
        step matches Step::Reply(Err(status)) && status.code == Code::Internal && status.message@
            == "pipeline error: "@ + cause@,
{
}

/// Law: a logged record names the entity and the served model, carries the
/// header of the features and the time of the request, the features as they were
/// sampled and every element of the first output, and no request identifier.
pub proof fn law_record_is_complete(
    server: InferenceServer,
    inference: Inference,
    pad: ScratchpadView,
    ran: Result<(), String>,
    step: Step,
    k: int,
)
    requires
        server.answers(inference, pad, ran, step),
    ensures
        step matches Step::ReplyAndLog(_, record) ==> {
            &&& record.entity_id@ == inference.entity_id@
            &&& record.model_name@ == server.model_name@
            &&& record.model_version@ == server.model_version@
            &&& record.schema_version == inference.header.schema_version
            &&& record.event_time_ms == inference.header.event_time_ms
            &&& record.predict_time_ms == pad.timestamp_ms
            &&& record.features@ == inference.sampled->Some_0@
            &&& pad.outputs.len() == 0 ==> record.output@.len() == 0
            &&& pad.outputs.len() > 0 ==> record.output@.len()
                == pad.outputs[0].data.elements.len()
            &&& pad.outputs.len() > 0 && 0 <= k < pad.outputs[0].data.elements.len()
                ==> record.output@[k] == pad.outputs[0].data.elements[k]
            &&& record.request_id@.len() == 0
        },
{
}

/// Law: the age of features is the time from their computation to the request,
/// and zero if the clocks put the computation later.
pub proof fn law_age_is_the_elapsed_time(timestamp_ms: i64, event_time_ms: i64)
    requires
        timestamp_ms - event_time_ms <= i64::MAX,
    ensures
        timestamp_ms >= event_time_ms ==> feature_age(timestamp_ms, event_time_ms) == timestamp_ms
            - event_time_ms,
        timestamp_ms < event_time_ms ==> feature_age(timestamp_ms, event_time_ms) == 0,
{
}

/// Law: features that were found are refused exactly if they are to be rejected
/// when stale and the time from their computation to the request exceeds the
/// bound, or if they do not have the expected schema version. Age is looked at
/// first.
pub proof fn law_what_found_features_are_refused_for(
    server: InferenceServer,
    entity_id: Seq<char>,
    timestamp_ms: i64,
    header: RecordHeader,
)
    requires
        i64::MIN <= timestamp_ms - header.event_time_ms <= i64::MAX,
    ensures
        ({
            let refusal = server.fetch_refusal(
                entity_id,
                timestamp_ms,
                Ok(FetchResult::Hit),
                header,
            );
            let elapsed = timestamp_ms - header.event_time_ms;
            let stale = server.freshness matches Some(freshness) && freshness.on_stale
                == FreshnessAction::Reject && elapsed > freshness.max_feature_age_ms;
            let foreign = server.expected_schema_version matches Some(expected) && expected
                != header.schema_version;
            &&& refusal is Some <==> stale || foreign
            &&& refusal is Some ==> refusal->Some_0.code == Code::FailedPrecondition
            &&& stale ==> refusal->Some_0.message == "features stale for entity '"@ + entity_id
                + "': age "@ + crate::text::integer_text(elapsed) + "ms exceeds max "@
                + crate::text::natural_text(
                server.freshness->Some_0.max_feature_age_ms as nat,
            ) + "ms"@
            &&& !stale && foreign ==> refusal->Some_0.message
                == "schema_version mismatch for entity '"@ + entity_id + "': model trained on "@
                + crate::text::natural_text(server.expected_schema_version->Some_0 as nat)
                + ", served record is "@ + crate::text::natural_text(header.schema_version as nat)
        }),
{
}

/// Law: for features that were found the fetch and the time from their
/// computation to the request are observed, and a refusal for the schema version
/// is counted, but not if they are too old anyway.
pub proof fn law_what_is_observed_of_found_features(
    server: InferenceServer,
    timestamp_ms: i64,
    header: RecordHeader,
)
    requires
        i64::MIN <= timestamp_ms - header.event_time_ms <= i64::MAX,
    ensures
        ({
            let events = server.fetch_events(timestamp_ms, Ok(FetchResult::Hit), header);
            let elapsed = timestamp_ms - header.event_time_ms;
            let stale = server.freshness matches Some(freshness) && freshness.on_stale
                == FreshnessAction::Reject && elapsed > freshness.max_feature_age_ms;
            let foreign = server.expected_schema_version matches Some(expected) && expected
                != header.schema_version;
            &&& events.len() == (if foreign && !stale {
                3int
            } else {
                2
            })
            &&& events[0] == MetricEvent::StoreFetched
            &&& events[1] == MetricEvent::FeatureAge(
                (if elapsed < 0 {
                    0
                } else {
                    elapsed
                }) as i64,
            )
            &&& foreign && !stale ==> events[2] == MetricEvent::SchemaVersionReject
        }),
{
}

/// Law: older features are not accepted where younger ones of the same schema
/// version are refused, and a larger bound refuses nothing that a smaller one
/// accepts.
pub proof fn law_younger_is_never_worse(
    strict: InferenceServer,
    lenient: InferenceServer,
    entity_id: Seq<char>,
    timestamp_ms: i64,
    older: RecordHeader,
    younger: RecordHeader,
)
    requires
        strict.freshness is Some,
        lenient.freshness is Some,
        strict.freshness->Some_0.on_stale == lenient.freshness->Some_0.on_stale,
        strict.freshness->Some_0.max_feature_age_ms
            <= lenient.freshness->Some_0.max_feature_age_ms,
        strict.expected_schema_version == lenient.expected_schema_version,
        older.schema_version == younger.schema_version,
        older.event_time_ms <= younger.event_time_ms,
        i64::MIN <= timestamp_ms - older.event_time_ms <= i64::MAX,
        i64::MIN <= timestamp_ms - younger.event_time_ms <= i64::MAX,
        strict.fetch_refusal(entity_id, timestamp_ms, Ok(FetchResult::Hit), older) is None,
    ensures
        lenient.fetch_refusal(entity_id, timestamp_ms, Ok(FetchResult::Hit), younger) is None,
{
}

/// Law: a miss is never refused, and is counted; a store that failed makes the
/// service unavailable, with the store's message, and nothing is counted.
pub proof fn law_misses_and_failures_of_the_store(
    server: InferenceServer,
    entity_id: Seq<char>,
    timestamp_ms: i64,
    error: StoreError,
    header: RecordHeader,
)
    ensures
        server.fetch_refusal(entity_id, timestamp_ms, Ok(FetchResult::Miss), header) is None,
        server.fetch_events(timestamp_ms, Ok(FetchResult::Miss), header) == seq![
            MetricEvent::StoreFetched,
            MetricEvent::StoreMiss,
        ],
        server.fetch_refusal(entity_id, timestamp_ms, Err(error), header) == Some(
            StatusView {
                code: Code::Unavailable,
                message: "feature store error: "@ + error.message_text(),
            },
        ),
        server.fetch_events(timestamp_ms, Err(error), header).len() == 0,
{
}

/// Law: only what was found has a header to keep.
pub proof fn law_header_of_found_features_is_kept(
    fetched: Result<FetchResult, StoreError>,
    header: RecordHeader,
)
    ensures
        fetched matches Ok(FetchResult::Hit) ==> kept_header(fetched, header) == header,
        !(fetched matches Ok(FetchResult::Hit)) ==> kept_header(fetched, header).schema_version
            == 0 && kept_header(fetched, header).event_time_ms == 0,
{
}

/// Law: a request is refused exactly if the identifier does not fit behind what
/// the scratchpad names, or if it brings features, but not as many as the input
/// takes. Either refusal blames the request, and says which it is.
pub proof fn law_what_requests_are_refused(
    pad: ScratchpadView,
    entity_id: Seq<char>,
    features: Seq<F32>,
    now_ms: i64,
)
    ensures
        ({
            let outcome = received(pad, entity_id, features, now_ms);
            let too_long = crate::types::byte_len(pad.entity_id) + crate::types::byte_len(entity_id)
                > 128;
            let wrong_count = features.len() != 0 && features.len() != pad.input.elements.len();
            &&& outcome is Refused <==> too_long || wrong_count
            &&& outcome is Refused ==> outcome->Refused_0.code == Code::InvalidArgument
            &&& too_long ==> outcome->Refused_0.message == "entity_id exceeds maximum length"@
                && outcome->Refused_1 == pad
            &&& !too_long && wrong_count ==> outcome->Refused_0.message == "expected "@
                + crate::text::natural_text(pad.input.elements.len()) + " features, got "@
                + crate::text::natural_text(features.len())
            &&& !too_long && wrong_count ==> {
                &&& outcome->Refused_1.entity_id == pad.entity_id + entity_id
                &&& outcome->Refused_1.timestamp_ms == now_ms
                &&& outcome->Refused_1.request_id == pad.request_id
                &&& outcome->Refused_1.input == pad.input
                &&& outcome->Refused_1.outputs == pad.outputs
            }
            &&& outcome is Store <==> !too_long && features.len() == 0
            &&& outcome is Inline <==> !too_long && features.len() != 0 && features.len()
                == pad.input.elements.len()
        }),
{
}

/// Law: a request that is taken is named in the scratchpad, with the time of its
/// receipt; features that it brings become the input, and otherwise the input is
/// left as it is, and so is everything else.
pub proof fn law_taken_request_is_in_the_scratchpad(
    pad: ScratchpadView,
    entity_id: Seq<char>,
    features: Seq<F32>,
    now_ms: i64,
)
    requires
        !(received(pad, entity_id, features, now_ms) is Refused),
    ensures
        ({
            let outcome = received(pad, entity_id, features, now_ms);
            let taken = match outcome {
                Received::Inline(taken) => taken,
                Received::Store(taken) => taken,
                Received::Refused(_, taken) => taken,
            };
            &&& taken.entity_id == pad.entity_id + entity_id
            &&& taken.timestamp_ms == now_ms
            &&& taken.request_id == pad.request_id
            &&& taken.outputs == pad.outputs
            &&& taken.input.axes == pad.input.axes
            &&& taken.input.elements == (if features.len() > 0 {
                features
            } else {
                pad.input.elements
            })
        }),
{
}

/// Law: once the features are in, a ticket is drawn if predictions are logged,
/// and otherwise the pipeline runs; each step belongs to its phase, and so does
/// what can come of it.
pub proof fn law_steps_and_phases(
    server: InferenceServer,
    reply: Result<PredictResponse, Status>,
    response: PredictResponse,
    record: PredictionRecord,
    fetched: Result<FetchResult, StoreError>,
    header: RecordHeader,
    ticket: u64,
    ran: Result<(), String>,
)
    ensures
        server.step_with_features() == (if server.predictions is Some {
            Step::Draw
        } else {
            Step::Run
        }),
        Step::Fetch.phase() == Phase::Fetching,
        Step::Draw.phase() == Phase::Drawing,
        Step::Run.phase() == Phase::Running,
        Step::Reply(reply).phase() == Phase::Done,
        Step::ReplyAndLog(response, record).phase() == Phase::Done,
        Happened::Fetched(fetched, header).phase() == Phase::Fetching,
        Happened::Drew(ticket).phase() == Phase::Drawing,
        Happened::Ran(ran).phase() == Phase::Running,
{
}

/// Law: a step refuses a request with a status exactly if it replies with that
/// code and that message.
pub proof fn law_refusal_is_a_reply(code: Code, message: String, step: Step)
    ensures
        Step::Reply(Err(Status { code, message })).refuses(StatusView { code, message: message@ }),
        forall|status: StatusView| #[trigger]
            step.refuses(status) ==> step is Reply && step->Reply_0 is Err
                && step->Reply_0->Err_0.code == status.code && step->Reply_0->Err_0.message@
                == status.message,
{
}

/// Law: an item of a stream is the reply, field by field, or the refusal.
pub proof fn law_stream_item_is_the_result(result: Result<PredictResponse, Status>)
    ensures
        stream_item(result) is Ok <==> result is Ok,
        result matches Ok(response) ==> stream_item(result)->Ok_0.entity_id == response.entity_id
            && stream_item(result)->Ok_0.outputs == response.outputs
            && stream_item(result)->Ok_0.timestamp_ms == response.timestamp_ms,
        result matches Err(status) ==> stream_item(result)->Err_0 == status,
{
}

/// Law: the first refusal of a stream is a refusal, and nothing before it is.
pub proof fn law_first_refusal_comes_first(
    results: Seq<Result<PredictResponse, Status>>,
    i: int,
)
    requires
        0 <= i <= results.len(),
        forall|j: int| 0 <= j < i ==> #[trigger] results[j] is Ok,
        i < results.len() ==> results[i] is Err,
    ensures
        first_refusal(results) == i,
    decreases results.len(),
{
    if i > 0 {
        let rest = results.skip(1);
        assert(results[0] is Ok);
        assert forall|j: int| 0 <= j < i - 1 implies #[trigger] rest[j] is Ok by {
            assert(rest[j] == results[j + 1]);
        }
        if i < results.len() {
            assert(rest[i - 1] == results[i]);
        }
        law_first_refusal_comes_first(rest, i - 1);
    }
}

/// Law: the labels of the procedures.
pub proof fn law_labels()
    ensures
        Rpc::Predict.label_text() == "predict"@,
        Rpc::PredictStream.label_text() == "predict_stream"@,
{
}

/// Law: a request that brings its features is answered, once all stages have
/// run, about the entity that it named and with the time of its receipt, on a
/// pipeline that started from the features it brought.
pub proof fn law_inline_request_is_answered<B: crate::backend::Backend>(
    server: InferenceServer,
    inference: Inference,
    pad: ScratchpadView,
    entity_id: Seq<char>,
    features: Seq<F32>,
    now_ms: i64,
    stages: Seq<crate::pipeline::build::PlannedStage>,
    backend: B,
    pads: Seq<ScratchpadView>,
    step: Step,
)
    requires
        features.len() > 0,
        received(pad, entity_id, features, now_ms) == Received::Inline(pads[0]),
        inference.entity_id@ == entity_id,
        crate::pipeline::run::has_run(stages, backend, pads),
        server.answers(inference, pads.last(), Ok(()), step),
    ensures
        pads[0].input.elements == features,
        reply_of(step) is Some,
        reply_of(step)->Some_0.entity_id@ == entity_id,
        reply_of(step)->Some_0.timestamp_ms == now_ms,
        reply_of(step)->Some_0.outputs@.len() == pad.outputs.len(),
        forall|i: int|
            0 <= i < pad.outputs.len() ==> (#[trigger] reply_of(step)->Some_0.outputs@[i]).name@
                == pad.outputs[i].name && reply_of(step)->Some_0.outputs@[i].values@
                == pads.last().outputs[i].data.elements,
{
    crate::pipeline::run::law_pipeline_keeps_identity(
        stages,
        backend,
        pads,
        stages.len() as int,
    );
    assert forall|i: int| 0 <= i < pad.outputs.len() implies (#[trigger] reply_of(
        step,
    )->Some_0.outputs@[i]).name@ == pad.outputs[i].name && reply_of(
        step,
    )->Some_0.outputs@[i].values@ == pads.last().outputs[i].data.elements by {
        assert(reply_of(step)->Some_0.outputs@[i].shows(pads.last().outputs[i]));
        assert(pads.last().outputs[i].declared_as(pads[0].outputs[i]));
    }
}

/// Law: what happened can be taken up unless features were found whose distance
/// in time from the request is too large for 64 bits.
pub proof fn law_what_has_an_age(
    fetched: Result<FetchResult, StoreError>,
    header: RecordHeader,
    timestamp_ms: i64,
    ticket: u64,
    ran: Result<(), String>,
)
    ensures
        Happened::Drew(ticket).has_age(timestamp_ms),
        Happened::Ran(ran).has_age(timestamp_ms),
        Happened::Fetched(fetched, header).has_age(timestamp_ms) <==> !(fetched matches Ok(
            FetchResult::Hit,
        )) || -0x8000_0000_0000_0000 <= timestamp_ms - header.event_time_ms
            <= 0x7fff_ffff_ffff_ffff,
{
}

/// Law: the refusals of stored features name the entity and both numbers.
pub proof fn law_texts_of_refusals(
    entity_id: Seq<char>,
    age_ms: i64,
    limit: u64,
    expected: u32,
    got: u32,
    counts: (nat, nat),
)
    ensures
        stale_status(entity_id, age_ms, limit).code == Code::FailedPrecondition,
        stale_status(entity_id, age_ms, limit).message == "features stale for entity '"@ + entity_id
            + "': age "@ + crate::text::integer_text(age_ms as int) + "ms exceeds max "@
            + crate::text::natural_text(limit as nat) + "ms"@,
        schema_status(entity_id, expected, got).code == Code::FailedPrecondition,
        schema_status(entity_id, expected, got).message == "schema_version mismatch for entity '"@
            + entity_id + "': model trained on "@ + crate::text::natural_text(expected as nat)
            + ", served record is "@ + crate::text::natural_text(got as nat),
        feature_count_message(counts.0, counts.1) == "expected "@ + crate::text::natural_text(
            counts.0,
        ) + " features, got "@ + crate::text::natural_text(counts.1),
{
}

/// Law: a status is seen as its code and its message.
pub proof fn law_status_is_seen_as_it_is(status: Status)
    ensures
        status@.code == status.code,
        status@.message == status.message@,
{
}

/// Law: a request for stored features is answered, once they have been found and
/// accepted and all stages have run, about the entity that it named and with the
/// time of its receipt, on a pipeline that started from the features that were
/// written into the input.
pub proof fn law_stored_request_is_answered<B: crate::backend::Backend>(
    server: InferenceServer,
    inference: Inference,
    pad: ScratchpadView,
    taken: ScratchpadView,
    entity_id: Seq<char>,
    stored: Seq<F32>,
    now_ms: i64,
    stages: Seq<crate::pipeline::build::PlannedStage>,
    backend: B,
    pads: Seq<ScratchpadView>,
    step: Step,
)
    requires
        received(pad, entity_id, Seq::<F32>::empty(), now_ms) == Received::Store(taken),
        pads[0] == taken.with_input(stored),
        inference.entity_id@ == entity_id,
        crate::pipeline::run::has_run(stages, backend, pads),
        server.answers(inference, pads.last(), Ok(()), step),
    ensures
        pads[0].input.elements == stored,
        reply_of(step) is Some,
        reply_of(step)->Some_0.entity_id@ == entity_id,
        reply_of(step)->Some_0.timestamp_ms == now_ms,
        reply_of(step)->Some_0.outputs@.len() == pad.outputs.len(),
        forall|i: int|
            0 <= i < pad.outputs.len() ==> (#[trigger] reply_of(step)->Some_0.outputs@[i]).name@
                == pad.outputs[i].name && reply_of(step)->Some_0.outputs@[i].values@
                == pads.last().outputs[i].data.elements,
{
    crate::pipeline::run::law_pipeline_keeps_identity(
        stages,
        backend,
        pads,
        stages.len() as int,
    );
    assert forall|i: int| 0 <= i < pad.outputs.len() implies (#[trigger] reply_of(
        step,
    )->Some_0.outputs@[i]).name@ == pad.outputs[i].name && reply_of(
        step,
    )->Some_0.outputs@[i].values@ == pads.last().outputs[i].data.elements by {
        assert(reply_of(step)->Some_0.outputs@[i].shows(pads.last().outputs[i]));
        assert(pads.last().outputs[i].declared_as(pads[0].outputs[i]));
    }
}

} // verus!
