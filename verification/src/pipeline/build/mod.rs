//! Lays out the pipeline and the scratchpad that a config describes.
//!
//! A [`StagePlan`] says what a stage does, under which label it is observed, and
//! which wrappers are put around it.

use arrayvec::ArrayString;
use vstd::prelude::*;

use crate::config::{nonpositive_dimension, Config, StageConfig, StageObservability, TensorSpec};
use crate::numeric::F32;
use crate::pipeline::stages::clip::ClipStage;
use crate::pipeline::stages::impute::ImputeStage;
use crate::pipeline::stages::normalize::NormalizeStage;
use crate::pipeline::stages::postprocess::PostprocessStage;
use crate::pipeline::stages::validate::ValidateStage;
use crate::pipeline::{InferenceScratchpad, ScratchpadView};
use crate::text::{push_integer, push_size};
use crate::types::{
    id_new, name_from, OutputBuffer, OutputView, Tensor, TensorView, MAX_TENSOR_NAME_LEN,
};

verus! {

/// Why a pipeline or a scratchpad cannot be built.
#[allow(inconsistent_fields)]
#[non_exhaustive]
#[derive(Debug)]
pub enum BuildError {
    /// No stage runs inference.
    NoInferStage,
    /// A postprocess stage comes before inference.
    PostprocessBeforeInfer,
    /// An impute stage comes after validation.
    ImputeAfterValidate,
    /// A validate stage expects no dimensions.
    EmptyShape,
    /// A validate stage expects a dimension that is not positive.
    NonPositiveDimension(i64),
    /// The bounds of a clip stage leave no range between them.
    EmptyRange {
        /// Lower bound.
        min: F32,
        /// Upper bound.
        max: F32,
    },
    /// The name of the input tensor is too long.
    InputNameTooLong(String),
    /// The name of an output tensor is too long.
    OutputNameTooLong(String),
}

/// What a [`BuildError`] says, with names as texts.
pub enum BuildRefusal {
    /// No stage runs inference.
    NoInferStage,
    /// A postprocess stage comes before inference.
    PostprocessBeforeInfer,
    /// An impute stage comes after validation.
    ImputeAfterValidate,
    /// A validate stage expects no dimensions.
    EmptyShape,
    /// A validate stage expects a dimension that is not positive.
    NonPositiveDimension(i64),
    /// The bounds of a clip stage leave no range between them.
    EmptyRange(F32, F32),
    /// The name of the input tensor is too long.
    InputNameTooLong(Seq<char>),
    /// The name of an output tensor is too long.
    OutputNameTooLong(Seq<char>),
}

impl View for BuildError {
    type V = BuildRefusal;

    open spec fn view(&self) -> BuildRefusal {
        match *self {
            BuildError::NoInferStage => BuildRefusal::NoInferStage,
            BuildError::PostprocessBeforeInfer => BuildRefusal::PostprocessBeforeInfer,
            BuildError::ImputeAfterValidate => BuildRefusal::ImputeAfterValidate,
            BuildError::EmptyShape => BuildRefusal::EmptyShape,
            BuildError::NonPositiveDimension(dim) => BuildRefusal::NonPositiveDimension(dim),
            BuildError::EmptyRange { min, max } => BuildRefusal::EmptyRange(min, max),
            BuildError::InputNameTooLong(name) => BuildRefusal::InputNameTooLong(name@),
            BuildError::OutputNameTooLong(name) => BuildRefusal::OutputNameTooLong(name@),
        }
    }
}

impl BuildError {
    /// The rendered error, in which `min` and `max` stand for the bounds of an
    /// empty range.
    pub open spec fn message_text(self, min: Seq<char>, max: Seq<char>) -> Seq<char> {
        match self {
            BuildError::NoInferStage => "pipeline must contain an infer stage"@,
            BuildError::PostprocessBeforeInfer =>
                "pipeline: postprocess stage must come after infer"@,
            BuildError::ImputeAfterValidate => "pipeline: impute stage must come before validate"@,
            BuildError::EmptyShape => "validate stage: expected_shape must not be empty"@,
            BuildError::NonPositiveDimension(dim) =>
                "validate stage: all dimensions must be positive, got "@
                + crate::text::integer_text(dim as int),
            BuildError::EmptyRange { .. } => "clip stage: "@ + crate::error::range_reason(min, max),
            BuildError::InputNameTooLong(name) => "infer stage: input tensor name '"@ + name@
                + "' exceeds "@ + crate::text::natural_text(MAX_TENSOR_NAME_LEN as nat) + " bytes"@,
            BuildError::OutputNameTooLong(name) => "output tensor name '"@ + name@ + "' exceeds "@
                + crate::text::natural_text(MAX_TENSOR_NAME_LEN as nat) + " bytes"@,
        }
    }

    /// Renders the error; `min` and `max` are the decimal renderings of the
    /// bounds of an empty range, and are not looked at for any other error.
    pub fn message(&self, min: &str, max: &str) -> (text: String)
        ensures
            text@ == self.message_text(min@, max@),
    {
        let mut out = String::new();
        match self {
            BuildError::NoInferStage => {
                out.append("pipeline must contain an infer stage");
            },
            BuildError::PostprocessBeforeInfer => {
                out.append("pipeline: postprocess stage must come after infer");
            },
            BuildError::ImputeAfterValidate => {
                out.append("pipeline: impute stage must come before validate");
            },
            BuildError::EmptyShape => {
                out.append("validate stage: expected_shape must not be empty");
            },
            BuildError::NonPositiveDimension(dim) => {
                out.append("validate stage: all dimensions must be positive, got ");
                push_integer(&mut out, *dim);
            },
            BuildError::EmptyRange { .. } => {
                out.append("clip stage: ");
                out.append(crate::error::render_range_reason(min, max).as_str());
            },
            BuildError::InputNameTooLong(name) => {
                out.append("infer stage: input tensor name '");
                out.append(name.as_str());
                out.append("' exceeds ");
                push_size(&mut out, MAX_TENSOR_NAME_LEN);
                out.append(" bytes");
            },
            BuildError::OutputNameTooLong(name) => {
                out.append("output tensor name '");
                out.append(name.as_str());
                out.append("' exceeds ");
                push_size(&mut out, MAX_TENSOR_NAME_LEN);
                out.append(" bytes");
            },
        }
        assert(out@ =~= self.message_text(min@, max@));
        out
    }
}

/// What a stage does.
#[derive(Debug)]
pub enum PlannedStage {
    /// Checks the input.
    Validate(ValidateStage),
    /// Normalises the input.
    Normalize(NormalizeStage),
    /// Clips the input.
    Clip(ClipStage),
    /// Fills in missing input values.
    Impute(ImputeStage),
    /// Runs the backend on the input of the given name.
    Infer(ArrayString<MAX_TENSOR_NAME_LEN>),
    /// Interprets the first output.
    Postprocess(PostprocessStage),
}

/// A wrapper around a stage.
#[derive(Clone, Copy, Debug, PartialEq, Eq, Structural)]
pub enum Layer {
    /// Runs the stage again after a failure, up to this many attempts in all.
    Retry(u32),
    /// Emits a tracing span per execution.
    Instrumented,
    /// Fails the stage if it takes longer than this many milliseconds.
    Deadline(u64),
    /// Records execution latency.
    Timed,
}

/// A stage of a pipeline, ready to be assembled.
#[derive(Debug)]
pub struct StagePlan {
    /// What the stage does.
    pub stage: PlannedStage,
    /// Label under which the stage is observed.
    pub label: &'static str,
    /// Wrappers around the stage, innermost first.
    pub layers: Vec<Layer>,
}

/// The wrappers that the observability options of a stage ask for, innermost
/// first: retries, then tracing, then the deadline, then timing. Timing is
/// outermost, so it measures total latency with retries.
pub open spec fn wanted_layers(options: StageObservability) -> Seq<Layer> {
    (if options.retries is Some {
        seq![Layer::Retry(options.retries->Some_0)]
    } else {
        Seq::empty()
    }) + (if options.instrumented == Some(true) {
        seq![Layer::Instrumented]
    } else {
        Seq::empty()
    }) + (if options.deadline_ms is Some {
        seq![Layer::Deadline(options.deadline_ms->Some_0)]
    } else {
        Seq::empty()
    }) + (if options.timed == Some(true) {
        seq![Layer::Timed]
    } else {
        Seq::empty()
    })
}

/// The wrappers that the observability options of a stage ask for.
fn wrap(options: &StageObservability) -> (layers: Vec<Layer>)
    ensures
        layers@ == wanted_layers(*options),
{
    let mut layers: Vec<Layer> = Vec::new();
    if let Some(attempts) = options.retries {
        layers.push(Layer::Retry(attempts));
    }
    if let Some(true) = options.instrumented {
        layers.push(Layer::Instrumented);
    }
    if let Some(budget) = options.deadline_ms {
        layers.push(Layer::Deadline(budget));
    }
    if let Some(true) = options.timed {
        layers.push(Layer::Timed);
    }
    assert(layers@ =~= wanted_layers(*options));
    layers
}

/// Axis lengths for declared dimensions.
pub open spec fn axes_of(shape: Seq<i64>) -> Seq<usize> {
    shape.map_values(|dim: i64| dim as usize)
}

impl StageConfig {
    /// The options that every stage has.
    pub open spec fn options(self) -> StageObservability {
        match self {
            StageConfig::Validate { observability, .. } => observability,
            StageConfig::Normalize { observability, .. } => observability,
            StageConfig::Clip { observability, .. } => observability,
            StageConfig::Impute { observability, .. } => observability,
            StageConfig::Infer { observability } => observability,
            StageConfig::Postprocess { observability, .. } => observability,
        }
    }
}

impl StagePlan {
    /// True if this plan does what a stage config asks for, the model's input
    /// tensor having the given name.
    pub open spec fn follows(self, config: StageConfig, input_name: Seq<char>) -> bool {
        &&& self.layers@ == wanted_layers(config.options())
        &&& match config {
            StageConfig::Validate { expected_shape, .. } => {
                &&& self.label@ == "validate"@
                &&& self.stage is Validate
                &&& self.stage->Validate_0.expected_shape@ == axes_of(expected_shape@)
            },
            StageConfig::Normalize { mean, std, .. } => {
                &&& self.label@ == "normalize"@
                &&& self.stage is Normalize
                &&& self.stage->Normalize_0.mean == mean
                &&& self.stage->Normalize_0.inv_std.is_reciprocal(std)
            },
            StageConfig::Clip { min, max, .. } => {
                &&& self.label@ == "clip"@
                &&& self.stage is Clip
                &&& self.stage->Clip_0.min == min
                &&& self.stage->Clip_0.max == max
            },
            StageConfig::Impute { default_value, .. } => {
                &&& self.label@ == "impute"@
                &&& self.stage is Impute
                &&& self.stage->Impute_0.default_value == default_value
            },
            StageConfig::Infer { .. } => {
                &&& self.label@ == "infer"@
                &&& self.stage is Infer
                &&& crate::types::name_text(self.stage->Infer_0) == input_name
            },
            StageConfig::Postprocess { threshold, output_type, .. } => {
                &&& self.label@ == "postprocess"@
                &&& self.stage is Postprocess
                &&& self.stage->Postprocess_0.threshold == threshold
                &&& self.stage->Postprocess_0.output_type == output_type
            },
        }
    }
}

/// The part that a stage has in the order of a pipeline.
pub enum StageKind {
    /// Validation.
    Validate,
    /// Imputation.
    Impute,
    /// Inference.
    Infer,
    /// Postprocessing.
    Postprocess,
    /// A stage that may stand anywhere.
    Other,
}

/// The part that a stage has in the order of a pipeline.
pub open spec fn kind_of(stage: StageConfig) -> StageKind {
    match stage {
        StageConfig::Validate { .. } => StageKind::Validate,
        StageConfig::Impute { .. } => StageKind::Impute,
        StageConfig::Infer { .. } => StageKind::Infer,
        StageConfig::Postprocess { .. } => StageKind::Postprocess,
        _ => StageKind::Other,
    }
}

/// Position of the first stage of a kind, or the number of stages if there is
/// none.
pub open spec fn first_of(stages: Seq<StageConfig>, kind: StageKind) -> int
    decreases stages.len(),
{
    if stages.len() == 0 || kind_of(stages[0]) == kind {
        0
    } else {
        1 + first_of(stages.skip(1), kind)
    }
}

/// Why the order of the stages is refused, if it is.
pub open spec fn ordering_refusal(stages: Seq<StageConfig>) -> Option<BuildRefusal> {
    let infer = first_of(stages, StageKind::Infer);
    let postprocess = first_of(stages, StageKind::Postprocess);
    let impute = first_of(stages, StageKind::Impute);
    let validate = first_of(stages, StageKind::Validate);
    if infer == stages.len() {
        Some(BuildRefusal::NoInferStage)
    } else if postprocess < infer {
        Some(BuildRefusal::PostprocessBeforeInfer)
    } else if validate < impute < stages.len() {
        Some(BuildRefusal::ImputeAfterValidate)
    } else {
        None
    }
}

/// Where the first stages of the kinds that matter stand.
struct FirstPositions {
    infer: usize,
    postprocess: usize,
    impute: usize,
    validate: usize,
}

/// Finds the first stages of the kinds that matter.
fn first_positions(stages: &Vec<StageConfig>) -> (found: FirstPositions)
    ensures
        found.infer == first_of(stages@, StageKind::Infer),
        found.postprocess == first_of(stages@, StageKind::Postprocess),
        found.impute == first_of(stages@, StageKind::Impute),
        found.validate == first_of(stages@, StageKind::Validate),
{
    let count = stages.len();
    let mut found = FirstPositions {
        infer: count,
        postprocess: count,
        impute: count,
        validate: count,
    };
    let ghost all = stages@;
    let mut i: usize = count;
    assert(all.skip(count as int).len() == 0);
    while i > 0
        invariant
            i <= count,
            all == stages@,
            count == all.len(),
            found.infer == i + first_of(all.skip(i as int), StageKind::Infer),
            found.postprocess == i + first_of(all.skip(i as int), StageKind::Postprocess),
            found.impute == i + first_of(all.skip(i as int), StageKind::Impute),
            found.validate == i + first_of(all.skip(i as int), StageKind::Validate),
        decreases i,
    {
        i = i - 1;
        assert(all.skip(i as int)[0] == all[i as int]);
        assert(all.skip(i as int).skip(1) =~= all.skip(i + 1));
        match stages[i] {
            StageConfig::Validate { .. } => {
                found.validate = i;
            },
            StageConfig::Impute { .. } => {
                found.impute = i;
            },
            StageConfig::Infer { .. } => {
                found.infer = i;
            },
            StageConfig::Postprocess { .. } => {
                found.postprocess = i;
            },
            _ => {},
        }
    }
    assert(all.skip(0) =~= all);
    found
}

/// Checks that the stage sequence makes sense: there is inference, no
/// postprocessing before it, and no imputation after validation.
pub fn validate_ordering(stages: &Vec<StageConfig>) -> (checked: Result<(), BuildError>)
    ensures
        checked is Ok <==> ordering_refusal(stages@) is None,
        checked is Err ==> Some(checked->Err_0@) == ordering_refusal(stages@),
{
    let found = first_positions(stages);
    if found.infer == stages.len() {
        return Err(BuildError::NoInferStage);
    }
    if found.postprocess < found.infer {
        return Err(BuildError::PostprocessBeforeInfer);
    }
    if found.validate < found.impute && found.impute < stages.len() {
        return Err(BuildError::ImputeAfterValidate);
    }
    Ok(())
}

/// Why a stage cannot be built, if it cannot, the model's input tensor having
/// the given name.
pub open spec fn stage_refusal(stage: StageConfig, input_name: Seq<char>) -> Option<BuildRefusal> {
    match stage {
        StageConfig::Validate { expected_shape, .. } => if expected_shape@.len() == 0 {
            Some(BuildRefusal::EmptyShape)
        } else if !crate::config::all_positive(expected_shape@) {
            Some(
                BuildRefusal::NonPositiveDimension(
                    expected_shape@[crate::config::first_nonpositive(expected_shape@)],
                ),
            )
        } else {
            None
        },
        StageConfig::Clip { min, max, .. } => if max.spec_le(min) {
            Some(BuildRefusal::EmptyRange(min, max))
        } else {
            None
        },
        StageConfig::Infer { .. } => if crate::types::byte_len(input_name) > MAX_TENSOR_NAME_LEN {
            Some(BuildRefusal::InputNameTooLong(input_name))
        } else {
            None
        },
        _ => None,
    }
}

/// Why the first stage that cannot be built cannot, if there is one.
pub open spec fn stages_refusal(stages: Seq<StageConfig>, input_name: Seq<char>) -> Option<
    BuildRefusal,
>
    decreases stages.len(),
{
    if stages.len() == 0 {
        None
    } else if stage_refusal(stages[0], input_name) is Some {
        stage_refusal(stages[0], input_name)
    } else {
        stages_refusal(stages.skip(1), input_name)
    }
}

/// The name of the input tensor that a config declares first.
pub open spec fn input_name_of(config: Config) -> Seq<char> {
    config.model_schema.inputs@[0].name@
}

/// Why the pipeline that a config describes cannot be built, if it cannot: the
/// order of the stages is looked at first, then the stages in order.
pub open spec fn build_refusal(config: Config) -> Option<BuildRefusal> {
    let stages = config.pipeline.stages@;
    if ordering_refusal(stages) is Some {
        ordering_refusal(stages)
    } else {
        stages_refusal(stages, input_name_of(config))
    }
}

/// True if the plan does what the config asks for, stage by stage in order.
pub open spec fn plan_follows(plan: Seq<StagePlan>, config: Config) -> bool {
    &&& plan.len() == config.pipeline.stages@.len()
    &&& forall|i: int|
        0 <= i < plan.len() ==> (#[trigger] plan[i]).follows(
            config.pipeline.stages@[i],
            input_name_of(config),
        )
}

/// Lays out the pipeline that a config describes, one plan per stage, in order.
///
/// A config without input tensors must be refused for another reason before its
/// inference stage is reached.
pub fn build(config: &Config) -> (built: Result<Vec<StagePlan>, BuildError>)
    requires
        config.model_schema.inputs@.len() > 0 || ordering_refusal(config.pipeline.stages@) is Some
            || stages_refusal(
            config.pipeline.stages@.take(first_of(config.pipeline.stages@, StageKind::Infer)),
            Seq::empty(),
        ) is Some,
    ensures
        built is Ok <==> build_refusal(*config) is None,
        built is Ok ==> plan_follows(built->Ok_0@, *config),
        built is Err ==> Some(built->Err_0@) == build_refusal(*config),
{
    match validate_ordering(&config.pipeline.stages) {
        Ok(()) => {},
        Err(error) => {
            return Err(error);
        },
    }
    let ghost stages = config.pipeline.stages@;
    let ghost input_name = input_name_of(*config);
    let ghost infer = first_of(stages, StageKind::Infer);
    let mut plan: Vec<StagePlan> = Vec::new();
    let count = config.pipeline.stages.len();
    assert(stages.skip(0) =~= stages);
    for i in 0..count
        invariant
            count == stages.len(),
            stages == config.pipeline.stages@,
            input_name == input_name_of(*config),
            infer == first_of(stages, StageKind::Infer),
            ordering_refusal(stages) is None,
            config.model_schema.inputs@.len() > 0 || stages_refusal(
                stages.take(infer),
                Seq::empty(),
            ) is Some,
            stages_refusal(stages, input_name) == stages_refusal(stages.skip(i as int), input_name),
            forall|j: int| 0 <= j < i ==> stage_refusal(#[trigger] stages[j], input_name) is None,
            plan@.len() == i,
            forall|j: int|
                0 <= j < i ==> (#[trigger] plan@[j]).follows(stages[j], input_name),
    {
        proof {
            assert(stages.skip(i as int)[0] == stages[i as int]);
            assert(stages.skip(i as int).skip(1) =~= stages.skip(i + 1));
            if stages[i as int] is Infer {
                lemma_first_of_bound(stages, StageKind::Infer, i as int);
                lemma_unrefused_before_infer(stages, input_name, infer);
            }
        }
        match build_stage(&config.pipeline.stages[i], &config.model_schema.inputs) {
            Ok(stage) => {
                plan.push(stage);
            },
            Err(error) => {
                return Err(error);
            },
        }
    }
    Ok(plan)
}

/// No stage of a kind stands before the first one.
proof fn lemma_first_of_bound(stages: Seq<StageConfig>, kind: StageKind, i: int)
    requires
        0 <= i < stages.len(),
        kind_of(stages[i]) == kind,
    ensures
        0 <= first_of(stages, kind) <= i,
        forall|j: int| 0 <= j < first_of(stages, kind) ==> kind_of(#[trigger] stages[j]) != kind,
    decreases stages.len(),
{
    if kind_of(stages[0]) != kind {
        let rest = stages.skip(1);
        assert(rest[i - 1] == stages[i]);
        lemma_first_of_bound(rest, kind, i - 1);
        assert forall|j: int| 0 <= j < first_of(stages, kind) implies kind_of(#[trigger] stages[j])
            != kind by {
            if j > 0 {
                assert(rest[j - 1] == stages[j]);
            }
        }
    }
}

/// Stages before inference are refused alike, whatever the input name.
proof fn lemma_unrefused_before_infer(stages: Seq<StageConfig>, input_name: Seq<char>, infer: int)
    requires
        0 <= infer <= stages.len(),
        forall|j: int|
            0 <= j < infer ==> kind_of(#[trigger] stages[j]) != StageKind::Infer,
        forall|j: int| 0 <= j < infer ==> stage_refusal(#[trigger] stages[j], input_name) is None,
    ensures
        stages_refusal(stages.take(infer), Seq::empty()) is None,
    decreases infer,
{
    if infer > 0 {
        let front = stages.take(infer);
        let rest = stages.skip(1);
        assert(front[0] == stages[0]);
        assert(front.skip(1) =~= rest.take(infer - 1));
        assert forall|j: int| 0 <= j < infer - 1 implies kind_of(#[trigger] rest[j])
            != StageKind::Infer && stage_refusal(rest[j], input_name) is None by {
            assert(rest[j] == stages[j + 1]);
        }
        lemma_unrefused_before_infer(rest, input_name, infer - 1);
    }
}

/// Lays out one stage.
fn build_stage(config: &StageConfig, inputs: &Vec<TensorSpec>) -> (built: Result<
    StagePlan,
    BuildError,
>)
    requires
        config is Infer ==> inputs@.len() > 0,
    ensures
        built is Ok <==> stage_refusal(*config, inputs@[0].name@) is None,
        built is Ok ==> built->Ok_0.follows(*config, inputs@[0].name@),
        built is Err ==> Some(built->Err_0@) == stage_refusal(*config, inputs@[0].name@),
{
    match config {
        StageConfig::Validate { expected_shape, observability } => {
            if expected_shape.len() == 0 {
                return Err(BuildError::EmptyShape);
            }
            if let Some(dim) = nonpositive_dimension(expected_shape) {
                return Err(BuildError::NonPositiveDimension(dim));
            }
            Ok(
                StagePlan {
                    stage: PlannedStage::Validate(
                        ValidateStage { expected_shape: to_axes(expected_shape) },
                    ),
                    label: "validate",
                    layers: wrap(observability),
                },
            )
        },
        StageConfig::Normalize { mean, std, observability } => Ok(
            StagePlan {
                stage: PlannedStage::Normalize(
                    NormalizeStage { mean: *mean, inv_std: std.reciprocal() },
                ),
                label: "normalize",
                layers: wrap(observability),
            },
        ),
        StageConfig::Clip { min, max, observability } => {
            if max.le(*min) {
                return Err(BuildError::EmptyRange { min: *min, max: *max });
            }
            Ok(
                StagePlan {
                    stage: PlannedStage::Clip(ClipStage { min: *min, max: *max }),
                    label: "clip",
                    layers: wrap(observability),
                },
            )
        },
        StageConfig::Impute { default_value, observability } => Ok(
            StagePlan {
                stage: PlannedStage::Impute(ImputeStage { default_value: *default_value }),
                label: "impute",
                layers: wrap(observability),
            },
        ),
        StageConfig::Infer { observability } => {
            let raw_name = inputs[0].name.as_str();
            match name_from(raw_name) {
                Some(input_name) => Ok(
                    StagePlan {
                        stage: PlannedStage::Infer(input_name),
                        label: "infer",
                        layers: wrap(observability),
                    },
                ),
                None => Err(BuildError::InputNameTooLong(raw_name.to_owned())),
            }
        },
        StageConfig::Postprocess { threshold, output_type, observability } => Ok(
            StagePlan {
                stage: PlannedStage::Postprocess(
                    PostprocessStage { threshold: *threshold, output_type: *output_type },
                ),
                label: "postprocess",
                layers: wrap(observability),
            },
        ),
    }
}

/// Axis lengths for declared dimensions.
pub fn to_axes(shape: &Vec<i64>) -> (axes: Vec<usize>)
    ensures
        axes@ == axes_of(shape@),
{
    let mut axes: Vec<usize> = Vec::new();
    let count = shape.len();
    for i in 0..count
        invariant
            count == shape@.len(),
            axes@ == axes_of(shape@).take(i as int),
    {
        axes.push(#[verifier::truncate] (shape[i] as usize));
        assert(axes_of(shape@).take(i + 1) =~= axes_of(shape@).take(i as int).push(
            axes_of(shape@)[i as int],
        ));
    }
    assert(axes_of(shape@).take(count as int) =~= axes_of(shape@));
    axes
}

/// Position of the first output whose name is too long, or the number of
/// outputs if there is none.
pub open spec fn first_long_name(outputs: Seq<TensorSpec>) -> int
    decreases outputs.len(),
{
    if outputs.len() == 0 || crate::types::byte_len(outputs[0].name@) > MAX_TENSOR_NAME_LEN {
        0
    } else {
        1 + first_long_name(outputs.skip(1))
    }
}

/// A tensor of zeros with the declared shape.
pub open spec fn zero_tensor(shape: Seq<i64>) -> TensorView {
    TensorView {
        axes: axes_of(shape),
        elements: Seq::new(
            crate::types::volume(axes_of(shape)) as nat,
            |i: int| F32 { bits: 0 },
        ),
    }
}

/// The scratchpad that a config declares, before any request.
pub open spec fn declared_scratchpad(config: Config) -> ScratchpadView {
    ScratchpadView {
        entity_id: Seq::empty(),
        request_id: Seq::empty(),
        timestamp_ms: 0,
        input: zero_tensor(config.model_schema.inputs@[0].shape@),
        outputs: config.model_schema.outputs@.map_values(
            |output: TensorSpec|
                OutputView { name: output.name@, data: zero_tensor(output.shape@) },
        ),
    }
}

/// True if the tensors that building a scratchpad reaches can be allocated: the
/// outputs up to the first with too long a name, and the input if there is none
/// such.
pub open spec fn scratchpad_allocatable(config: Config) -> bool {
    let outputs = config.model_schema.outputs@;
    &&& forall|i: int|
        0 <= i < first_long_name(outputs) ==> crate::types::allocatable(
            axes_of((#[trigger] outputs[i]).shape@),
        )
    &&& first_long_name(outputs) == outputs.len() ==> crate::types::allocatable(
        axes_of(config.model_schema.inputs@[0].shape@),
    )
}

/// Allocates the scratchpad that a config declares.
///
/// Called at startup. The tensors get the shapes declared in the model schema,
/// so that requests reuse them.
pub fn build_scratchpad(config: &Config) -> (built: Result<InferenceScratchpad, BuildError>)
    requires
        config.model_schema.inputs@.len() > 0,
        scratchpad_allocatable(*config),
    ensures
        ({
            let outputs = config.model_schema.outputs@;
            let long = first_long_name(outputs);
            &&& built is Ok <==> long == outputs.len()
            &&& built is Ok ==> built->Ok_0@ == declared_scratchpad(*config)
            &&& built is Err ==> built->Err_0@ == BuildRefusal::OutputNameTooLong(
                outputs[long].name@,
            )
        }),
{
    let ghost specs = config.model_schema.outputs@;
    let ghost wanted = declared_scratchpad(*config).outputs;
    let mut outputs: Vec<OutputBuffer> = Vec::new();
    let count = config.model_schema.outputs.len();
    assert(specs.skip(0) =~= specs);
    for i in 0..count
        invariant
            count == specs.len(),
            specs == config.model_schema.outputs@,
            wanted == declared_scratchpad(*config).outputs,
            scratchpad_allocatable(*config),
            first_long_name(specs) == i + first_long_name(specs.skip(i as int)),
            crate::types::output_views(outputs@) == wanted.take(i as int),
            outputs@.len() == i,
    {
        assert(specs.skip(i as int)[0] == specs[i as int]);
        assert(specs.skip(i as int).skip(1) =~= specs.skip(i + 1));
        let spec_name = config.model_schema.outputs[i].name.as_str();
        let shape = to_axes(&config.model_schema.outputs[i].shape);
        let name = match name_from(spec_name) {
            Some(name) => name,
            None => {
                return Err(BuildError::OutputNameTooLong(spec_name.to_owned()));
            },
        };
        proof {
            lemma_first_long_name(specs.skip(i + 1));
            assert(i < first_long_name(specs));
        }
        let data = Tensor::zeros(&shape);
        let ghost before = outputs@;
        outputs.push(OutputBuffer { name, data });
        proof {
            assert(outputs@[i as int]@ =~= wanted[i as int]);
            assert(crate::types::output_views(outputs@) =~= crate::types::output_views(
                before,
            ).push(outputs@[i as int]@));
            assert(wanted.take(i + 1) =~= wanted.take(i as int).push(wanted[i as int]));
        }
    }
    assert(wanted.take(count as int) =~= wanted);
    let input = Tensor::zeros(&to_axes(&config.model_schema.inputs[0].shape));
    let pad = InferenceScratchpad {
        entity_id: id_new(),
        request_id: id_new(),
        timestamp_ms: 0,
        input,
        outputs,
    };
    assert(pad@ =~= declared_scratchpad(*config));
    Ok(pad)
}

/// The first long name stands within the outputs or right behind them.
proof fn lemma_first_long_name(outputs: Seq<TensorSpec>)
    ensures
        0 <= first_long_name(outputs) <= outputs.len(),
    decreases outputs.len(),
{
    if outputs.len() > 0 {
        lemma_first_long_name(outputs.skip(1));
    }
}

/// True if building the scratchpad of a config is possible without exhausting
/// what a tensor may hold.
pub fn can_build_scratchpad(config: &Config) -> (possible: bool)
    requires
        config.model_schema.inputs@.len() > 0,
    ensures
        possible == scratchpad_allocatable(*config),
{
    let ghost specs = config.model_schema.outputs@;
    let count = config.model_schema.outputs.len();
    assert(specs.skip(0) =~= specs);
    for i in 0..count
        invariant
            count == specs.len(),
            specs == config.model_schema.outputs@,
            first_long_name(specs) == i + first_long_name(specs.skip(i as int)),
            forall|j: int|
                0 <= j < i ==> crate::types::allocatable(axes_of((#[trigger] specs[j]).shape@)),
    {
        assert(specs.skip(i as int)[0] == specs[i as int]);
        assert(specs.skip(i as int).skip(1) =~= specs.skip(i + 1));
        if name_from(config.model_schema.outputs[i].name.as_str()).is_none() {
            return true;
        }
        proof {
            lemma_first_long_name(specs.skip(i as int));
            lemma_first_long_name(specs.skip(i + 1));
        }
        if !crate::types::can_allocate(&to_axes(&config.model_schema.outputs[i].shape)) {
            assert(!crate::types::allocatable(axes_of(specs[i as int].shape@)));
            return false;
        }
    }
    crate::types::can_allocate(&to_axes(&config.model_schema.inputs[0].shape))
}

/// Law: a well-formed config whose stages are in order and whose input name
/// fits can be built.
pub proof fn law_valid_config_builds(config: Config)
    requires
        config.well_formed(),
        ordering_refusal(config.pipeline.stages@) is None,
        crate::types::byte_len(input_name_of(config)) <= MAX_TENSOR_NAME_LEN,
    ensures
        build_refusal(config) is None,
{
    lemma_well_formed_stages_build(config.pipeline.stages@, input_name_of(config));
}

/// Well-formed stages are not refused.
proof fn lemma_well_formed_stages_build(stages: Seq<StageConfig>, input_name: Seq<char>)
    requires
        crate::config::stages_well_formed(stages),
        crate::types::byte_len(input_name) <= MAX_TENSOR_NAME_LEN,
    ensures
        stages_refusal(stages, input_name) is None,
    decreases stages.len(),
{
    if stages.len() > 0 {
        assert(stages[0].well_formed());
        let rest = stages.skip(1);
        assert forall|i: int| 0 <= i < rest.len() implies (#[trigger] rest[i]).well_formed() by {
            assert(rest[i] == stages[i + 1]);
        }
        lemma_well_formed_stages_build(rest, input_name);
    }
}

/// Law: in an accepted order some stage runs inference, every postprocessing
/// comes after the first inference, and the first imputation does not come
/// after a validation.
pub proof fn law_accepted_order(stages: Seq<StageConfig>, i: int)
    requires
        ordering_refusal(stages) is None,
        0 <= i < stages.len(),
    ensures
        exists|j: int| 0 <= j < stages.len() && #[trigger] stages[j] is Infer,
        stages[i] is Postprocess ==> exists|j: int| 0 <= j < i && #[trigger] stages[j] is Infer,
        stages[i] is Impute ==> exists|j: int|
            0 <= j <= i && #[trigger] stages[j] is Impute && (forall|k: int|
                0 <= k < j ==> !(#[trigger] stages[k] is Validate)),
{
    lemma_first_of_found(stages, StageKind::Infer);
    let infer = first_of(stages, StageKind::Infer);
    assert(stages[infer] is Infer);
    if stages[i] is Postprocess {
        lemma_first_of_bound(stages, StageKind::Postprocess, i);
        assert(infer <= first_of(stages, StageKind::Postprocess));
        assert(infer < i);
    }
    if stages[i] is Impute {
        lemma_first_of_bound(stages, StageKind::Impute, i);
        lemma_first_of_found(stages, StageKind::Impute);
        lemma_first_of_found(stages, StageKind::Validate);
        let impute = first_of(stages, StageKind::Impute);
        assert(stages[impute] is Impute);
        assert forall|k: int| 0 <= k < impute implies !(#[trigger] stages[k] is Validate) by {
            if stages[k] is Validate {
                lemma_first_of_bound(stages, StageKind::Validate, k);
            }
        }
    }
}

/// The first stage of a kind is of that kind.
proof fn lemma_first_of_found(stages: Seq<StageConfig>, kind: StageKind)
    ensures
        0 <= first_of(stages, kind) <= stages.len(),
        first_of(stages, kind) < stages.len() ==> kind_of(stages[first_of(stages, kind)]) == kind,
    decreases stages.len(),
{
    if stages.len() > 0 && kind_of(stages[0]) != kind {
        lemma_first_of_found(stages.skip(1), kind);
    }
}

/// Law: a scratchpad that has just been built is what a reset makes of it.
pub proof fn law_built_scratchpad_is_blank(config: Config)
    requires
        config.model_schema.inputs@.len() > 0,
    ensures
        declared_scratchpad(config).blank() == declared_scratchpad(config),
{
    assert(declared_scratchpad(config).blank() =~~= declared_scratchpad(config));
}

/// Law: each layer is there exactly if its option asks for it, with the number
/// that the option gives, and there is no other. Retries are innermost and
/// timing is outermost; tracing comes right behind the retries, and the deadline
/// right before the timing.
pub proof fn law_layers_follow_the_options(options: StageObservability)
    ensures
        ({
            let layers = wanted_layers(options);
            let retries: int = if options.retries is Some {
                1
            } else {
                0
            };
            let traced: int = if options.instrumented == Some(true) {
                1
            } else {
                0
            };
            let limited: int = if options.deadline_ms is Some {
                1
            } else {
                0
            };
            let timed: int = if options.timed == Some(true) {
                1
            } else {
                0
            };
            &&& layers.len() == retries + traced + limited + timed
            &&& retries == 1 ==> layers[0] == Layer::Retry(options.retries->Some_0)
            &&& traced == 1 ==> layers[retries] == Layer::Instrumented
            &&& limited == 1 ==> layers[retries + traced] == Layer::Deadline(
                options.deadline_ms->Some_0,
            )
            &&& timed == 1 ==> layers.last() == Layer::Timed
        }),
{
}

/// Law: declared dimensions that a size can hold become axes of that length, one
/// for one.
pub proof fn law_dimensions_become_axes(shape: Seq<i64>, i: int)
    requires
        0 <= i < shape.len(),
    ensures
        axes_of(shape).len() == shape.len(),
        0 <= shape[i] <= usize::MAX ==> axes_of(shape)[i] == shape[i],
{
}

/// Law: every stage is laid out from its own config, in the order of the
/// configs: under its name, with its parameters and with the layers that its
/// options ask for.
pub proof fn law_plan_has_the_configured_values(plan: Seq<StagePlan>, config: Config, k: int)
    requires
        plan_follows(plan, config),
        0 <= k < config.pipeline.stages@.len(),
    ensures
        plan.len() == config.pipeline.stages@.len(),
        match config.pipeline.stages@[k] {
            StageConfig::Validate { expected_shape, observability } => {
                &&& plan[k].label@ == "validate"@
                &&& plan[k].layers@ == wanted_layers(observability)
                &&& plan[k].stage matches PlannedStage::Validate(stage)
                    && stage.expected_shape@.len() == expected_shape@.len() && (forall|i: int|
                    0 <= i < expected_shape@.len() && 0 <= expected_shape@[i] <= usize::MAX
                        ==> #[trigger] stage.expected_shape@[i] == expected_shape@[i])
            },
            StageConfig::Normalize { mean, std, observability } => {
                &&& plan[k].label@ == "normalize"@
                &&& plan[k].layers@ == wanted_layers(observability)
                &&& plan[k].stage matches PlannedStage::Normalize(stage) && stage.mean == mean
                    && stage.inv_std.is_reciprocal(std)
            },
            StageConfig::Clip { min, max, observability } => {
                &&& plan[k].label@ == "clip"@
                &&& plan[k].layers@ == wanted_layers(observability)
                &&& plan[k].stage matches PlannedStage::Clip(stage) && stage.min == min
                    && stage.max == max
            },
            StageConfig::Impute { default_value, observability } => {
                &&& plan[k].label@ == "impute"@
                &&& plan[k].layers@ == wanted_layers(observability)
                &&& plan[k].stage matches PlannedStage::Impute(stage) && stage.default_value
                    == default_value
            },
            StageConfig::Infer { observability } => {
                &&& plan[k].label@ == "infer"@
                &&& plan[k].layers@ == wanted_layers(observability)
                &&& plan[k].stage matches PlannedStage::Infer(name) && crate::types::name_text(
                    name,
                ) == config.model_schema.inputs@[0].name@
            },
            StageConfig::Postprocess { threshold, output_type, observability } => {
                &&& plan[k].label@ == "postprocess"@
                &&& plan[k].layers@ == wanted_layers(observability)
                &&& plan[k].stage matches PlannedStage::Postprocess(stage) && stage.threshold
                    == threshold && stage.output_type == output_type
            },
        },
{
    assert(plan[k].follows(config.pipeline.stages@[k], input_name_of(config)));
}

/// Law: an order is refused for lack of inference exactly if no stage runs it.
pub proof fn law_order_without_inference(stages: Seq<StageConfig>)
    ensures
        ordering_refusal(stages) == Some(BuildRefusal::NoInferStage) <==> forall|j: int|
            0 <= j < stages.len() ==> !(#[trigger] stages[j] is Infer),
{
    lemma_first_of_found(stages, StageKind::Infer);
    let infer = first_of(stages, StageKind::Infer);
    if infer < stages.len() {
        assert(stages[infer] is Infer);
    } else {
        assert forall|j: int| 0 <= j < stages.len() implies !(#[trigger] stages[j] is Infer) by {
            if stages[j] is Infer {
                lemma_first_of_bound(stages, StageKind::Infer, j);
            }
        }
    }
}

/// Law: an order with inference is refused for its postprocessing exactly if
/// some postprocessing has no inference before it.
pub proof fn law_order_of_postprocessing(stages: Seq<StageConfig>, infer: int)
    requires
        0 <= infer < stages.len(),
        stages[infer] is Infer,
    ensures
        ordering_refusal(stages) == Some(BuildRefusal::PostprocessBeforeInfer) <==> exists|i: int|
            0 <= i < stages.len() && #[trigger] stages[i] is Postprocess && (forall|j: int|
                0 <= j < i ==> !(#[trigger] stages[j] is Infer)),
{
    lemma_first_of_bound(stages, StageKind::Infer, infer);
    lemma_first_of_found(stages, StageKind::Infer);
    lemma_first_of_found(stages, StageKind::Postprocess);
    let first = first_of(stages, StageKind::Infer);
    let post = first_of(stages, StageKind::Postprocess);
    assert(stages[first] is Infer);
    if post < first {
        assert(stages[post] is Postprocess);
        assert forall|j: int| 0 <= j < post implies !(#[trigger] stages[j] is Infer) by {
            assert(kind_of(stages[j]) != StageKind::Infer);
        }
    } else if exists|i: int|
        0 <= i < stages.len() && #[trigger] stages[i] is Postprocess && (forall|j: int|
            0 <= j < i ==> !(#[trigger] stages[j] is Infer)) {
        let i = choose|i: int|
            0 <= i < stages.len() && #[trigger] stages[i] is Postprocess && (forall|j: int|
                0 <= j < i ==> !(#[trigger] stages[j] is Infer));
        lemma_first_of_bound(stages, StageKind::Postprocess, i);
        assert(first < i);
        assert(stages[first] is Infer);
    }
}

/// Law: an order that is right about inference is refused for its imputation
/// exactly if a validation comes before the first imputation.
pub proof fn law_order_of_imputation(stages: Seq<StageConfig>, validate: int, impute: int)
    requires
        ordering_refusal(stages) != Some(BuildRefusal::NoInferStage),
        ordering_refusal(stages) != Some(BuildRefusal::PostprocessBeforeInfer),
        0 <= validate < stages.len(),
        0 <= impute < stages.len(),
        stages[validate] is Validate,
        stages[impute] is Impute,
        forall|j: int| 0 <= j < validate ==> !(#[trigger] stages[j] is Validate),
        forall|j: int| 0 <= j < impute ==> !(#[trigger] stages[j] is Impute),
    ensures
        validate < impute <==> ordering_refusal(stages) == Some(BuildRefusal::ImputeAfterValidate),
        impute < validate <==> ordering_refusal(stages) is None,
{
    lemma_first_of_bound(stages, StageKind::Validate, validate);
    lemma_first_of_bound(stages, StageKind::Impute, impute);
    lemma_first_of_found(stages, StageKind::Validate);
    lemma_first_of_found(stages, StageKind::Impute);
    assert(stages[first_of(stages, StageKind::Validate)] is Validate);
    assert(stages[first_of(stages, StageKind::Impute)] is Impute);
}

/// Law: without validation, or without imputation, an order that is right about
/// inference is accepted.
pub proof fn law_order_without_imputation(stages: Seq<StageConfig>)
    requires
        (forall|j: int| 0 <= j < stages.len() ==> !(#[trigger] stages[j] is Validate)) || (forall|
            j: int,
        | 0 <= j < stages.len() ==> !(#[trigger] stages[j] is Impute)),
        ordering_refusal(stages) != Some(BuildRefusal::NoInferStage),
        ordering_refusal(stages) != Some(BuildRefusal::PostprocessBeforeInfer),
    ensures
        ordering_refusal(stages) is None,
{
    lemma_first_of_found(stages, StageKind::Validate);
    lemma_first_of_found(stages, StageKind::Impute);
    let validate = first_of(stages, StageKind::Validate);
    let impute = first_of(stages, StageKind::Impute);
    if validate < stages.len() {
        assert(stages[validate] is Validate);
    }
    if impute < stages.len() {
        assert(stages[impute] is Impute);
    }
}

/// Law: a stage can be built exactly if its parameters allow it: dimensions that
/// are there and positive, a lower bound that does not reach the upper one, an
/// input name that fits. Otherwise the refusal says what is wrong.
pub proof fn law_what_stage_can_be_built(stage: StageConfig, input_name: Seq<char>)
    ensures
        match stage {
            StageConfig::Validate { expected_shape, .. } => {
                let shape = expected_shape@;
                &&& shape.len() == 0 <==> stage_refusal(stage, input_name) == Some(
                    BuildRefusal::EmptyShape,
                )
                &&& stage_refusal(stage, input_name) is None <==> shape.len() > 0 && (forall|
                    i: int,
                | 0 <= i < shape.len() ==> #[trigger] shape[i] > 0)
                &&& forall|i: int|
                    0 <= i < shape.len() && #[trigger] shape[i] <= 0 && (forall|j: int|
                        0 <= j < i ==> #[trigger] shape[j] > 0) ==> stage_refusal(stage, input_name)
                        == Some(BuildRefusal::NonPositiveDimension(shape[i]))
            },
            StageConfig::Clip { min, max, .. } => stage_refusal(stage, input_name) == (
            if max.spec_le(min) {
                Some(BuildRefusal::EmptyRange(min, max))
            } else {
                None
            }),
            StageConfig::Infer { .. } => stage_refusal(stage, input_name) == (
            if crate::types::byte_len(input_name) > 64 {
                Some(BuildRefusal::InputNameTooLong(input_name))
            } else {
                None
            }),
            _ => stage_refusal(stage, input_name) is None,
        },
{
    match stage {
        StageConfig::Validate { expected_shape, .. } => {
            let shape = expected_shape@;
            assert forall|i: int|
                0 <= i < shape.len() && #[trigger] shape[i] <= 0 && (forall|j: int|
                    0 <= j < i ==> #[trigger] shape[j] > 0) implies stage_refusal(stage, input_name)
                == Some(BuildRefusal::NonPositiveDimension(shape[i])) by {
                crate::config::lemma_first_nonpositive(shape, i);
            }
        },
        _ => {},
    }
}

/// Law: a pipeline is refused for its order if that is refused, and otherwise
/// for the first of its stages that cannot be built; it can be built if there is
/// none.
pub proof fn law_first_fault_is_reported(config: Config, k: int)
    requires
        0 <= k <= config.pipeline.stages@.len(),
        forall|j: int|
            0 <= j < k ==> stage_refusal(
                #[trigger] config.pipeline.stages@[j],
                config.model_schema.inputs@[0].name@,
            ) is None,
        k < config.pipeline.stages@.len() ==> stage_refusal(
            config.pipeline.stages@[k],
            config.model_schema.inputs@[0].name@,
        ) is Some,
    ensures
        ordering_refusal(config.pipeline.stages@) is Some ==> build_refusal(config)
            == ordering_refusal(config.pipeline.stages@),
        ordering_refusal(config.pipeline.stages@) is None ==> build_refusal(config) == (if k
            < config.pipeline.stages@.len() {
            stage_refusal(config.pipeline.stages@[k], config.model_schema.inputs@[0].name@)
        } else {
            None
        }),
{
    lemma_first_refused(config.pipeline.stages@, config.model_schema.inputs@[0].name@, k);
}

/// The first stage that cannot be built decides.
proof fn lemma_first_refused(stages: Seq<StageConfig>, input_name: Seq<char>, k: int)
    requires
        0 <= k <= stages.len(),
        forall|j: int| 0 <= j < k ==> stage_refusal(#[trigger] stages[j], input_name) is None,
        k < stages.len() ==> stage_refusal(stages[k], input_name) is Some,
    ensures
        stages_refusal(stages, input_name) == (if k < stages.len() {
            stage_refusal(stages[k], input_name)
        } else {
            None
        }),
    decreases stages.len(),
{
    if k > 0 {
        let rest = stages.skip(1);
        assert(stage_refusal(stages[0], input_name) is None);
        assert forall|j: int| 0 <= j < k - 1 implies stage_refusal(#[trigger] rest[j], input_name)
            is None by {
            assert(rest[j] == stages[j + 1]);
        }
        if k < stages.len() {
            assert(rest[k - 1] == stages[k]);
        }
        lemma_first_refused(rest, input_name, k - 1);
    }
}

/// Law: the scratchpad of a config has an input of the declared shape and one
/// output per declared output, in order, under its name and in its shape, with
/// as many elements as the axes give, all zero; it names nobody.
pub proof fn law_scratchpad_has_the_declared_tensors(config: Config, i: int, k: int)
    requires
        config.model_schema.inputs@.len() > 0,
    ensures
        ({
            let pad = declared_scratchpad(config);
            let input = config.model_schema.inputs@[0].shape@;
            let outputs = config.model_schema.outputs@;
            &&& pad.entity_id.len() == 0 && pad.request_id.len() == 0 && pad.timestamp_ms == 0
            &&& pad.input.axes == axes_of(input)
            &&& pad.input.elements.len() == crate::types::volume(axes_of(input)) as nat
            &&& 0 <= k < pad.input.elements.len() ==> pad.input.elements[k].bits == 0
            &&& pad.outputs.len() == outputs.len()
            &&& 0 <= i < outputs.len() ==> {
                &&& pad.outputs[i].name == outputs[i].name@
                &&& pad.outputs[i].data.axes == axes_of(outputs[i].shape@)
                &&& pad.outputs[i].data.elements.len() == crate::types::volume(
                    axes_of(outputs[i].shape@),
                ) as nat
                &&& 0 <= k < pad.outputs[i].data.elements.len()
                    ==> pad.outputs[i].data.elements[k].bits == 0
            }
        }),
{
}

/// Law: the first output whose name takes more than 64 bytes is the one that is
/// reported, and there is none to report if all names fit.
pub proof fn law_first_long_name(outputs: Seq<TensorSpec>, i: int)
    requires
        0 <= i <= outputs.len(),
        forall|j: int|
            0 <= j < i ==> crate::types::byte_len((#[trigger] outputs[j]).name@) <= 64,
        i < outputs.len() ==> crate::types::byte_len(outputs[i].name@) > 64,
    ensures
        first_long_name(outputs) == i,
    decreases outputs.len(),
{
    if i > 0 {
        let rest = outputs.skip(1);
        assert(crate::types::byte_len(outputs[0].name@) <= 64);
        assert forall|j: int| 0 <= j < i - 1 implies crate::types::byte_len(
            (#[trigger] rest[j]).name@,
        ) <= 64 by {
            assert(rest[j] == outputs[j + 1]);
        }
        if i < outputs.len() {
            assert(rest[i - 1] == outputs[i]);
        }
        law_first_long_name(rest, i - 1);
    }
}

/// Law: a refusal says what the error carries.
pub proof fn law_refusal_says_what_the_error_carries(dim: i64, min: F32, max: F32, name: String)
    ensures
        BuildError::NoInferStage@ == BuildRefusal::NoInferStage,
        BuildError::PostprocessBeforeInfer@ == BuildRefusal::PostprocessBeforeInfer,
        BuildError::ImputeAfterValidate@ == BuildRefusal::ImputeAfterValidate,
        BuildError::EmptyShape@ == BuildRefusal::EmptyShape,
        BuildError::NonPositiveDimension(dim)@ == BuildRefusal::NonPositiveDimension(dim),
        (BuildError::EmptyRange { min, max })@ == BuildRefusal::EmptyRange(min, max),
        BuildError::InputNameTooLong(name)@ == BuildRefusal::InputNameTooLong(name@),
        BuildError::OutputNameTooLong(name)@ == BuildRefusal::OutputNameTooLong(name@),
{
}

/// Law: a message says what is wrong with the pipeline, and with what.
pub proof fn law_build_messages(
    dim: i64,
    bounds: (F32, F32),
    name: String,
    min: Seq<char>,
    max: Seq<char>,
)
    ensures
        BuildError::NoInferStage.message_text(min, max) == "pipeline must contain an infer stage"@,
        BuildError::PostprocessBeforeInfer.message_text(min, max)
            == "pipeline: postprocess stage must come after infer"@,
        BuildError::ImputeAfterValidate.message_text(min, max)
            == "pipeline: impute stage must come before validate"@,
        BuildError::EmptyShape.message_text(min, max)
            == "validate stage: expected_shape must not be empty"@,
        BuildError::NonPositiveDimension(dim).message_text(min, max)
            == "validate stage: all dimensions must be positive, got "@
            + crate::text::integer_text(dim as int),
        (BuildError::EmptyRange { min: bounds.0, max: bounds.1 }).message_text(min, max)
            == "clip stage: "@ + ("min ("@ + min + ") must be less than max ("@ + max + ")"@),
        BuildError::InputNameTooLong(name).message_text(min, max)
            == "infer stage: input tensor name '"@ + name@ + "' exceeds "@
            + crate::text::natural_text(64) + " bytes"@,
        BuildError::OutputNameTooLong(name).message_text(min, max) == "output tensor name '"@
            + name@ + "' exceeds "@ + crate::text::natural_text(64) + " bytes"@,
{
}

/// Law: a scratchpad can be allocated exactly if every output before the first
/// with too long a name can be, and the input too where all names fit.
pub proof fn law_what_scratchpad_can_be_allocated(config: Config, long: int)
    requires
        0 <= long <= config.model_schema.outputs@.len(),
        forall|j: int|
            0 <= j < long ==> crate::types::byte_len(
                (#[trigger] config.model_schema.outputs@[j]).name@,
            ) <= 64,
        long < config.model_schema.outputs@.len() ==> crate::types::byte_len(
            config.model_schema.outputs@[long].name@,
        ) > 64,
    ensures
        scratchpad_allocatable(config) <==> (forall|i: int|
            0 <= i < long ==> crate::types::allocatable(
                axes_of((#[trigger] config.model_schema.outputs@[i]).shape@),
            )) && (long == config.model_schema.outputs@.len() ==> crate::types::allocatable(
            axes_of(config.model_schema.inputs@[0].shape@),
        )),
{
    law_first_long_name(config.model_schema.outputs@, long);
}

} // verus!
