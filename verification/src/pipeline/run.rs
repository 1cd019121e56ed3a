//! Running a planned stage on a scratchpad.

use std::sync::Arc;
use vstd::prelude::*;

use crate::backend::Backend;
use crate::config::{Config, OutputType};
use crate::error::BackendError;
use crate::pipeline::build::{PlannedStage, StagePlan};
use crate::pipeline::stages::infer::InferStage;
use crate::pipeline::{InferenceScratchpad, PipelineError, ScratchpadView};

verus! {

impl PlannedStage {
    /// True if the stage can run: a clip stage needs bounds that are in order.
    pub open spec fn runnable(self) -> bool {
        match self {
            PlannedStage::Clip(stage) => stage.min.spec_le(stage.max),
            _ => true,
        }
    }

    /// What a run of this stage may make of a scratchpad, and with what
    /// outcome.
    pub open spec fn steps<B: Backend>(
        self,
        backend: B,
        before: ScratchpadView,
        after: ScratchpadView,
        outcome: Result<(), PipelineError>,
    ) -> bool {
        match self {
            PlannedStage::Validate(stage) => {
                &&& after == before
                &&& outcome is Ok <==> stage.accepts(before.input.axes, before.input.elements)
                &&& outcome is Err ==> outcome->Err_0.reports(
                    "ValidateStage"@,
                    stage.complaint(before.input.axes, before.input.elements),
                )
            },
            PlannedStage::Normalize(stage) => {
                &&& outcome is Ok
                &&& after == before.with_input(after.input.elements)
                &&& after.input.elements.len() == before.input.elements.len()
                &&& forall|i: int|
                    0 <= i < before.input.elements.len()
                        ==> crate::pipeline::stages::normalize::normalized(
                        before.input.elements[i],
                        stage.mean,
                        stage.inv_std,
                        #[trigger] after.input.elements[i],
                    )
            },
            PlannedStage::Clip(stage) => {
                &&& outcome is Ok
                &&& after == before.with_input(stage.output(before.input.elements))
            },
            PlannedStage::Impute(stage) => {
                &&& outcome is Ok
                &&& after == before.with_input(stage.output(before.input.elements))
            },
            PlannedStage::Infer(input_name) => {
                &&& after == (ScratchpadView { outputs: after.outputs, ..before })
                &&& after.outputs.len() == before.outputs.len()
                &&& outcome is Ok ==> crate::types::same_declarations(
                    after.outputs,
                    before.outputs,
                )
                &&& exists|answer: Result<(), BackendError>| #[trigger]
                    backend.answers(
                        seq![(crate::types::name_text(input_name), before.input)],
                        before.outputs,
                        after.outputs,
                        answer,
                    ) && (outcome is Ok <==> answer is Ok) && (answer is Err
                        ==> outcome->Err_0.reports("InferStage"@, answer->Err_0.message_text()))
            },
            PlannedStage::Postprocess(stage) => {
                &&& outcome is Ok <==> stage.accepts(before.outputs)
                &&& outcome is Ok ==> after == stage.output(before)
                &&& outcome is Err ==> after == before && outcome->Err_0.reports(
                    "PostprocessStage"@,
                    stage.complaint(before.outputs),
                )
            },
        }
    }

    /// True if the stage can run.
    pub fn can_run(&self) -> (possible: bool)
        ensures
            possible == self.runnable(),
    {
        match self {
            PlannedStage::Clip(stage) => stage.min.le(stage.max),
            _ => true,
        }
    }

    /// Runs the stage; inference goes to `backend`.
    pub fn run<B: Backend>(&mut self, backend: &Arc<B>, ctx: &mut InferenceScratchpad) -> (outcome:
        Result<(), PipelineError>)
        requires
            old(self).runnable(),
        ensures
            *final(self) == *old(self),
            old(self).steps(**backend, old(ctx)@, final(ctx)@, outcome),
    {
        match self {
            PlannedStage::Validate(stage) => stage.run(ctx),
            PlannedStage::Normalize(stage) => stage.run(ctx),
            PlannedStage::Clip(stage) => stage.run(ctx),
            PlannedStage::Impute(stage) => stage.run(ctx),
            PlannedStage::Infer(input_name) => {
                let mut stage = InferStage {
                    backend: Arc::clone(backend),
                    input_name: *input_name,
                };
                stage.run(ctx)
            },
            PlannedStage::Postprocess(stage) => stage.run(ctx),
        }
    }
}

/// Law: no stage changes whose request it is, or when it was received, and one
/// that succeeds leaves every output under its name and in its shape.
pub proof fn law_stages_keep_identity<B: Backend>(
    stage: PlannedStage,
    backend: B,
    before: ScratchpadView,
    after: ScratchpadView,
    outcome: Result<(), PipelineError>,
)
    requires
        stage.steps(backend, before, after, outcome),
    ensures
        after.entity_id == before.entity_id,
        after.request_id == before.request_id,
        after.timestamp_ms == before.timestamp_ms,
        after.input.axes == before.input.axes,
        after.outputs.len() == before.outputs.len(),
        outcome is Ok ==> crate::types::same_declarations(after.outputs, before.outputs),
{
}

/// Law: only inference and postprocessing touch the outputs, and they leave the
/// input as it is.
pub proof fn law_stages_keep_to_their_side<B: Backend>(
    stage: PlannedStage,
    backend: B,
    before: ScratchpadView,
    after: ScratchpadView,
    outcome: Result<(), PipelineError>,
)
    requires
        stage.steps(backend, before, after, outcome),
    ensures
        stage is Infer || stage is Postprocess ==> after.input == before.input,
        !(stage is Infer) && !(stage is Postprocess) ==> after.outputs == before.outputs,
{
}

/// True if a list of stages has run without a failure, one after the other,
/// and `pads` is what the scratchpad held before the first and after each.
pub open spec fn has_run<B: Backend>(
    stages: Seq<PlannedStage>,
    backend: B,
    pads: Seq<ScratchpadView>,
) -> bool {
    &&& pads.len() == stages.len() + 1
    &&& forall|i: int|
        0 <= i < stages.len() ==> (#[trigger] stages[i]).steps(
            backend,
            pads[i],
            pads[i + 1],
            Ok::<(), PipelineError>(()),
        )
}

/// Law: a whole pipeline does not change whose request it is, or when it was
/// received, and leaves every output under its name and in its shape.
pub proof fn law_pipeline_keeps_identity<B: Backend>(
    stages: Seq<PlannedStage>,
    backend: B,
    pads: Seq<ScratchpadView>,
    n: int,
)
    requires
        has_run(stages, backend, pads),
        0 <= n <= stages.len(),
    ensures
        pads[n].entity_id == pads[0].entity_id,
        pads[n].request_id == pads[0].request_id,
        pads[n].timestamp_ms == pads[0].timestamp_ms,
        pads[n].input.axes == pads[0].input.axes,
        crate::types::same_declarations(pads[n].outputs, pads[0].outputs),
    decreases n,
{
    if n > 0 {
        law_pipeline_keeps_identity(stages, backend, pads, n - 1);
        let outcome = Ok::<(), PipelineError>(());
        assert(stages[n - 1].steps(backend, pads[n - 1], pads[n], outcome));
        law_stages_keep_identity(stages[n - 1], backend, pads[n - 1], pads[n], outcome);
    }
}

/// Law: with a repeatable backend, two runs of inference that succeed on the same
/// input give the same outputs, whatever the output buffers held before.
pub proof fn law_inference_is_repeatable<B: Backend>(
    stage: PlannedStage,
    backend: B,
    before: ScratchpadView,
    after: ScratchpadView,
    other_before: ScratchpadView,
    other_after: ScratchpadView,
)
    requires
        stage is Infer,
        crate::backend::repeatable(backend),
        stage.steps(backend, before, after, Ok::<(), PipelineError>(())),
        stage.steps(backend, other_before, other_after, Ok::<(), PipelineError>(())),
        before.input == other_before.input,
        crate::types::same_declarations(before.outputs, other_before.outputs),
    ensures
        after.outputs == other_after.outputs,
{
    let inputs = seq![(crate::types::name_text(stage->Infer_0), before.input)];
    let answer = choose|answer: Result<(), BackendError>| #[trigger]
        backend.answers(inputs, before.outputs, after.outputs, answer) && answer is Ok;
    let other = choose|answer: Result<(), BackendError>| #[trigger]
        backend.answers(inputs, other_before.outputs, other_after.outputs, answer) && answer is Ok;
    assert(answer is Ok && answer->Ok_0 == ());
    assert(other is Ok && other->Ok_0 == ());
}

/// True if a stage makes no input value infinite or NaN that was not so.
pub open spec fn keeps_finite(stage: PlannedStage) -> bool {
    match stage {
        PlannedStage::Normalize(_) => false,
        PlannedStage::Clip(clip) => clip.min.spec_is_finite() && clip.max.spec_is_finite(),
        _ => true,
    }
}

/// Law: what validation has let through is still finite when a later stage gets
/// it, unless a normalization or a clip to an infinite bound stands between.
pub proof fn law_validated_input_stays_finite<B: Backend>(
    stages: Seq<PlannedStage>,
    backend: B,
    pads: Seq<ScratchpadView>,
    validate: int,
    later: int,
)
    requires
        has_run(stages, backend, pads),
        0 <= validate < later <= stages.len(),
        stages[validate] is Validate,
        forall|j: int| validate < j < later ==> keeps_finite(#[trigger] stages[j]),
    ensures
        crate::pipeline::stages::validate::all_finite(pads[later].input.elements),
    decreases later,
{
    let last = later - 1;
    let outcome = Ok::<(), PipelineError>(());
    assert(stages[last].steps(backend, pads[last], pads[later], outcome));
    if last > validate {
        law_validated_input_stays_finite(stages, backend, pads, validate, last);
        assert(keeps_finite(stages[last]));
        let before = pads[last].input.elements;
        let after = pads[later].input.elements;
        assert forall|i: int| 0 <= i < after.len() implies (#[trigger] after[i]).spec_is_finite() by {
            assert(before[i].spec_is_finite());
        }
    }
}

/// Law: a plan for a well-formed clip stage whose bounds are numbers can run.
pub proof fn law_planned_clip_runs(min: crate::numeric::F32, max: crate::numeric::F32)
    requires
        !max.spec_le(min),
        !min.spec_is_nan(),
        !max.spec_is_nan(),
    ensures
        min.spec_le(max),
{
}

/// Law: every stage can run, but for a clip stage whose bounds are out of order
/// or no numbers.
pub proof fn law_what_can_run(stage: PlannedStage)
    ensures
        stage.runnable() <==> (stage matches PlannedStage::Clip(clip) ==> clip.min.spec_le(
            clip.max,
        )),
{
}

/// Law: the clip stage that a config describes always succeeds. It moves what
/// lies below the configured lower bound to that bound and what lies above the
/// configured upper bound to that one, and leaves every other value and
/// everything else as it is.
pub proof fn law_built_clip_uses_the_configured_bounds<B: Backend>(
    plan: Seq<StagePlan>,
    config: Config,
    k: int,
    backend: B,
    before: ScratchpadView,
    after: ScratchpadView,
    outcome: Result<(), PipelineError>,
    i: int,
)
    requires
        crate::pipeline::build::plan_follows(plan, config),
        0 <= k < config.pipeline.stages@.len(),
        plan[k].stage.steps(backend, before, after, outcome),
        config.pipeline.stages@[k] is Clip,
        config.pipeline.stages@[k]->Clip_min.spec_lt(config.pipeline.stages@[k]->Clip_max),
        0 <= i < before.input.elements.len(),
    ensures
        outcome is Ok,
        plan[k].stage.runnable(),
        after.entity_id == before.entity_id,
        after.request_id == before.request_id,
        after.timestamp_ms == before.timestamp_ms,
        after.outputs == before.outputs,
        after.input.axes == before.input.axes,
        after.input.elements.len() == before.input.elements.len(),
        ({
            let min = config.pipeline.stages@[k]->Clip_min;
            let max = config.pipeline.stages@[k]->Clip_max;
            let value = before.input.elements[i];
            &&& value.spec_lt(min) ==> after.input.elements[i] == min
            &&& max.spec_lt(value) ==> after.input.elements[i] == max
            &&& !value.spec_lt(min) && !max.spec_lt(value) ==> after.input.elements[i] == value
        }),
{
    assert(plan[k].follows(
        config.pipeline.stages@[k],
        crate::pipeline::build::input_name_of(config),
    ));
}

/// Law: the impute stage that a config describes always succeeds. It replaces
/// every NaN by the configured default, and leaves every other value and
/// everything else as it is.
pub proof fn law_built_impute_uses_the_configured_default<B: Backend>(
    plan: Seq<StagePlan>,
    config: Config,
    k: int,
    backend: B,
    before: ScratchpadView,
    after: ScratchpadView,
    outcome: Result<(), PipelineError>,
    i: int,
)
    requires
        crate::pipeline::build::plan_follows(plan, config),
        0 <= k < config.pipeline.stages@.len(),
        plan[k].stage.steps(backend, before, after, outcome),
        config.pipeline.stages@[k] is Impute,
        0 <= i < before.input.elements.len(),
    ensures
        outcome is Ok,
        after.entity_id == before.entity_id,
        after.request_id == before.request_id,
        after.timestamp_ms == before.timestamp_ms,
        after.outputs == before.outputs,
        after.input.axes == before.input.axes,
        after.input.elements.len() == before.input.elements.len(),
        before.input.elements[i].spec_is_nan() ==> after.input.elements[i]
            == config.pipeline.stages@[k]->Impute_default_value,
        !before.input.elements[i].spec_is_nan() ==> after.input.elements[i]
            == before.input.elements[i],
{
    assert(plan[k].follows(
        config.pipeline.stages@[k],
        crate::pipeline::build::input_name_of(config),
    ));
}

/// Law: the normalize stage that a config describes always succeeds. It gives
/// every value, less the configured mean and rounded, times the rounded
/// reciprocal of the configured standard deviation, rounded; everything else is
/// left as it is.
pub proof fn law_built_normalize_uses_the_configured_scale<B: Backend>(
    plan: Seq<StagePlan>,
    config: Config,
    k: int,
    backend: B,
    before: ScratchpadView,
    after: ScratchpadView,
    outcome: Result<(), PipelineError>,
    i: int,
    inv_std: crate::numeric::F32,
    centred: crate::numeric::F32,
)
    requires
        crate::pipeline::build::plan_follows(plan, config),
        0 <= k < config.pipeline.stages@.len(),
        plan[k].stage.steps(backend, before, after, outcome),
        config.pipeline.stages@[k] is Normalize,
        0 <= i < before.input.elements.len(),
        inv_std.is_reciprocal(config.pipeline.stages@[k]->Normalize_std),
        centred.is_difference(
            before.input.elements[i],
            config.pipeline.stages@[k]->Normalize_mean,
        ),
    ensures
        outcome is Ok,
        after.entity_id == before.entity_id,
        after.request_id == before.request_id,
        after.timestamp_ms == before.timestamp_ms,
        after.outputs == before.outputs,
        after.input.axes == before.input.axes,
        after.input.elements.len() == before.input.elements.len(),
        after.input.elements[i].is_product(centred, inv_std),
{
    assert(plan[k].follows(
        config.pipeline.stages@[k],
        crate::pipeline::build::input_name_of(config),
    ));
    let stage = plan[k].stage->Normalize_0;
    crate::arithmetic::law_reciprocal_is_unique(
        config.pipeline.stages@[k]->Normalize_std,
        inv_std,
        stage.inv_std,
    );
    crate::pipeline::stages::normalize::law_normalized_is_centred_then_scaled(
        before.input.elements[i],
        stage.mean,
        stage.inv_std,
        centred,
        after.input.elements[i],
    );
}

/// Law: the validate stage that a config describes changes nothing, and succeeds
/// exactly if the input has the configured shape and every value is a real
/// number.
pub proof fn law_built_validate_expects_the_configured_shape<B: Backend>(
    plan: Seq<StagePlan>,
    config: Config,
    k: int,
    backend: B,
    before: ScratchpadView,
    after: ScratchpadView,
    outcome: Result<(), PipelineError>,
)
    requires
        crate::pipeline::build::plan_follows(plan, config),
        0 <= k < config.pipeline.stages@.len(),
        plan[k].stage.steps(backend, before, after, outcome),
        config.pipeline.stages@[k] is Validate,
        forall|i: int|
            0 <= i < config.pipeline.stages@[k]->Validate_expected_shape@.len()
                ==> 0 <= #[trigger] config.pipeline.stages@[k]->Validate_expected_shape@[i]
                <= usize::MAX,
    ensures
        after == before,
        outcome is Ok <==> before.input.axes.len()
            == config.pipeline.stages@[k]->Validate_expected_shape@.len() && (forall|i: int|
            0 <= i < before.input.axes.len() ==> #[trigger] before.input.axes[i]
                == config.pipeline.stages@[k]->Validate_expected_shape@[i]) && (forall|i: int|
            0 <= i < before.input.elements.len()
                ==> (#[trigger] before.input.elements[i]).spec_is_finite()),
{
    assert(plan[k].follows(
        config.pipeline.stages@[k],
        crate::pipeline::build::input_name_of(config),
    ));
    let expected = config.pipeline.stages@[k]->Validate_expected_shape@;
    let axes = plan[k].stage->Validate_0.expected_shape@;
    assert forall|i: int| 0 <= i < expected.len() implies #[trigger] axes[i] == expected[i] by {
        assert(0 <= expected[i] <= usize::MAX);
    }
    if before.input.axes.len() == expected.len() && (forall|i: int|
        0 <= i < before.input.axes.len() ==> #[trigger] before.input.axes[i] == expected[i]) {
        assert(before.input.axes =~= axes);
    }
}

/// Law: the postprocess stage that a config describes turns a single score into
/// 1 or -1 if it is to be binary, 1 exactly if the score lies above the
/// configured threshold. Anything else it passes through, and it fails exactly
/// on what it cannot interpret.
pub proof fn law_built_postprocess_uses_the_configured_threshold<B: Backend>(
    plan: Seq<StagePlan>,
    config: Config,
    k: int,
    backend: B,
    before: ScratchpadView,
    after: ScratchpadView,
    outcome: Result<(), PipelineError>,
    i: int,
)
    requires
        crate::pipeline::build::plan_follows(plan, config),
        0 <= k < config.pipeline.stages@.len(),
        plan[k].stage.steps(backend, before, after, outcome),
        config.pipeline.stages@[k] is Postprocess,
    ensures
        ({
            let binary = config.pipeline.stages@[k]->Postprocess_output_type == OutputType::Binary;
            let threshold = config.pipeline.stages@[k]->Postprocess_threshold;
            &&& outcome is Ok <==> before.outputs.len() > 0 && (binary
                ==> before.outputs[0].data.elements.len() == 1)
            &&& outcome is Err || !binary ==> after == before
            &&& after.input == before.input
            &&& after.entity_id == before.entity_id && after.request_id == before.request_id
            &&& after.timestamp_ms == before.timestamp_ms
            &&& after.outputs.len() == before.outputs.len()
            &&& 0 < i < before.outputs.len() ==> after.outputs[i] == before.outputs[i]
            &&& outcome is Ok && binary ==> {
                &&& after.outputs[0].name == before.outputs[0].name
                &&& after.outputs[0].data.axes == before.outputs[0].data.axes
                &&& after.outputs[0].data.elements.len() == 1
                &&& after.outputs[0].data.elements[0].bits == (if threshold.spec_lt(
                    before.outputs[0].data.elements[0],
                ) {
                    0x3f80_0000u32
                } else {
                    0xbf80_0000u32
                })
            }
        }),
{
    assert(plan[k].follows(
        config.pipeline.stages@[k],
        crate::pipeline::build::input_name_of(config),
    ));
}

/// Law: the infer stage that a config describes hands the backend the one input,
/// under the name that the model schema declares, and takes its outcome; nothing
/// but the outputs may change.
pub proof fn law_built_infer_hands_over_the_declared_input<B: Backend>(
    plan: Seq<StagePlan>,
    config: Config,
    k: int,
    backend: B,
    before: ScratchpadView,
    after: ScratchpadView,
    outcome: Result<(), PipelineError>,
)
    requires
        crate::pipeline::build::plan_follows(plan, config),
        0 <= k < config.pipeline.stages@.len(),
        plan[k].stage.steps(backend, before, after, outcome),
        config.pipeline.stages@[k] is Infer,
    ensures
        after.entity_id == before.entity_id,
        after.request_id == before.request_id,
        after.timestamp_ms == before.timestamp_ms,
        after.input == before.input,
        exists|answer: Result<(), BackendError>| #[trigger]
            backend.answers(
                seq![(config.model_schema.inputs@[0].name@, before.input)],
                before.outputs,
                after.outputs,
                answer,
            ) && (outcome is Ok <==> answer is Ok) && (answer is Err
                ==> outcome->Err_0.reports("InferStage"@, answer->Err_0.message_text())),
        outcome is Ok ==> crate::types::same_declarations(after.outputs, before.outputs),
{
    assert(plan[k].follows(
        config.pipeline.stages@[k],
        crate::pipeline::build::input_name_of(config),
    ));
}

/// Law: a stage that fails names itself, and says what it complains of.
pub proof fn law_failures_name_the_stage<B: Backend>(
    stage: PlannedStage,
    backend: B,
    before: ScratchpadView,
    after: ScratchpadView,
    outcome: Result<(), PipelineError>,
)
    requires
        stage.steps(backend, before, after, outcome),
        outcome is Err,
    ensures
        match stage {
            PlannedStage::Validate(stage) => outcome->Err_0.reports(
                "ValidateStage"@,
                stage.complaint(before.input.axes, before.input.elements),
            ),
            PlannedStage::Infer(_) => exists|message: Seq<char>| #[trigger]
                outcome->Err_0.reports("InferStage"@, message),
            PlannedStage::Postprocess(stage) => outcome->Err_0.reports(
                "PostprocessStage"@,
                stage.complaint(before.outputs),
            ),
            _ => false,
        },
{
}

/// Law: what a stage makes of each input value, of the outputs and of the rest,
/// stage by stage: clipping moves a value to the bound that it lies beyond,
/// imputation replaces a NaN, normalisation centres and scales, validation and
/// what comes later leave the input as it is.
pub proof fn law_what_each_stage_does<B: Backend>(
    stage: PlannedStage,
    backend: B,
    before: ScratchpadView,
    after: ScratchpadView,
    outcome: Result<(), PipelineError>,
    i: int,
    centred: crate::numeric::F32,
)
    requires
        stage.steps(backend, before, after, outcome),
        stage.runnable(),
        0 <= i < before.input.elements.len(),
    ensures
        after.entity_id == before.entity_id,
        after.request_id == before.request_id,
        after.timestamp_ms == before.timestamp_ms,
        after.input.axes == before.input.axes,
        after.input.elements.len() == before.input.elements.len(),
        after.outputs.len() == before.outputs.len(),
        ({
            let value = before.input.elements[i];
            let result = after.input.elements[i];
            match stage {
                PlannedStage::Clip(clip) => {
                    &&& outcome is Ok
                    &&& after.outputs == before.outputs
                    &&& value.spec_lt(clip.min) ==> result == clip.min
                    &&& clip.max.spec_lt(value) ==> result == clip.max
                    &&& !value.spec_lt(clip.min) && !clip.max.spec_lt(value) ==> result == value
                },
                PlannedStage::Impute(impute) => {
                    &&& outcome is Ok
                    &&& after.outputs == before.outputs
                    &&& value.spec_is_nan() ==> result == impute.default_value
                    &&& !value.spec_is_nan() ==> result == value
                },
                PlannedStage::Normalize(normalize) => {
                    &&& outcome is Ok
                    &&& after.outputs == before.outputs
                    &&& centred.is_difference(value, normalize.mean) ==> result.is_product(
                        centred,
                        normalize.inv_std,
                    )
                },
                PlannedStage::Validate(validate) => {
                    &&& after == before
                    &&& outcome is Ok <==> before.input.axes == validate.expected_shape@ && (forall|
                        j: int,
                    |
                        0 <= j < before.input.elements.len()
                            ==> (#[trigger] before.input.elements[j]).spec_is_finite())
                },
                PlannedStage::Infer(_) => after.input == before.input,
                PlannedStage::Postprocess(postprocess) => {
                    &&& after.input == before.input
                    &&& outcome is Ok <==> before.outputs.len() > 0 && (postprocess.output_type
                        == OutputType::Binary ==> before.outputs[0].data.elements.len() == 1)
                    &&& outcome is Err ==> after == before
                    &&& outcome is Ok && postprocess.output_type != OutputType::Binary ==> after
                        == before
                    &&& outcome is Ok && postprocess.output_type == OutputType::Binary ==> {
                        &&& after.outputs[0].data.elements.len() == 1
                        &&& after.outputs[0].data.elements[0].bits == (
                        if postprocess.threshold.spec_lt(before.outputs[0].data.elements[0]) {
                            0x3f80_0000u32
                        } else {
                            0xbf80_0000u32
                        })
                        &&& forall|j: int|
                            0 < j < before.outputs.len() ==> #[trigger] after.outputs[j]
                                == before.outputs[j]
                    }
                },
            }
        }),
{
    match stage {
        PlannedStage::Normalize(normalize) => {
            if centred.is_difference(before.input.elements[i], normalize.mean) {
                crate::pipeline::stages::normalize::law_normalized_is_centred_then_scaled(
                    before.input.elements[i],
                    normalize.mean,
                    normalize.inv_std,
                    centred,
                    after.input.elements[i],
                );
            }
        },
        _ => {},
    }
}

} // verus!
