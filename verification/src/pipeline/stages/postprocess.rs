//! Interprets raw model output as a structured prediction.
//!
//! [`PostprocessStage`] reads the first output tensor written by inference and
//! applies one of three interpretations:
//!
//! - **`Binary`**: thresholds the scalar score, giving 1 (positive class) or -1
//!   (negative class). Fails if the output tensor is not a single element.
//! - **`Probability`**: passes the raw score through unchanged.
//! - **`Raw`**: passes the raw model output through unchanged.
//!
//! Only the first output is read.

use vstd::prelude::*;

use crate::arithmetic::{MINUS_ONE, ONE};
use crate::config::OutputType;
use crate::numeric::F32;
use crate::pipeline::{InferenceScratchpad, PipelineError, ScratchpadView};
use crate::text::push_size_list;
use crate::types::{array_map, OutputView, TensorView};

verus! {

/// Transforms the first output tensor based on the configured output type.
#[derive(Debug)]
pub struct PostprocessStage {
    /// Decision boundary for binary classification.
    pub threshold: F32,
    /// How to interpret and transform the raw model score.
    pub output_type: OutputType,
}

/// The class of a score: 1 above the threshold, -1 otherwise.
pub open spec fn class_of(score: F32, threshold: F32) -> F32 {
    if threshold.spec_lt(score) {
        F32 { bits: ONE }
    } else {
        F32 { bits: MINUS_ONE }
    }
}

impl PostprocessStage {
    /// True if the outputs can be interpreted.
    pub open spec fn accepts(self, outputs: Seq<OutputView>) -> bool {
        outputs.len() > 0 && (self.output_type == OutputType::Binary
            ==> outputs[0].data.elements.len() == 1)
    }

    /// The message with which outputs that cannot be interpreted are refused.
    pub open spec fn complaint(self, outputs: Seq<OutputView>) -> Seq<char> {
        if outputs.len() == 0 {
            "postprocess: no outputs from infer stage"@
        } else {
            "postprocess: binary output type requires a scalar output, got shape "@
                + crate::text::list_text(crate::text::size_ints(outputs[0].data.axes))
        }
    }

    /// What becomes of the scratchpad if the outputs can be interpreted.
    pub open spec fn output(self, pad: ScratchpadView) -> ScratchpadView {
        if self.output_type == OutputType::Binary {
            let first = pad.outputs[0];
            let classes = first.data.elements.map_values(
                |score: F32| class_of(score, self.threshold),
            );
            let data = TensorView { axes: first.data.axes, elements: classes };
            ScratchpadView {
                outputs: pad.outputs.update(0, OutputView { name: first.name, data }),
                ..pad
            }
        } else {
            pad
        }
    }

    /// Interprets the first output in place.
    pub fn run(&mut self, ctx: &mut InferenceScratchpad) -> (done: Result<(), PipelineError>)
        ensures
            *final(self) == *old(self),
            done is Ok <==> old(self).accepts(old(ctx)@.outputs),
            done is Ok ==> final(ctx)@ == old(self).output(old(ctx)@),
            done is Ok && old(self).output_type == OutputType::Binary ==> {
                let before = old(ctx)@.outputs[0].data.elements;
                let after = final(ctx)@.outputs[0].data.elements;
                &&& before.len() == 1 && after.len() == 1
                &&& after[0].bits == (if old(self).threshold.spec_lt(before[0]) {
                    ONE
                } else {
                    MINUS_ONE
                })
            },
            done is Ok && old(self).output_type != OutputType::Binary ==> final(ctx)@ == old(ctx)@,
            done is Err ==> final(ctx)@ == old(ctx)@ && done->Err_0.reports(
                "PostprocessStage"@,
                old(self).complaint(old(ctx)@.outputs),
            ),
    {
        if ctx.outputs.len() == 0 {
            return Err(
                PipelineError::StageFailed {
                    stage: "PostprocessStage",
                    message: "postprocess: no outputs from infer stage".to_owned(),
                },
            );
        }
        assert(ctx@.outputs[0] == ctx.outputs@[0]@);
        match self.output_type {
            OutputType::Binary => {
                if ctx.outputs[0].data.len() != 1 {
                    let mut message = String::new();
                    message.append(
                        "postprocess: binary output type requires a scalar output, got shape ",
                    );
                    push_size_list(&mut message, &ctx.outputs[0].data.shape());
                    assert(message@ =~= self.complaint(ctx@.outputs));
                    return Err(PipelineError::StageFailed { stage: "PostprocessStage", message });
                }
                let threshold = self.threshold;
                let classify = |bits: u32| -> (mapped: u32)
                    ensures
                        (F32 { bits: mapped }) == class_of(F32 { bits }, threshold),
                    {
                        if threshold.lt(F32::from_bits(bits)) {
                            ONE
                        } else {
                            MINUS_ONE
                        }
                    };
                array_map(&mut ctx.outputs[0].data, classify);
                proof {
                    let wanted = self.output(old(ctx)@);
                    assert(ctx@.outputs[0].data.elements =~= wanted.outputs[0].data.elements);
                    assert(ctx@.outputs =~= wanted.outputs);
                    assert(ctx@ =~= wanted);
                }
            },
            OutputType::Probability | OutputType::Raw => {},
        }
        Ok(())
    }
}

/// Law: a binary score is 1 or -1, and 1 exactly if it was above the threshold.
pub proof fn law_binary_is_a_sign(score: F32, threshold: F32)
    ensures
        class_of(score, threshold).bits == ONE || class_of(score, threshold).bits == MINUS_ONE,
        class_of(score, threshold).bits == ONE <==> threshold.spec_lt(score),
{
}

/// Law: outputs other than the first, and everything but the outputs, are left
/// as they are; names and shapes are left as they are everywhere.
pub proof fn law_postprocess_touches_first_output_only(
    stage: PostprocessStage,
    pad: ScratchpadView,
    i: int,
)
    requires
        stage.accepts(pad.outputs),
        0 <= i < pad.outputs.len(),
    ensures
        stage.output(pad).outputs.len() == pad.outputs.len(),
        stage.output(pad).outputs[i].name == pad.outputs[i].name,
        stage.output(pad).outputs[i].data.axes == pad.outputs[i].data.axes,
        i > 0 ==> stage.output(pad).outputs[i] == pad.outputs[i],
        stage.output(pad).input == pad.input,
        stage.output(pad).entity_id == pad.entity_id,
        stage.output(pad).request_id == pad.request_id,
        stage.output(pad).timestamp_ms == pad.timestamp_ms,
{
}

/// Law: a stage takes outputs exactly if there is a first one, and for a binary
/// output if that has a single element.
pub proof fn law_what_postprocess_accepts(stage: PostprocessStage, outputs: Seq<OutputView>)
    ensures
        stage.accepts(outputs) <==> outputs.len() > 0 && (stage.output_type == OutputType::Binary
            ==> outputs[0].data.elements.len() == 1),
{
}

/// Law: what cannot be interpreted is refused for the missing output, or for the
/// shape of the first one.
pub proof fn law_what_postprocess_complains_of(stage: PostprocessStage, outputs: Seq<OutputView>)
    ensures
        outputs.len() == 0 ==> stage.complaint(outputs)
            == "postprocess: no outputs from infer stage"@,
        outputs.len() > 0 ==> stage.complaint(outputs)
            == "postprocess: binary output type requires a scalar output, got shape "@
            + crate::text::list_text(crate::text::size_ints(outputs[0].data.axes)),
{
}

/// Law: a binary run leaves a single element in the first output: 1 exactly if
/// the score that was there lies above the threshold of the stage, and -1
/// otherwise.
pub proof fn law_binary_run_compares_with_its_threshold(
    stage: PostprocessStage,
    pad: ScratchpadView,
)
    requires
        stage.output_type == OutputType::Binary,
        stage.accepts(pad.outputs),
    ensures
        ({
            let score = pad.outputs[0].data.elements[0];
            let after = stage.output(pad).outputs[0].data.elements;
            &&& after.len() == 1
            &&& stage.threshold.spec_lt(score) ==> after[0].bits == 0x3f80_0000
            &&& !stage.threshold.spec_lt(score) ==> after[0].bits == 0xbf80_0000
        }),
{
}

/// Law: any other run leaves the scratchpad as it is.
pub proof fn law_other_runs_pass_through(stage: PostprocessStage, pad: ScratchpadView)
    requires
        stage.output_type != OutputType::Binary,
    ensures
        stage.output(pad) == pad,
{
}

/// Law: of two binary runs on the same score, the one with the lower threshold
/// does not give the lower class; of two on the same threshold, the one with the
/// lower score does not give the higher class.
pub proof fn law_classes_follow_scores_and_thresholds(
    low_score: F32,
    high_score: F32,
    low_threshold: F32,
    high_threshold: F32,
)
    requires
        low_score.spec_le(high_score),
        low_threshold.spec_le(high_threshold),
    ensures
        class_of(low_score, high_threshold).bits == 0x3f80_0000 ==> class_of(
            high_score,
            low_threshold,
        ).bits == 0x3f80_0000,
{
}

} // verus!
