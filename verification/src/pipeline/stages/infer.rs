//! Delegates inference to the configured backend.

use arrayvec::ArrayString;
use std::sync::Arc;
use vstd::prelude::*;

use crate::backend::Backend;
use crate::error::BackendError;
use crate::pipeline::{InferenceScratchpad, PipelineError};
use crate::types::{name_as_str, NamedTensorRef, MAX_TENSOR_NAME_LEN};

verus! {

/// Hands the input tensor to the backend, together with the scratchpad's output
/// buffers, which the backend writes in place.
#[derive(Debug)]
pub struct InferStage<B: Backend> {
    /// The configured inference backend.
    pub backend: Arc<B>,
    /// Name of the input tensor as declared in the model schema.
    pub input_name: ArrayString<MAX_TENSOR_NAME_LEN>,
}

impl<B: Backend> InferStage<B> {
    /// Runs the backend on the named input; only the outputs may change.
    pub fn run(&mut self, ctx: &mut InferenceScratchpad) -> (done: Result<(), PipelineError>)
        ensures
            *final(self) == *old(self),
            final(ctx).entity_id == old(ctx).entity_id,
            final(ctx).request_id == old(ctx).request_id,
            final(ctx).timestamp_ms == old(ctx).timestamp_ms,
            final(ctx).input == old(ctx).input,
            final(ctx).outputs@.len() == old(ctx).outputs@.len(),
            done is Ok ==> crate::types::same_declarations(
                final(ctx)@.outputs,
                old(ctx)@.outputs,
            ),
            exists|answer: Result<(), BackendError>| #[trigger]
                old(self).backend.answers(
                    seq![(crate::types::name_text(old(self).input_name), old(ctx)@.input)],
                    old(ctx)@.outputs,
                    final(ctx)@.outputs,
                    answer,
                ) && (done is Ok <==> answer is Ok) && (answer is Err
                    ==> done->Err_0.reports("InferStage"@, answer->Err_0.message_text())),
    {
        let input = NamedTensorRef { name: name_as_str(&self.input_name), data: &ctx.input };
        let mut inputs: Vec<NamedTensorRef<'_>> = Vec::new();
        inputs.push(input);
        assert(crate::backend::input_views(inputs@) =~= seq![
            (crate::types::name_text(self.input_name), ctx@.input),
        ]);
        let answer = self.backend.run(&inputs, &mut ctx.outputs);
        let ghost given = answer;
        assert(self.backend.answers(
            seq![(crate::types::name_text(old(self).input_name), old(ctx)@.input)],
            old(ctx)@.outputs,
            ctx@.outputs,
            given,
        ));
        stage_outcome(answer)
    }
}

/// What the stage makes of a backend's answer: a failure is reported with the
/// backend's message.
pub fn stage_outcome(answer: Result<(), BackendError>) -> (outcome: Result<(), PipelineError>)
    ensures
        outcome is Ok <==> answer is Ok,
        answer is Err ==> outcome->Err_0.reports("InferStage"@, answer->Err_0.message_text()),
{
    match answer {
        Ok(()) => Ok(()),
        Err(error) => Err(
            PipelineError::StageFailed { stage: "InferStage", message: error.message() },
        ),
    }
}

} // verus!
