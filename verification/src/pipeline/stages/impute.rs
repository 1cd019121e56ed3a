//! Replaces NaN values in the input tensor with a configured default.

use vstd::prelude::*;

use crate::numeric::F32;
use crate::pipeline::{InferenceScratchpad, PipelineError};
use crate::types::array_map;

verus! {

/// Replaces every NaN element of the input tensor with `default_value`.
///
/// Runs before normalisation, so that missing values do not spread as NaN
/// through the rest of the pipeline.
#[derive(Debug)]
pub struct ImputeStage {
    /// Value substituted for each NaN element.
    pub default_value: F32,
}

/// The value that a value is imputed to.
pub open spec fn imputed(value: F32, default_value: F32) -> F32 {
    if value.spec_is_nan() {
        default_value
    } else {
        value
    }
}

impl ImputeStage {
    /// What becomes of the input elements.
    pub open spec fn output(self, elements: Seq<F32>) -> Seq<F32> {
        elements.map_values(|value: F32| imputed(value, self.default_value))
    }

    /// Imputes the input; never fails.
    pub fn run(&mut self, ctx: &mut InferenceScratchpad) -> (done: Result<(), PipelineError>)
        ensures
            done is Ok,
            *final(self) == *old(self),
            final(ctx)@ == old(ctx)@.with_input(old(self).output(old(ctx)@.input.elements)),
            final(ctx)@.input.elements.len() == old(ctx)@.input.elements.len(),
            forall|i: int|
                0 <= i < old(ctx)@.input.elements.len() ==> {
                    let before = old(ctx)@.input.elements[i];
                    #[trigger] final(ctx)@.input.elements[i] == (if before.spec_is_nan() {
                        old(self).default_value
                    } else {
                        before
                    })
                },
    {
        let default_value = self.default_value;
        let impute = |bits: u32| -> (mapped: u32)
            ensures
                (F32 { bits: mapped }) == imputed(F32 { bits }, default_value),
            {
                if F32::from_bits(bits).is_nan() {
                    default_value.to_bits()
                } else {
                    bits
                }
            };
        array_map(&mut ctx.input, impute);
        assert(ctx@ =~= old(ctx)@.with_input(self.output(old(ctx)@.input.elements)));
        Ok(())
    }
}

/// Law: no NaN survives imputation with a default that is a number.
pub proof fn law_impute_removes_nan(stage: ImputeStage, elements: Seq<F32>)
    requires
        !stage.default_value.spec_is_nan(),
    ensures
        stage.output(elements).len() == elements.len(),
        forall|i: int|
            0 <= i < elements.len() ==> !(#[trigger] stage.output(elements)[i]).spec_is_nan(),
{
}

/// Law: imputation leaves every number as it is, whatever the default.
pub proof fn law_impute_keeps_numbers(stage: ImputeStage, elements: Seq<F32>, i: int)
    requires
        0 <= i < elements.len(),
        !elements[i].spec_is_nan(),
    ensures
        stage.output(elements)[i] == elements[i],
{
}

/// Law: each element is imputed on its own: a NaN becomes the default of the
/// stage, and every other value is left as it is.
pub proof fn law_impute_stage_uses_its_default(stage: ImputeStage, elements: Seq<F32>, i: int)
    requires
        0 <= i < elements.len(),
    ensures
        stage.output(elements).len() == elements.len(),
        elements[i].spec_is_nan() ==> stage.output(elements)[i] == stage.default_value,
        !elements[i].spec_is_nan() ==> stage.output(elements)[i] == elements[i],
{
}

} // verus!
