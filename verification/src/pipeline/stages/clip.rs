//! Clamps input tensor values to a configured range.

use vstd::prelude::*;

use crate::numeric::F32;
use crate::pipeline::{InferenceScratchpad, PipelineError};
use crate::types::array_map;

verus! {

/// Clamps every element of the input tensor to the range `[min, max]`.
///
/// Runs before normalisation, so that outliers do not become extreme
/// normalised values.
#[derive(Debug)]
pub struct ClipStage {
    /// Lower bound; values below it become the bound.
    pub min: F32,
    /// Upper bound; values above it become the bound.
    pub max: F32,
}

/// The value that a value is clamped to; a NaN stays as it is.
pub open spec fn clamped(value: F32, min: F32, max: F32) -> F32 {
    if value.spec_lt(min) {
        min
    } else if max.spec_lt(value) {
        max
    } else {
        value
    }
}

impl ClipStage {
    /// What becomes of the input elements.
    pub open spec fn output(self, elements: Seq<F32>) -> Seq<F32> {
        elements.map_values(|value: F32| clamped(value, self.min, self.max))
    }

    /// Clamps the input; never fails.
    pub fn run(&mut self, ctx: &mut InferenceScratchpad) -> (done: Result<(), PipelineError>)
        requires
            old(self).min.spec_le(old(self).max),
        ensures
            done is Ok,
            *final(self) == *old(self),
            final(ctx)@ == old(ctx)@.with_input(old(self).output(old(ctx)@.input.elements)),
            final(ctx)@.input.elements.len() == old(ctx)@.input.elements.len(),
            forall|i: int|
                0 <= i < old(ctx)@.input.elements.len() ==> {
                    let before = old(ctx)@.input.elements[i];
                    #[trigger] final(ctx)@.input.elements[i] == (if before.spec_lt(old(self).min) {
                        old(self).min
                    } else if old(self).max.spec_lt(before) {
                        old(self).max
                    } else {
                        before
                    })
                },
    {
        let min = self.min;
        let max = self.max;
        let clamp = |bits: u32| -> (mapped: u32)
            ensures
                (F32 { bits: mapped }) == clamped(F32 { bits }, min, max),
            {
                let value = F32::from_bits(bits);
                if value.lt(min) {
                    min.to_bits()
                } else if max.lt(value) {
                    max.to_bits()
                } else {
                    bits
                }
            };
        array_map(&mut ctx.input, clamp);
        assert(ctx@ =~= old(ctx)@.with_input(self.output(old(ctx)@.input.elements)));
        Ok(())
    }
}

/// Law: what comes out of clipping lies in the range, unless it is a NaN.
pub proof fn law_clipped_in_range(value: F32, min: F32, max: F32)
    requires
        min.spec_le(max),
        !value.spec_is_nan(),
    ensures
        min.spec_le(clamped(value, min, max)),
        clamped(value, min, max).spec_le(max),
{
}

/// Law: a value in the range is left as it is, and so is a NaN.
pub proof fn law_clip_keeps_range(value: F32, min: F32, max: F32)
    requires
        (min.spec_le(value) && value.spec_le(max)) || value.spec_is_nan(),
    ensures
        clamped(value, min, max) == value,
{
}

/// Law: clipping twice is clipping once.
pub proof fn law_clip_is_idempotent(value: F32, min: F32, max: F32)
    requires
        min.spec_le(max),
    ensures
        clamped(clamped(value, min, max), min, max) == clamped(value, min, max),
{
}

/// Law: clipping keeps the order of values.
pub proof fn law_clip_keeps_order(small: F32, large: F32, min: F32, max: F32)
    requires
        min.spec_le(max),
        small.spec_le(large),
    ensures
        clamped(small, min, max).spec_le(clamped(large, min, max)),
{
}

/// Law: after imputation with a number and clipping, every value lies in the
/// range, whatever it was before.
pub proof fn law_imputed_then_clipped_in_range(
    impute: crate::pipeline::stages::impute::ImputeStage,
    clip: ClipStage,
    elements: Seq<F32>,
    i: int,
)
    requires
        !impute.default_value.spec_is_nan(),
        clip.min.spec_le(clip.max),
        0 <= i < elements.len(),
    ensures
        clip.min.spec_le(clip.output(impute.output(elements))[i]),
        clip.output(impute.output(elements))[i].spec_le(clip.max),
{
}

/// Law: a value below the lower bound becomes that bound, one above the upper
/// bound becomes that one, and every other value is left as it is.
pub proof fn law_clip_moves_outliers_to_the_bounds(value: F32, min: F32, max: F32)
    requires
        min.spec_le(max),
    ensures
        value.spec_lt(min) ==> clamped(value, min, max) == min,
        max.spec_lt(value) ==> clamped(value, min, max) == max,
        !value.spec_lt(min) && !max.spec_lt(value) ==> clamped(value, min, max) == value,
{
}

/// Law: each element is clipped on its own, to the bounds of the stage.
pub proof fn law_clip_stage_uses_its_bounds(stage: ClipStage, elements: Seq<F32>, i: int)
    requires
        stage.min.spec_le(stage.max),
        0 <= i < elements.len(),
    ensures
        stage.output(elements).len() == elements.len(),
        elements[i].spec_lt(stage.min) ==> stage.output(elements)[i] == stage.min,
        stage.max.spec_lt(elements[i]) ==> stage.output(elements)[i] == stage.max,
        !elements[i].spec_lt(stage.min) && !stage.max.spec_lt(elements[i]) ==> stage.output(
            elements,
        )[i] == elements[i],
{
}

} // verus!
