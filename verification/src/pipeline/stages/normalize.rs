//! Normalises the input tensor by subtracting the mean and multiplying by the
//! reciprocal of the standard deviation.

use vstd::prelude::*;

use crate::numeric::F32;
use crate::pipeline::{InferenceScratchpad, PipelineError};
use crate::types::array_map;

verus! {

/// Applies zero-mean unit-variance normalisation to the input tensor.
///
/// Each element `x` becomes `(x - mean) * inv_std`, each operation rounded. The
/// reciprocal is computed once at startup, so that a request multiplies instead
/// of dividing.
#[derive(Debug)]
pub struct NormalizeStage {
    /// Value subtracted from each element.
    pub mean: F32,
    /// Reciprocal of the standard deviation.
    pub inv_std: F32,
}

/// True if `result` is what `value` is normalised to.
pub open spec fn normalized(value: F32, mean: F32, inv_std: F32, result: F32) -> bool {
    exists|centred: F32| #[trigger]
        centred.is_difference(value, mean) && result.is_product(centred, inv_std)
}

impl NormalizeStage {
    /// Normalises the input; never fails.
    pub fn run(&mut self, ctx: &mut InferenceScratchpad) -> (done: Result<(), PipelineError>)
        ensures
            done is Ok,
            *final(self) == *old(self),
            final(ctx)@ == old(ctx)@.with_input(final(ctx)@.input.elements),
            final(ctx)@.input.elements.len() == old(ctx)@.input.elements.len(),
            forall|i: int|
                0 <= i < old(ctx)@.input.elements.len() ==> normalized(
                    old(ctx)@.input.elements[i],
                    old(self).mean,
                    old(self).inv_std,
                    #[trigger] final(ctx)@.input.elements[i],
                ),
    {
        let mean = self.mean;
        let inv_std = self.inv_std;
        let normalize = |bits: u32| -> (mapped: u32)
            ensures
                normalized(F32 { bits }, mean, inv_std, F32 { bits: mapped }),
            {
                F32::from_bits(bits).minus(mean).times(inv_std).to_bits()
            };
        array_map(&mut ctx.input, normalize);
        assert(ctx@ =~= old(ctx)@.with_input(ctx@.input.elements));
        Ok(())
    }
}

/// Law: a value is normalised to one value, unless that is a NaN.
pub proof fn law_normalized_is_unique(value: F32, mean: F32, inv_std: F32, one: F32, other: F32)
    requires
        normalized(value, mean, inv_std, one),
        normalized(value, mean, inv_std, other),
    ensures
        one == other || (one.spec_is_nan() && other.spec_is_nan()),
{
    let first = choose|centred: F32| #[trigger]
        centred.is_difference(value, mean) && one.is_product(centred, inv_std);
    let second = choose|centred: F32| #[trigger]
        centred.is_difference(value, mean) && other.is_product(centred, inv_std);
    crate::arithmetic::law_difference_is_unique(value, mean, first, second);
    if first == second {
        crate::arithmetic::law_product_is_unique(first, inv_std, one, other);
    }
}

/// Law: the mean itself is normalised to a zero, whatever the scale.
pub proof fn law_mean_becomes_zero(mean: F32, inv_std: F32, result: F32)
    requires
        mean.spec_is_finite(),
        inv_std.spec_is_finite(),
        normalized(mean, mean, inv_std, result),
    ensures
        result.spec_is_zero(),
{
    let centred = choose|centred: F32| #[trigger]
        centred.is_difference(mean, mean) && result.is_product(centred, inv_std);
    assert(centred.bits == 0);
    crate::arithmetic::lemma_zero_times(centred, inv_std, result);
}

/// Law: normalising by a mean of 0 and a scale of 1 changes nothing.
pub proof fn law_standard_scale_changes_nothing(value: F32, result: F32)
    requires
        !value.spec_is_nan(),
        normalized(value, F32 { bits: 0 }, F32 { bits: crate::arithmetic::ONE }, result),
    ensures
        result == value,
{
    let zero = F32 { bits: 0 };
    let one = F32 { bits: crate::arithmetic::ONE };
    let centred = choose|centred: F32| #[trigger]
        centred.is_difference(value, zero) && result.is_product(centred, one);
    crate::arithmetic::lemma_minus_zero(value, centred);
    crate::arithmetic::lemma_times_one(value, result);
}

/// Law: a value is normalised to the rounded product of the scale with the
/// rounded difference of the value and the mean, whatever their signs.
pub proof fn law_normalized_is_centred_then_scaled(
    value: F32,
    mean: F32,
    inv_std: F32,
    centred: F32,
    result: F32,
)
    requires
        normalized(value, mean, inv_std, result),
        centred.is_difference(value, mean),
    ensures
        result.is_product(centred, inv_std),
{
    let other = choose|other: F32| #[trigger]
        other.is_difference(value, mean) && result.is_product(other, inv_std);
    crate::arithmetic::law_difference_is_unique(value, mean, centred, other);
}

/// Law: what a rounded product and a rounded difference give is what a value is
/// normalised to.
pub proof fn law_centred_then_scaled_is_normalized(
    value: F32,
    mean: F32,
    inv_std: F32,
    centred: F32,
    result: F32,
)
    requires
        centred.is_difference(value, mean),
        result.is_product(centred, inv_std),
    ensures
        normalized(value, mean, inv_std, result),
{
}

/// Law: normalising by a mean is normalising the centred value by a mean of
/// zero.
pub proof fn law_centred_value_normalizes_alike(
    value: F32,
    mean: F32,
    inv_std: F32,
    centred: F32,
    result: F32,
)
    requires
        !centred.spec_is_nan(),
        centred.is_difference(value, mean),
        normalized(value, mean, inv_std, result),
    ensures
        normalized(centred, F32 { bits: 0 }, inv_std, result),
{
    law_normalized_is_centred_then_scaled(value, mean, inv_std, centred, result);
    lemma_difference_with_zero(centred);
    law_centred_then_scaled_is_normalized(centred, F32 { bits: 0 }, inv_std, centred, result);
}

/// A number is its own difference with a positive zero.
proof fn lemma_difference_with_zero(value: F32)
    requires
        !value.spec_is_nan(),
    ensures
        value.is_difference(value, F32 { bits: 0 }),
{
    crate::numeric::lemma_magnitude_trichotomy(0, 0);
    crate::numeric::lemma_magnitude_trichotomy(0, value.spec_magnitude());
    if value.spec_is_finite() {
        crate::rounding::law_rounding_is_exact(value.spec_magnitude());
    }
}

/// Law: no number lies nearer to the scaled distance of a value from the mean
/// than what the value is normalised to, if that distance is a real number.
pub proof fn law_normalized_is_nearest(
    value: F32,
    mean: F32,
    inv_std: F32,
    centred: F32,
    result: F32,
    other: F32,
)
    requires
        value.spec_is_finite(),
        mean.spec_is_finite(),
        inv_std.spec_is_finite(),
        centred.is_difference(value, mean),
        centred.spec_is_finite(),
        normalized(value, mean, inv_std, result),
        !other.spec_is_nan(),
    ensures
        crate::rounding::distance(centred.units(), value.units() - mean.units())
            <= crate::rounding::distance(other.units(), value.units() - mean.units()),
        crate::rounding::distance(
            result.units() * vstd::arithmetic::power2::pow2(149),
            centred.units() * inv_std.units(),
        ) <= crate::rounding::distance(
            other.units() * vstd::arithmetic::power2::pow2(149),
            centred.units() * inv_std.units(),
        ),
{
    law_normalized_is_centred_then_scaled(value, mean, inv_std, centred, result);
    crate::arithmetic::law_difference_is_nearest(value, mean, centred, other);
    crate::arithmetic::law_product_is_nearest(centred, inv_std, result, other);
}

} // verus!
