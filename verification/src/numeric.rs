//! Single-precision values, held as their bit patterns.
//!
//! A served feature or score is an IEEE 754 binary32 number. The library keeps
//! it as a 32-bit pattern and gives every pattern its meaning as a multiple of
//! the smallest subnormal, so that comparisons are statements about integers.

use vstd::prelude::*;

verus! {

/// First bit pattern with the sign bit set.
pub const SIGN_BIT: u32 = 0x8000_0000;

/// Magnitude of the infinities; every larger magnitude is a NaN.
pub const INFINITY_MAGNITUDE: u32 = 0x7f80_0000;

/// Number of fraction values per exponent.
pub const FRACTION_SPAN: u32 = 0x0080_0000;

/// A binary32 number, identified by its bit pattern.
///
/// Two values are `==` when their patterns are; numeric comparison, in which
/// the zeros agree and a NaN agrees with nothing, is [`F32::lt`] and its kin.
#[derive(Clone, Copy, Debug, PartialEq, Eq, Structural)]
pub struct F32 {
    /// The IEEE 754 encoding.
    pub bits: u32,
}

/// The size, in units of the smallest subnormal, that a magnitude encodes.
///
/// The infinities get the size that the next exponent would have, which is
/// larger than every finite size.
pub open spec fn magnitude_units(magnitude: int) -> int {
    let exponent = magnitude / (FRACTION_SPAN as int);
    let fraction = magnitude % (FRACTION_SPAN as int);
    if exponent == 0 {
        fraction
    } else {
        (fraction + FRACTION_SPAN) * vstd::arithmetic::power2::pow2((exponent - 1) as nat)
    }
}

impl F32 {
    /// The pattern without its sign bit.
    pub open spec fn spec_magnitude(self) -> int {
        if self.bits >= SIGN_BIT {
            self.bits - SIGN_BIT
        } else {
            self.bits as int
        }
    }

    /// True for the patterns that encode no number.
    pub open spec fn spec_is_nan(self) -> bool {
        self.spec_magnitude() > INFINITY_MAGNITUDE
    }

    /// True for the patterns that encode a real number.
    pub open spec fn spec_is_finite(self) -> bool {
        self.spec_magnitude() < INFINITY_MAGNITUDE
    }

    /// The number, as a multiple of the smallest subnormal.
    pub open spec fn units(self) -> int {
        if self.bits >= SIGN_BIT {
            -magnitude_units(self.spec_magnitude())
        } else {
            magnitude_units(self.spec_magnitude())
        }
    }

    /// Numeric order; no NaN is below or above anything.
    pub open spec fn spec_lt(self, other: F32) -> bool {
        !self.spec_is_nan() && !other.spec_is_nan() && self.units() < other.units()
    }

    /// Numeric order or equality; false as soon as a NaN is involved.
    pub open spec fn spec_le(self, other: F32) -> bool {
        !self.spec_is_nan() && !other.spec_is_nan() && self.units() <= other.units()
    }

    /// True for both zeros.
    pub open spec fn spec_is_zero(self) -> bool {
        self.units() == 0
    }

    /// Builds the value that `bits` encodes.
    pub fn from_bits(bits: u32) -> (value: F32)
        ensures
            value == (F32 { bits }),
    {
        F32 { bits }
    }

    /// The IEEE 754 encoding of this value.
    pub fn to_bits(self) -> (bits: u32)
        ensures
            bits == self.bits,
    {
        self.bits
    }

    /// The pattern without its sign bit.
    pub(crate) fn magnitude(self) -> (magnitude: u32)
        ensures
            magnitude == self.spec_magnitude(),
            magnitude < SIGN_BIT,
    {
        if self.bits >= SIGN_BIT {
            self.bits - SIGN_BIT
        } else {
            self.bits
        }
    }

    /// True if this value is a NaN.
    pub fn is_nan(self) -> (nan: bool)
        ensures
            nan == self.spec_is_nan(),
    {
        self.magnitude() > INFINITY_MAGNITUDE
    }

    /// True if this value is neither a NaN nor infinite.
    pub fn is_finite(self) -> (finite: bool)
        ensures
            finite == self.spec_is_finite(),
    {
        self.magnitude() < INFINITY_MAGNITUDE
    }

    /// True if this value is zero, of either sign.
    pub fn is_zero(self) -> (zero: bool)
        ensures
            zero == self.spec_is_zero(),
    {
        proof {
            if self.spec_magnitude() > 0 {
                lemma_magnitude_order(0, self.spec_magnitude());
            }
        }
        self.magnitude() == 0
    }

    /// True if `self` is numerically below `other`.
    pub fn lt(self, other: F32) -> (less: bool)
        ensures
            less == self.spec_lt(other),
    {
        if self.is_nan() || other.is_nan() {
            return false;
        }
        let left = self.magnitude();
        let right = other.magnitude();
        let left_negative = self.bits >= SIGN_BIT;
        let right_negative = other.bits >= SIGN_BIT;
        proof {
            lemma_magnitude_trichotomy(left as int, right as int);
            lemma_magnitude_trichotomy(0, left as int);
            lemma_magnitude_trichotomy(0, right as int);
        }
        if left_negative {
            if right_negative {
                right < left
            } else {
                left > 0 || right > 0
            }
        } else if right_negative {
            false
        } else {
            left < right
        }
    }

    /// True if `self` is numerically below or equal to `other`.
    pub fn le(self, other: F32) -> (less: bool)
        ensures
            less == self.spec_le(other),
    {
        if self.is_nan() || other.is_nan() {
            false
        } else {
            !other.lt(self)
        }
    }
}

/// A smaller magnitude encodes a smaller size, up to and with the infinities.
pub proof fn lemma_magnitude_order(small: int, large: int)
    requires
        0 <= small < large,
    ensures
        magnitude_units(small) < magnitude_units(large),
{
    let span = FRACTION_SPAN as int;
    let e1 = small / span;
    let e2 = large / span;
    let f1 = small % span;
    let f2 = large % span;
    assert(small == e1 * span + f1 && 0 <= f1 < span && large == e2 * span + f2 && 0 <= f2 < span)
        by (nonlinear_arith)
        requires
            span == 0x80_0000,
            e1 == small / span,
            e2 == large / span,
            f1 == small % span,
            f2 == large % span,
    ;
    assert(e1 <= e2) by (nonlinear_arith)
        requires
            span == 0x80_0000,
            small == e1 * span + f1,
            large == e2 * span + f2,
            0 <= f1 < span,
            0 <= f2 < span,
            small < large,
    ;
    assert(e1 >= 0) by (nonlinear_arith)
        requires
            span == 0x80_0000,
            small == e1 * span + f1,
            f1 < span,
            0 <= small,
    ;
    if e1 == e2 {
        assert(f1 < f2);
        if e1 > 0 {
            let scale = vstd::arithmetic::power2::pow2((e1 - 1) as nat) as int;
            vstd::arithmetic::power2::lemma_pow2_pos((e1 - 1) as nat);
            assert((f1 + span) * scale < (f2 + span) * scale) by (nonlinear_arith)
                requires
                    f1 < f2,
                    scale > 0,
            ;
        }
    } else {
        let scale2 = vstd::arithmetic::power2::pow2((e2 - 1) as nat) as int;
        vstd::arithmetic::power2::lemma_pow2_pos((e2 - 1) as nat);
        assert(span * scale2 <= (f2 + span) * scale2) by (nonlinear_arith)
            requires
                f2 >= 0,
                scale2 > 0,
        ;
        if e1 == 0 {
            assert(span <= span * scale2) by (nonlinear_arith)
                requires
                    span > 0,
                    scale2 >= 1,
            ;
        } else {
            let scale1 = vstd::arithmetic::power2::pow2((e1 - 1) as nat) as int;
            vstd::arithmetic::power2::lemma_pow2_pos((e1 - 1) as nat);
            vstd::arithmetic::power2::lemma_pow2_unfold(e1 as nat);
            if e1 < e2 - 1 {
                vstd::arithmetic::power2::lemma_pow2_strictly_increases(
                    e1 as nat,
                    (e2 - 1) as nat,
                );
            }
            assert(2 * scale1 <= scale2);
            assert((f1 + span) * scale1 < span * scale2) by (nonlinear_arith)
                requires
                    f1 < span,
                    scale1 > 0,
                    span > 0,
                    2 * scale1 <= scale2,
            ;
        }
    }
}

/// Magnitudes and the sizes they encode are ordered alike.
pub proof fn lemma_magnitude_trichotomy(left: int, right: int)
    requires
        0 <= left,
        0 <= right,
    ensures
        left < right <==> magnitude_units(left) < magnitude_units(right),
        left == right <==> magnitude_units(left) == magnitude_units(right),
        magnitude_units(0) == 0,
{
    if left < right {
        lemma_magnitude_order(left, right);
    } else if right < left {
        lemma_magnitude_order(right, left);
    }
}

/// Law: a pattern is a sign bit, eight exponent bits and 23 fraction bits. An
/// exponent of zero leaves the fraction as the number of smallest subnormals;
/// any other adds the leading one and doubles with every step. The highest
/// exponent is kept for the infinities and the NaNs.
pub proof fn law_pattern_meaning(value: F32)
    ensures
        ({
            let exponent = (value.bits as int % 0x8000_0000) / 0x80_0000;
            let fraction = value.bits as int % 0x80_0000;
            let size = if exponent == 0 {
                fraction
            } else {
                (0x80_0000 + fraction) * vstd::arithmetic::power2::pow2((exponent - 1) as nat)
            };
            &&& value.units() == (if value.bits < 0x8000_0000 {
                size
            } else {
                -size
            })
            &&& value.spec_is_finite() <==> exponent < 255
            &&& value.spec_is_nan() <==> exponent == 255 && fraction > 0
            &&& value.spec_is_zero() <==> exponent == 0 && fraction == 0
        }),
{
    let magnitude = value.spec_magnitude();
    assert(magnitude == value.bits as int % 0x8000_0000);
    assert(magnitude % 0x80_0000 == value.bits as int % 0x80_0000);
    lemma_magnitude_trichotomy(0, magnitude);
}

/// Law: numbers are ordered as their patterns are, read as an integer with a
/// sign in front; a NaN is neither below nor above anything.
pub proof fn law_order_is_that_of_patterns(left: F32, right: F32)
    ensures
        ({
            let left_rank = if left.bits < 0x8000_0000 {
                left.bits as int
            } else {
                0x8000_0000 - left.bits
            };
            let right_rank = if right.bits < 0x8000_0000 {
                right.bits as int
            } else {
                0x8000_0000 - right.bits
            };
            let numbers = left.bits as int % 0x8000_0000 <= 0x7f80_0000 && right.bits as int
                % 0x8000_0000 <= 0x7f80_0000;
            &&& left.spec_lt(right) <==> numbers && left_rank < right_rank
            &&& left.spec_le(right) <==> numbers && left_rank <= right_rank
        }),
{
    let left_size = left.spec_magnitude();
    let right_size = right.spec_magnitude();
    assert(left_size == left.bits as int % 0x8000_0000);
    assert(right_size == right.bits as int % 0x8000_0000);
    lemma_magnitude_trichotomy(left_size, right_size);
    lemma_magnitude_trichotomy(right_size, left_size);
    lemma_magnitude_trichotomy(0, left_size);
    lemma_magnitude_trichotomy(0, right_size);
}

/// Law: the order of numbers is total and transitive, and strict order is what
/// it leaves out the other way round.
pub proof fn law_order_is_total(left: F32, middle: F32, right: F32)
    requires
        !left.spec_is_nan(),
        !middle.spec_is_nan(),
        !right.spec_is_nan(),
    ensures
        left.spec_le(right) || right.spec_le(left),
        left.spec_lt(right) <==> !right.spec_le(left),
        left.spec_le(middle) && middle.spec_le(right) ==> left.spec_le(right),
        left.spec_le(right) && right.spec_le(left) ==> left == right || (left.spec_is_zero()
            && right.spec_is_zero()),
{
    lemma_magnitude_trichotomy(left.spec_magnitude(), right.spec_magnitude());
    lemma_magnitude_trichotomy(0, left.spec_magnitude());
    lemma_magnitude_trichotomy(0, right.spec_magnitude());
}

} // verus!
