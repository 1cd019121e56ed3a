//! Single-precision arithmetic: difference, product, reciprocal.
//!
//! Every result is the exact one, rounded once to the nearest value, ties to
//! even.

use vstd::prelude::*;

use crate::numeric::{F32, FRACTION_SPAN, INFINITY_MAGNITUDE, SIGN_BIT};
use crate::rounding::{nearest_magnitude, Tail};

verus! {

/// Bit pattern of the NaN that undefined operations give.
pub const QUIET_NAN: u32 = 0x7fc0_0000;

/// Bit pattern of 1.
pub const ONE: u32 = 0x3f80_0000;

/// Bit pattern of -1.
pub const MINUS_ONE: u32 = 0xbf80_0000;

/// Units of the smallest subnormal in 1, as a power of two.
pub const ONE_EXPONENT: i32 = 149;

impl F32 {
    /// True if the sign bit is set.
    pub open spec fn spec_negative(self) -> bool {
        self.bits >= SIGN_BIT
    }

    /// True for both infinities.
    pub open spec fn spec_is_infinite(self) -> bool {
        self.spec_magnitude() == INFINITY_MAGNITUDE
    }

    /// The number without its sign, as a multiple of the smallest subnormal.
    pub open spec fn size(self) -> int {
        crate::numeric::magnitude_units(self.spec_magnitude())
    }

    /// True if this is `num / den` with the given sign, rounded.
    pub open spec fn rounds(self, negative: bool, num: int, den: int) -> bool {
        self.spec_negative() == negative && crate::rounding::rounds_to(
            num,
            den,
            self.spec_magnitude(),
        )
    }

    /// The same value with the other sign.
    pub open spec fn spec_negated(self) -> F32 {
        if self.spec_negative() {
            F32 { bits: (self.bits - SIGN_BIT) as u32 }
        } else {
            F32 { bits: (self.bits + SIGN_BIT) as u32 }
        }
    }

    /// True if this is the difference of two values.
    ///
    /// The difference of equal infinities is a NaN; a difference of zero is
    /// positive, but for a negative zero less a positive one.
    pub open spec fn is_difference(self, left: F32, right: F32) -> bool {
        let exact = left.units() - right.units();
        if left.spec_is_nan() || right.spec_is_nan() {
            self.spec_is_nan()
        } else if left.spec_is_infinite() {
            if right.spec_is_infinite() && left.spec_negative() == right.spec_negative() {
                self.spec_is_nan()
            } else {
                self == left
            }
        } else if right.spec_is_infinite() {
            self == right.spec_negated()
        } else if exact == 0 {
            self == (F32 {
                bits: if left.spec_negative() && !right.spec_negative() {
                    SIGN_BIT
                } else {
                    0
                },
            })
        } else if exact < 0 {
            self.rounds(true, -exact, 1)
        } else {
            self.rounds(false, exact, 1)
        }
    }

    /// True if this is the product of two values.
    ///
    /// An infinity times a zero is a NaN; the sign is negative if the signs of
    /// the factors differ.
    pub open spec fn is_product(self, left: F32, right: F32) -> bool {
        if left.spec_is_nan() || right.spec_is_nan() {
            self.spec_is_nan()
        } else if left.spec_is_infinite() || right.spec_is_infinite() {
            if left.spec_is_zero() || right.spec_is_zero() {
                self.spec_is_nan()
            } else {
                self.spec_is_infinite() && self.spec_negative() == (left.spec_negative()
                    != right.spec_negative())
            }
        } else {
            self.rounds(
                left.spec_negative() != right.spec_negative(),
                left.size() * right.size(),
                vstd::arithmetic::power2::pow2(ONE_EXPONENT as nat) as int,
            )
        }
    }

    /// True if this is 1 divided by a value.
    ///
    /// A zero gives an infinity and an infinity a zero, of the same sign.
    pub open spec fn is_reciprocal(self, value: F32) -> bool {
        if value.spec_is_nan() {
            self.spec_is_nan()
        } else if value.spec_is_infinite() {
            self.spec_magnitude() == 0 && self.spec_negative() == value.spec_negative()
        } else if value.spec_is_zero() {
            self.spec_is_infinite() && self.spec_negative() == value.spec_negative()
        } else {
            self.rounds(
                value.spec_negative(),
                vstd::arithmetic::power2::pow2((2 * ONE_EXPONENT) as nat) as int,
                value.size(),
            )
        }
    }

    /// True if `count` is the integer nearest to this value, halves rounded up,
    /// or the largest count if the value is beyond it.
    pub open spec fn counts_as(self, count: u64) -> bool {
        let one = vstd::arithmetic::power2::pow2(ONE_EXPONENT as nat);
        if self.spec_is_infinite() {
            count == u64::MAX
        } else {
            &&& (2 * count - 1) * one <= 2 * self.size()
            &&& count == u64::MAX || 2 * self.size() < (2 * count + 1) * one
        }
    }

    /// The value with the given sign and magnitude.
    fn signed(negative: bool, magnitude: u32) -> (value: F32)
        requires
            magnitude < SIGN_BIT,
        ensures
            value.spec_magnitude() == magnitude,
            value.spec_negative() == negative,
    {
        if negative {
            F32 { bits: magnitude + SIGN_BIT }
        } else {
            F32 { bits: magnitude }
        }
    }

    /// True if the sign bit is set.
    fn negative(self) -> (negative: bool)
        ensures
            negative == self.spec_negative(),
    {
        self.bits >= SIGN_BIT
    }

    /// True if this value is infinite.
    pub fn is_infinite(self) -> (infinite: bool)
        ensures
            infinite == self.spec_is_infinite(),
    {
        self.magnitude() == INFINITY_MAGNITUDE
    }

    /// The same value with the other sign.
    pub fn negated(self) -> (value: F32)
        ensures
            value == self.spec_negated(),
    {
        if self.bits >= SIGN_BIT {
            F32 { bits: self.bits - SIGN_BIT }
        } else {
            F32 { bits: self.bits + SIGN_BIT }
        }
    }

    /// Splits a finite value into an integer and a power of two.
    fn parts(self) -> (parts: (u64, i32))
        requires
            self.spec_is_finite(),
        ensures
            parts.0 < 2 * FRACTION_SPAN,
            0 <= parts.1 <= 253,
            parts.1 > 0 ==> parts.0 >= FRACTION_SPAN,
            self.size() == parts.0 * vstd::arithmetic::power2::pow2(parts.1 as nat),
            self.size() == 0 <==> parts.0 == 0,
    {
        let magnitude = self.magnitude();
        let exponent: u32 = magnitude / FRACTION_SPAN;
        let fraction: u32 = magnitude % FRACTION_SPAN;
        proof {
            vstd::arithmetic::power2::lemma2_to64();
        }
        if exponent == 0 {
            proof {
                let scale = vstd::arithmetic::power2::pow2(0i32 as nat) as int;
                assert(fraction * scale == fraction) by (nonlinear_arith)
                    requires
                        scale == 1,
                ;
            }
            (fraction as u64, 0)
        } else {
            let power: i32 = (exponent - 1) as i32;
            proof {
                assert(self.spec_magnitude() / (FRACTION_SPAN as int) == exponent);
                assert(self.spec_magnitude() % (FRACTION_SPAN as int) == fraction);
                assert(power as nat == (exponent as int - 1) as nat);
                vstd::arithmetic::power2::lemma_pow2_pos((exponent - 1) as nat);
                let scale = vstd::arithmetic::power2::pow2((exponent - 1) as nat) as int;
                assert((fraction + FRACTION_SPAN) * scale > 0) by (nonlinear_arith)
                    requires
                        scale > 0,
                        fraction + FRACTION_SPAN > 0,
                ;
            }
            ((fraction + FRACTION_SPAN) as u64, power)
        }
    }

    /// The difference of two values.
    pub fn minus(self, other: F32) -> (difference: F32)
        ensures
            difference.is_difference(self, other),
    {
        if self.is_nan() || other.is_nan() {
            return F32 { bits: QUIET_NAN };
        }
        if self.is_infinite() {
            return if other.is_infinite() && self.negative() == other.negative() {
                F32 { bits: QUIET_NAN }
            } else {
                self
            };
        }
        if other.is_infinite() {
            return other.negated();
        }
        let (left, left_exponent) = self.parts();
        let (right, right_exponent) = other.parts();
        let left_negative = self.negative();
        let right_negative = !other.negative();
        proof {
            assert(self.units() == signed_size(left_negative, left as int, left_exponent as int));
            assert(-other.units() == signed_size(
                right_negative,
                right as int,
                right_exponent as int,
            ));
        }
        let (negative, magnitude) = if left_exponent >= right_exponent {
            sum_of_parts(
                left_negative,
                left,
                left_exponent,
                right_negative,
                right,
                right_exponent,
            )
        } else {
            sum_of_parts(
                right_negative,
                right,
                right_exponent,
                left_negative,
                left,
                left_exponent,
            )
        };
        if magnitude == 0 {
            F32::signed(left_negative && right_negative, 0)
        } else {
            F32::signed(negative, magnitude)
        }
    }
}

impl F32 {
    /// The product of two values.
    pub fn times(self, other: F32) -> (product: F32)
        ensures
            product.is_product(self, other),
    {
        let negative = self.negative() != other.negative();
        if self.is_nan() || other.is_nan() {
            return F32 { bits: QUIET_NAN };
        }
        if self.is_infinite() || other.is_infinite() {
            return if self.is_zero() || other.is_zero() {
                F32 { bits: QUIET_NAN }
            } else {
                F32::signed(negative, INFINITY_MAGNITUDE)
            };
        }
        let (left, left_exponent) = self.parts();
        let (right, right_exponent) = other.parts();
        assert(left * right < 0x100_0000 * 0x100_0000) by (nonlinear_arith)
            requires
                left < 0x100_0000,
                right < 0x100_0000,
        ;
        let whole: u64 = left * right;
        let exponent: i32 = left_exponent + right_exponent - ONE_EXPONENT;
        let ghost num = self.size() * other.size();
        let ghost den = vstd::arithmetic::power2::pow2(ONE_EXPONENT as nat) as int;
        proof {
            let bias = crate::rounding::BIAS as nat;
            let left_scale = vstd::arithmetic::power2::pow2(left_exponent as nat) as int;
            let right_scale = vstd::arithmetic::power2::pow2(right_exponent as nat) as int;
            let bias_scale = vstd::arithmetic::power2::pow2(bias) as int;
            let rest = (exponent + crate::rounding::BIAS) as nat;
            vstd::arithmetic::power2::lemma_pow2_pos(ONE_EXPONENT as nat);
            vstd::arithmetic::power2::lemma_pow2_adds(ONE_EXPONENT as nat, rest);
            vstd::arithmetic::power2::lemma_pow2_adds(left_exponent as nat, right_exponent as nat);
            vstd::arithmetic::power2::lemma_pow2_adds(
                (left_exponent + right_exponent) as nat,
                bias,
            );
            assert(ONE_EXPONENT as nat + rest == left_exponent as nat + right_exponent as nat
                + bias);
            let unit = den * vstd::arithmetic::power2::pow2(rest);
            assert(unit == (left_scale * right_scale) * bias_scale);
            assert(num * bias_scale == whole * unit) by (nonlinear_arith)
                requires
                    num == (left * left_scale) * (right * right_scale),
                    unit == (left_scale * right_scale) * bias_scale,
                    whole == left * right,
            ;
        }
        F32::signed(
            negative,
            nearest_magnitude(whole, exponent, Tail::Zero, Ghost(num), Ghost(den)),
        )
    }

    /// 1 divided by this value.
    pub fn reciprocal(self) -> (quotient: F32)
        ensures
            quotient.is_reciprocal(self),
    {
        if self.is_nan() {
            return F32 { bits: QUIET_NAN };
        }
        if self.is_infinite() {
            return F32::signed(self.negative(), 0);
        }
        if self.is_zero() {
            return F32::signed(self.negative(), INFINITY_MAGNITUDE);
        }
        let (divisor, divisor_exponent) = self.parts();
        let dividend: u64 = 0x4_0000_0000_0000;
        let whole: u64 = dividend / divisor;
        let left: u64 = dividend % divisor;
        let tail = if left == 0 {
            Tail::Zero
        } else if 2 * left < divisor {
            Tail::Low
        } else if 2 * left == divisor {
            Tail::Half
        } else {
            Tail::High
        };
        let exponent: i32 = 248 - divisor_exponent;
        let ghost num = vstd::arithmetic::power2::pow2((2 * ONE_EXPONENT) as nat) as int;
        let ghost den = self.size();
        proof {
            let bias = crate::rounding::BIAS as nat;
            let scale = vstd::arithmetic::power2::pow2(divisor_exponent as nat) as int;
            let rest = (exponent + crate::rounding::BIAS) as nat;
            let common = vstd::arithmetic::power2::pow2(248 + bias) as int;
            vstd::arithmetic::power2::lemma2_to64_rest();
            vstd::arithmetic::power2::lemma_pow2_pos(divisor_exponent as nat);
            vstd::arithmetic::power2::lemma_pow2_pos(248 + bias);
            vstd::arithmetic::power2::lemma_pow2_adds(divisor_exponent as nat, rest);
            vstd::arithmetic::power2::lemma_pow2_adds(298, bias);
            vstd::arithmetic::power2::lemma_pow2_adds(50, 248 + bias);
            assert(divisor_exponent as nat + rest == 248 + bias);
            let value = num * vstd::arithmetic::power2::pow2(bias);
            let unit = den * vstd::arithmetic::power2::pow2(rest);
            assert(value == dividend * common);
            assert(unit == divisor * common) by (nonlinear_arith)
                requires
                    unit == (divisor * scale) * vstd::arithmetic::power2::pow2(rest),
                    scale * vstd::arithmetic::power2::pow2(rest) == common,
            ;
            assert(den > 0) by (nonlinear_arith)
                requires
                    den == divisor * scale,
                    divisor > 0,
                    scale > 0,
            ;
            assert(dividend == whole * divisor + left && left < divisor && whole >= 0x80_0000)
                by (nonlinear_arith)
                requires
                    dividend == 0x4_0000_0000_0000,
                    0 < divisor < 0x100_0000,
                    whole == dividend / divisor,
                    left == dividend % divisor,
            ;
            let base = whole * unit;
            assert(base == (whole * divisor) * common) by (nonlinear_arith)
                requires
                    base == whole * unit,
                    unit == divisor * common,
            ;
            let product = whole * divisor;
            assert(2 * value == (2 * dividend) * common && 2 * base + unit == (2 * product + divisor)
                * common && base + unit == (product + divisor) * common) by (nonlinear_arith)
                requires
                    value == dividend * common,
                    base == product * common,
                    unit == divisor * common,
            ;
            crate::rounding::lemma_scaled_order(dividend as int, product, common);
            crate::rounding::lemma_scaled_order(2 * dividend, 2 * product + divisor, common);
            crate::rounding::lemma_scaled_order(dividend as int, product + divisor, common);
            crate::rounding::lemma_scaled_order(product, dividend as int, common);
            crate::rounding::lemma_scaled_order(2 * product + divisor, 2 * dividend, common);
        }
        F32::signed(
            self.negative(),
            nearest_magnitude(whole, exponent, tail, Ghost(num), Ghost(den)),
        )
    }

    /// The integer nearest to a value that is not a NaN, halves rounded up; the
    /// sign is not looked at.
    pub fn nearest_count(self) -> (count: u64)
        requires
            !self.spec_is_nan(),
        ensures
            self.counts_as(count),
    {
        if self.is_infinite() {
            return u64::MAX;
        }
        let (whole, exponent) = self.parts();
        let ghost one = vstd::arithmetic::power2::pow2(ONE_EXPONENT as nat) as int;
        let ghost scale = vstd::arithmetic::power2::pow2(exponent as nat) as int;
        proof {
            vstd::arithmetic::power2::lemma2_to64();
            vstd::arithmetic::power2::lemma2_to64_rest();
            vstd::arithmetic::power2::lemma_pow2_pos(ONE_EXPONENT as nat);
            vstd::arithmetic::power2::lemma_pow2_pos(exponent as nat);
        }
        if exponent >= ONE_EXPONENT {
            let shift: i32 = exponent - ONE_EXPONENT;
            let ghost factor = vstd::arithmetic::power2::pow2(shift as nat) as int;
            proof {
                vstd::arithmetic::power2::lemma_pow2_adds(shift as nat, ONE_EXPONENT as nat);
                assert(scale == factor * one);
                assert(self.size() == (whole * factor) * one) by (nonlinear_arith)
                    requires
                        self.size() == whole * scale,
                        scale == factor * one,
                ;
            }
            if shift >= 41 {
                proof {
                    if shift > 41 {
                        vstd::arithmetic::power2::lemma_pow2_strictly_increases(41, shift as nat);
                    }
                    assert(whole * factor >= 0x80_0000 * 0x200_0000_0000) by (nonlinear_arith)
                        requires
                            whole >= 0x80_0000,
                            factor >= 0x200_0000_0000,
                    ;
                    assert((2 * u64::MAX - 1) * one <= 2 * ((whole * factor) * one))
                        by (nonlinear_arith)
                        requires
                            whole * factor >= 0x1_0000_0000_0000_0000,
                            one > 0,
                    ;
                }
                return u64::MAX;
            }
            proof {
                if shift < 40 {
                    vstd::arithmetic::power2::lemma_pow2_strictly_increases(shift as nat, 40);
                }
                assert(whole * factor <= 0xff_ffff * 0x100_0000_0000) by (nonlinear_arith)
                    requires
                        whole <= 0xff_ffff,
                        0 < factor <= 0x100_0000_0000,
                ;
                vstd::bits::lemma_u64_shl_is_mul(whole, shift as u64);
            }
            let count: u64 = whole << (shift as u64);
            proof {
                assert((2 * count - 1) * one <= 2 * (count * one) < (2 * count + 1) * one)
                    by (nonlinear_arith)
                    requires
                        one > 0,
                ;
            }
            count
        } else {
            let shift: i32 = ONE_EXPONENT - exponent;
            let ghost factor = vstd::arithmetic::power2::pow2(shift as nat) as int;
            proof {
                vstd::arithmetic::power2::lemma_pow2_adds(shift as nat, exponent as nat);
                assert(one == factor * scale);
            }
            if shift >= 25 {
                proof {
                    if shift > 25 {
                        vstd::arithmetic::power2::lemma_pow2_strictly_increases(25, shift as nat);
                    }
                    assert(2 * (whole * scale) < factor * scale) by (nonlinear_arith)
                        requires
                            2 * whole < factor,
                            scale > 0,
                    ;
                    assert(whole * scale >= 0) by (nonlinear_arith)
                        requires
                            scale > 0,
                    ;
                    assert((2 * 0u64 - 1) * one == -one && (2 * 0u64 + 1) * one == one)
                        by (nonlinear_arith);
                }
                return 0;
            }
            proof {
                vstd::arithmetic::power2::lemma_pow2_strictly_increases(shift as nat, 25);
                vstd::arithmetic::power2::lemma_pow2_unfold(shift as nat);
                vstd::bits::lemma_u64_shl_is_mul(1, (shift - 1) as u64);
                assert((shift - 1) as u64 as nat == (shift - 1) as nat);
                vstd::arithmetic::power2::lemma_pow2_pos((shift - 1) as nat);
            }
            let half: u64 = 1u64 << ((shift - 1) as u64);
            let count: u64 = (whole + half) / (2 * half);
            proof {
                assert(factor == 2 * half);
                assert((2 * count - 1) * factor <= 2 * whole < (2 * count + 1) * factor)
                    by (nonlinear_arith)
                    requires
                        factor == 2 * half,
                        half > 0,
                        count == (whole + half) / (2 * half),
                ;
                assert((2 * count - 1) * (factor * scale) <= 2 * (whole * scale) < (2 * count + 1)
                    * (factor * scale)) by (nonlinear_arith)
                    requires
                        (2 * count - 1) * factor <= 2 * whole < (2 * count + 1) * factor,
                        scale > 0,
                ;
            }
            count
        }
    }
}

/// The number that a sign, an integer and a power of two stand for.
spec fn signed_size(negative: bool, whole: int, exponent: int) -> int {
    if negative {
        -(whole * vstd::arithmetic::power2::pow2(exponent as nat))
    } else {
        whole * vstd::arithmetic::power2::pow2(exponent as nat)
    }
}

/// A multiple of a power of two with a tail, as a narrowed number.
proof fn lemma_narrowed(num: int, whole: int, exponent: int, tail: Tail)
    requires
        0 <= exponent,
        crate::rounding::tail_holds(
            num,
            whole * vstd::arithmetic::power2::pow2(exponent as nat),
            vstd::arithmetic::power2::pow2(exponent as nat) as int,
            tail,
        ),
    ensures
        crate::rounding::narrowed(num, 1, whole, exponent, tail),
{
    let bias = vstd::arithmetic::power2::pow2(crate::rounding::BIAS as nat) as int;
    let scale = vstd::arithmetic::power2::pow2(exponent as nat) as int;
    vstd::arithmetic::power2::lemma_pow2_pos(crate::rounding::BIAS as nat);
    vstd::arithmetic::power2::lemma_pow2_adds(exponent as nat, crate::rounding::BIAS as nat);
    assert((exponent + crate::rounding::BIAS) as nat == exponent as nat
        + crate::rounding::BIAS as nat);
    let base = whole * scale;
    assert(whole * (1 * (scale * bias)) == base * bias) by (nonlinear_arith)
        requires
            base == whole * scale,
    ;
    assert(2 * (num * bias) == (2 * num) * bias && 2 * (base * bias) + scale * bias == (2 * base
        + scale) * bias && base * bias + scale * bias == (base + scale) * bias)
        by (nonlinear_arith);
    crate::rounding::lemma_scaled_order(num, base, bias);
    crate::rounding::lemma_scaled_order(2 * num, 2 * base + scale, bias);
    crate::rounding::lemma_scaled_order(num, base + scale, bias);
}

/// Rounds the sum of two signed numbers, of which the first has the larger
/// exponent; a sum of zero gives magnitude 0.
fn sum_of_parts(
    high_negative: bool,
    high: u64,
    high_exponent: i32,
    low_negative: bool,
    low: u64,
    low_exponent: i32,
) -> (sum: (bool, u32))
    requires
        high < 2 * FRACTION_SPAN,
        low < 2 * FRACTION_SPAN,
        0 <= low_exponent <= high_exponent <= 253,
        high_exponent > 0 ==> high >= FRACTION_SPAN,
    ensures
        ({
            let exact = signed_size(high_negative, high as int, high_exponent as int)
                + signed_size(low_negative, low as int, low_exponent as int);
            &&& sum.1 <= INFINITY_MAGNITUDE
            &&& sum.1 == 0 <==> exact == 0
            &&& exact > 0 ==> !sum.0 && crate::rounding::rounds_to(exact, 1, sum.1 as int)
            &&& exact < 0 ==> sum.0 && crate::rounding::rounds_to(-exact, 1, sum.1 as int)
        }),
{
    let ghost high_scale = vstd::arithmetic::power2::pow2(high_exponent as nat) as int;
    let ghost low_scale = vstd::arithmetic::power2::pow2(low_exponent as nat) as int;
    let ghost exact = signed_size(high_negative, high as int, high_exponent as int) + signed_size(
        low_negative,
        low as int,
        low_exponent as int,
    );
    let shift: i32 = high_exponent - low_exponent;
    proof {
        vstd::arithmetic::power2::lemma_pow2_pos(low_exponent as nat);
        vstd::arithmetic::power2::lemma_pow2_pos(high_exponent as nat);
        vstd::arithmetic::power2::lemma_pow2_adds(shift as nat, low_exponent as nat);
        vstd::arithmetic::power2::lemma2_to64();
    }
    if shift <= 39 {
        let ghost factor = vstd::arithmetic::power2::pow2(shift as nat) as int;
        proof {
            lemma_shift_fits(high, shift as nat);
        }
        let wide: u64 = high << (shift as u64);
        assert(high_scale == factor * low_scale);
        assert(high * high_scale == wide * low_scale) by (nonlinear_arith)
            requires
                wide == high * factor,
                high_scale == factor * low_scale,
        ;
        let (negative, total) = if high_negative == low_negative {
            (high_negative, wide + low)
        } else if wide >= low {
            (high_negative, wide - low)
        } else {
            (low_negative, low - wide)
        };
        let ghost size = total * low_scale;
        proof {
            assert(size == if high_negative == low_negative {
                wide * low_scale + low * low_scale
            } else if wide >= low {
                wide * low_scale - low * low_scale
            } else {
                low * low_scale - wide * low_scale
            }) by (nonlinear_arith)
                requires
                    size == total * low_scale,
                    total == (if high_negative == low_negative {
                        wide + low
                    } else if wide >= low {
                        wide - low
                    } else {
                        low - wide
                    }),
            ;
            assert(total > 0 ==> size > 0) by (nonlinear_arith)
                requires
                    size == total * low_scale,
                    low_scale > 0,
            ;
            assert(total == 0 ==> size == 0) by (nonlinear_arith)
                requires
                    size == total * low_scale,
            ;
            lemma_narrowed(size, total as int, low_exponent as int, Tail::Zero);
        }
        if total == 0 {
            return (negative, 0);
        }
        let magnitude = nearest_magnitude(
            total,
            low_exponent,
            Tail::Zero,
            Ghost(size),
            Ghost(1int),
        );
        proof {
            lemma_at_least_one_unit(size, magnitude as int);
        }
        (negative, magnitude)
    } else {
        let ghost tiny = low * low_scale;
        let ghost quarter = vstd::arithmetic::power2::pow2((high_exponent - 2) as nat) as int;
        proof {
            vstd::arithmetic::power2::lemma_pow2_unfold(high_exponent as nat);
            vstd::arithmetic::power2::lemma_pow2_unfold((high_exponent - 1) as nat);
            assert(high_scale == 4 * quarter);
            lemma_far_below(low, low_exponent, high_exponent);
            assert(0 <= tiny < quarter);
            assert(tiny == 0 <==> low == 0) by (nonlinear_arith)
                requires
                    tiny == low * low_scale,
                    low_scale > 0,
            ;
            assert(high * high_scale >= high_scale) by (nonlinear_arith)
                requires
                    high >= 1,
                    high_scale > 0,
            ;
        }
        if low == 0 {
            proof {
                lemma_narrowed(high * high_scale, high as int, high_exponent as int, Tail::Zero);
            }
            let magnitude = nearest_magnitude(
                high,
                high_exponent,
                Tail::Zero,
                Ghost(high * high_scale),
                Ghost(1int),
            );
            proof {
                lemma_at_least_one_unit(high * high_scale, magnitude as int);
            }
            (high_negative, magnitude)
        } else if high_negative == low_negative {
            let ghost size = high * high_scale + tiny;
            proof {
                lemma_narrowed(size, high as int, high_exponent as int, Tail::Low);
            }
            let magnitude = nearest_magnitude(
                high,
                high_exponent,
                Tail::Low,
                Ghost(size),
                Ghost(1int),
            );
            proof {
                lemma_at_least_one_unit(size, magnitude as int);
            }
            (high_negative, magnitude)
        } else {
            let ghost size = high * high_scale - tiny;
            let ghost half = 2 * quarter;
            let whole: u64 = 2 * high - 1;
            proof {
                assert(whole * half == high * high_scale - half) by (nonlinear_arith)
                    requires
                        whole == 2 * high - 1,
                        high_scale == 2 * half,
                ;
                assert((high_exponent - 1) as nat == (high_exponent - 1) as int as nat);
                lemma_narrowed(size, whole as int, high_exponent - 1, Tail::High);
            }
            let magnitude = nearest_magnitude(
                whole,
                high_exponent - 1,
                Tail::High,
                Ghost(size),
                Ghost(1int),
            );
            proof {
                lemma_at_least_one_unit(size, magnitude as int);
            }
            (high_negative, magnitude)
        }
    }
}

/// A value is determined by its sign and its magnitude.
proof fn lemma_same_pattern(left: F32, right: F32)
    requires
        left.spec_negative() == right.spec_negative(),
        left.spec_magnitude() == right.spec_magnitude(),
    ensures
        left == right,
{
}

/// Law: a difference is one value, unless it is a NaN.
pub proof fn law_difference_is_unique(left: F32, right: F32, one: F32, other: F32)
    requires
        one.is_difference(left, right),
        other.is_difference(left, right),
    ensures
        one == other || (one.spec_is_nan() && other.spec_is_nan()),
{
    let exact = left.units() - right.units();
    if left.spec_is_finite() && right.spec_is_finite() && exact != 0 {
        crate::rounding::law_rounding_is_unique(
            if exact < 0 {
                -exact
            } else {
                exact
            },
            1,
            one.spec_magnitude(),
            other.spec_magnitude(),
        );
        lemma_same_pattern(one, other);
    }
}

/// Law: a product is one value, unless it is a NaN.
pub proof fn law_product_is_unique(left: F32, right: F32, one: F32, other: F32)
    requires
        one.is_product(left, right),
        other.is_product(left, right),
    ensures
        one == other || (one.spec_is_nan() && other.spec_is_nan()),
{
    vstd::arithmetic::power2::lemma_pow2_pos(ONE_EXPONENT as nat);
    if left.spec_is_finite() && right.spec_is_finite() {
        crate::rounding::law_rounding_is_unique(
            left.size() * right.size(),
            vstd::arithmetic::power2::pow2(ONE_EXPONENT as nat) as int,
            one.spec_magnitude(),
            other.spec_magnitude(),
        );
    }
    if !one.spec_is_nan() {
        lemma_same_pattern(one, other);
    }
}

/// Law: a reciprocal is one value, unless it is a NaN.
pub proof fn law_reciprocal_is_unique(value: F32, one: F32, other: F32)
    requires
        one.is_reciprocal(value),
        other.is_reciprocal(value),
    ensures
        one == other || (one.spec_is_nan() && other.spec_is_nan()),
{
    crate::numeric::lemma_magnitude_trichotomy(0, value.spec_magnitude());
    if value.spec_is_finite() && !value.spec_is_zero() {
        crate::rounding::law_rounding_is_unique(
            vstd::arithmetic::power2::pow2((2 * ONE_EXPONENT) as nat) as int,
            value.size(),
            one.spec_magnitude(),
            other.spec_magnitude(),
        );
    }
    if !one.spec_is_nan() {
        lemma_same_pattern(one, other);
    }
}

/// Law: a value has one nearest count.
pub proof fn law_nearest_count_is_unique(value: F32, one: u64, other: u64)
    requires
        value.counts_as(one),
        value.counts_as(other),
    ensures
        one == other,
{
    let unit = vstd::arithmetic::power2::pow2(ONE_EXPONENT as nat) as int;
    vstd::arithmetic::power2::lemma_pow2_pos(ONE_EXPONENT as nat);
    if one < other {
        assert((2 * one + 1) * unit <= (2 * other - 1) * unit) by (nonlinear_arith)
            requires
                one < other,
                unit > 0,
        ;
    } else if other < one {
        assert((2 * other + 1) * unit <= (2 * one - 1) * unit) by (nonlinear_arith)
            requires
                other < one,
                unit > 0,
        ;
    }
}

/// Law: of two positive numbers the larger does not have the larger reciprocal.
pub proof fn law_reciprocal_reverses_order(small: F32, large: F32, high: F32, low: F32)
    requires
        (F32 { bits: 0 }).spec_lt(small),
        small.spec_le(large),
        high.is_reciprocal(small),
        low.is_reciprocal(large),
    ensures
        low.spec_le(high),
{
    crate::numeric::lemma_magnitude_trichotomy(0, small.spec_magnitude());
    crate::numeric::lemma_magnitude_trichotomy(0, large.spec_magnitude());
    crate::numeric::lemma_magnitude_trichotomy(small.spec_magnitude(), large.spec_magnitude());
    if large.spec_is_finite() {
        let num = vstd::arithmetic::power2::pow2((2 * ONE_EXPONENT) as nat) as int;
        let left = small.size();
        let right = large.size();
        vstd::arithmetic::power2::lemma_pow2_pos((2 * ONE_EXPONENT) as nat);
        assert(left * right > 0 && num * left <= num * right && left * right == right * left)
            by (nonlinear_arith)
            requires
                0 < left <= right,
                num > 0,
        ;
        crate::rounding::lemma_rounds_scaled(num, left, right, high.spec_magnitude());
        crate::rounding::lemma_rounds_scaled(num, right, left, low.spec_magnitude());
        crate::rounding::law_rounding_keeps_order(
            num * left,
            num * right,
            left * right,
            low.spec_magnitude(),
            high.spec_magnitude(),
        );
    }
    crate::numeric::lemma_magnitude_trichotomy(low.spec_magnitude(), high.spec_magnitude());
}

/// Law: of two numbers the smaller in size does not have the larger nearest
/// count.
pub proof fn law_nearest_count_keeps_order(small: F32, large: F32, few: u64, many: u64)
    requires
        !large.spec_is_nan(),
        small.size() <= large.size(),
        small.counts_as(few),
        large.counts_as(many),
    ensures
        few <= many,
{
    let unit = vstd::arithmetic::power2::pow2(ONE_EXPONENT as nat) as int;
    vstd::arithmetic::power2::lemma_pow2_pos(ONE_EXPONENT as nat);
    crate::numeric::lemma_magnitude_trichotomy(large.spec_magnitude(), small.spec_magnitude());
    if many < few {
        assert((2 * many + 1) * unit <= (2 * few - 1) * unit) by (nonlinear_arith)
            requires
                many < few,
                unit > 0,
        ;
    }
}

/// Taking a positive zero away from a number leaves it as it is.
pub(crate) proof fn lemma_minus_zero(value: F32, difference: F32)
    requires
        !value.spec_is_nan(),
        difference.is_difference(value, F32 { bits: 0 }),
    ensures
        difference == value,
{
    crate::numeric::lemma_magnitude_trichotomy(0, value.spec_magnitude());
    if value.spec_is_finite() && value.size() != 0 {
        crate::rounding::law_rounding_is_exact(value.spec_magnitude());
        crate::rounding::law_rounding_is_unique(
            value.size(),
            1,
            value.spec_magnitude(),
            difference.spec_magnitude(),
        );
        lemma_same_pattern(value, difference);
    }
}

/// The units in 1.
pub(crate) proof fn lemma_one_size()
    ensures
        (F32 { bits: ONE }).size() == vstd::arithmetic::power2::pow2(ONE_EXPONENT as nat),
{
    vstd::arithmetic::power2::lemma2_to64();
    vstd::arithmetic::power2::lemma_pow2_adds(23, 126);
    assert(0x3f80_0000int / 0x80_0000 == 127);
    assert(0x3f80_0000int % 0x80_0000 == 0);
}

/// Multiplying a number by 1 leaves it as it is.
pub(crate) proof fn lemma_times_one(value: F32, product: F32)
    requires
        !value.spec_is_nan(),
        product.is_product(value, F32 { bits: ONE }),
    ensures
        product == value,
{
    lemma_one_size();
    let one = vstd::arithmetic::power2::pow2(ONE_EXPONENT as nat) as int;
    vstd::arithmetic::power2::lemma_pow2_pos(ONE_EXPONENT as nat);
    crate::numeric::lemma_magnitude_trichotomy(0, value.spec_magnitude());
    if value.spec_is_finite() {
        crate::rounding::law_rounding_is_exact(value.spec_magnitude());
        crate::rounding::lemma_rounds_scaled(value.size(), 1, one, value.spec_magnitude());
        crate::rounding::law_rounding_is_unique(
            value.size() * one,
            one,
            value.spec_magnitude(),
            product.spec_magnitude(),
        );
    }
    lemma_same_pattern(value, product);
}

/// A zero times a finite number is a zero.
pub(crate) proof fn lemma_zero_times(zero: F32, value: F32, product: F32)
    requires
        zero.spec_magnitude() == 0,
        value.spec_is_finite(),
        product.is_product(zero, value),
    ensures
        product.spec_is_zero(),
{
    let one = vstd::arithmetic::power2::pow2(ONE_EXPONENT as nat) as int;
    vstd::arithmetic::power2::lemma_pow2_pos(ONE_EXPONENT as nat);
    crate::numeric::lemma_magnitude_trichotomy(0, 0);
    assert(0 * value.size() == 0);
    crate::rounding::law_rounding_is_exact(0);
    crate::rounding::lemma_rounds_scaled(0, 1, one, 0);
    assert(0 * one == 0 && 1 * one == one);
    crate::rounding::law_rounding_is_unique(0, one, 0, product.spec_magnitude());
}

/// A number of at least one unit does not round to zero.
proof fn lemma_at_least_one_unit(num: int, magnitude: int)
    requires
        num >= 1,
        crate::rounding::rounds_to(num, 1, magnitude),
    ensures
        magnitude > 0,
{
    vstd::arithmetic::power2::lemma2_to64();
    assert(crate::numeric::magnitude_units(0) == 0);
    assert(crate::numeric::magnitude_units(1) == 1);
}

/// A significand moved up by at most 39 bits fits 64 bits.
proof fn lemma_shift_fits(significand: u64, shift: nat)
    requires
        significand < 2 * FRACTION_SPAN,
        shift <= 39,
    ensures
        significand << (shift as u64) == significand * vstd::arithmetic::power2::pow2(shift),
        significand * vstd::arithmetic::power2::pow2(shift) < 0x8000_0000_0000_0000,
{
    vstd::arithmetic::power2::lemma2_to64();
    if shift < 39 {
        vstd::arithmetic::power2::lemma_pow2_strictly_increases(shift, 39);
    }
    vstd::arithmetic::power2::lemma_pow2_adds(24, 39);
    vstd::arithmetic::power2::lemma2_to64_rest();
    let factor = vstd::arithmetic::power2::pow2(shift) as int;
    let limit = vstd::arithmetic::power2::pow2(39) as int;
    assert(significand * factor < 0x100_0000 * limit) by (nonlinear_arith)
        requires
            significand < 0x100_0000,
            0 < factor <= limit,
    ;
    vstd::bits::lemma_u64_shl_is_mul(significand, shift as u64);
}

/// A significand far below an exponent is less than a quarter of its unit.
proof fn lemma_far_below(low: u64, low_exponent: i32, high_exponent: i32)
    requires
        low < 2 * FRACTION_SPAN,
        0 <= low_exponent,
        high_exponent - low_exponent >= 40,
    ensures
        0 <= low * vstd::arithmetic::power2::pow2(low_exponent as nat)
            < vstd::arithmetic::power2::pow2((high_exponent - 2) as nat),
{
    let scale = vstd::arithmetic::power2::pow2(low_exponent as nat) as int;
    vstd::arithmetic::power2::lemma_pow2_pos(low_exponent as nat);
    vstd::arithmetic::power2::lemma_pow2_adds(24, low_exponent as nat);
    vstd::arithmetic::power2::lemma2_to64();
    assert(0 <= low * scale < 0x100_0000 * scale) by (nonlinear_arith)
        requires
            low < 0x100_0000,
            scale > 0,
    ;
    vstd::arithmetic::power2::lemma_pow2_strictly_increases(
        (low_exponent + 24) as nat,
        (high_exponent - 2) as nat,
    );
}

/// Law: a value with the other sign is the number with the other sign.
pub proof fn law_negated_is_opposite(value: F32)
    ensures
        value.spec_negated().units() == -value.units(),
        value.spec_negated().spec_negated() == value,
        value.spec_negated().spec_is_nan() == value.spec_is_nan(),
{
}

/// A rounded number of either sign is nearest among the numbers of both signs.
proof fn lemma_signed_nearest(
    result: F32,
    negative: bool,
    num: int,
    den: int,
    exact: int,
    other: F32,
)
    requires
        num >= 0,
        den > 0,
        result.rounds(negative, num, den),
        exact == (if negative {
            -num
        } else {
            num
        }),
        !other.spec_is_nan(),
    ensures
        !result.spec_is_nan(),
        crate::rounding::distance(result.units() * den, exact) <= crate::rounding::distance(
            other.units() * den,
            exact,
        ),
        other.units() != result.units() && crate::rounding::distance(result.units() * den, exact)
            == crate::rounding::distance(other.units() * den, exact) ==> result.bits % 2 == 0,
{
    let here = result.size();
    let there = other.size();
    crate::numeric::lemma_magnitude_trichotomy(0, result.spec_magnitude());
    crate::numeric::lemma_magnitude_trichotomy(0, other.spec_magnitude());
    crate::numeric::lemma_magnitude_trichotomy(result.spec_magnitude(), other.spec_magnitude());
    crate::rounding::law_rounding_is_nearest(num, den, result.spec_magnitude(), 0);
    crate::rounding::law_rounding_is_nearest(
        num,
        den,
        result.spec_magnitude(),
        other.spec_magnitude(),
    );
    assert(den * here == here * den && den * there == there * den && (-here) * den == -(here * den)
        && (-there) * den == -(there * den) && den * 0 == 0) by (nonlinear_arith);
    assert(there * den >= 0 && (there > 0 ==> there * den > 0)) by (nonlinear_arith)
        requires
            there >= 0,
            den > 0,
    ;
    assert(result.spec_magnitude() % 2 == result.bits as int % 2);
}

/// Law: no number lies nearer to the exact difference of two real numbers than
/// their difference does, and of two that lie equally near it is the even one.
pub proof fn law_difference_is_nearest(left: F32, right: F32, result: F32, other: F32)
    requires
        left.spec_is_finite(),
        right.spec_is_finite(),
        result.is_difference(left, right),
        !other.spec_is_nan(),
    ensures
        !result.spec_is_nan(),
        crate::rounding::distance(result.units(), left.units() - right.units())
            <= crate::rounding::distance(other.units(), left.units() - right.units()),
        other.units() != result.units() && crate::rounding::distance(
            result.units(),
            left.units() - right.units(),
        ) == crate::rounding::distance(other.units(), left.units() - right.units())
            ==> result.bits % 2 == 0,
{
    let exact = left.units() - right.units();
    crate::numeric::lemma_magnitude_trichotomy(0, 0);
    if exact < 0 {
        lemma_signed_nearest(result, true, -exact, 1, exact, other);
    } else if exact > 0 {
        lemma_signed_nearest(result, false, exact, 1, exact, other);
    }
}

/// Law: an infinity less a real number is that infinity, and a real number less
/// an infinity is the other one; nothing is left of equal infinities, and a NaN
/// stays a NaN.
pub proof fn law_difference_of_infinities(left: F32, right: F32, result: F32)
    requires
        result.is_difference(left, right),
    ensures
        left.spec_is_nan() || right.spec_is_nan() ==> result.spec_is_nan(),
        left.bits as int % 0x8000_0000 == 0x7f80_0000 && !right.spec_is_nan() && left != right
            ==> result == left,
        left.spec_is_finite() && right.bits == 0x7f80_0000 ==> result.bits == 0xff80_0000,
        left.spec_is_finite() && right.bits == 0xff80_0000 ==> result.bits == 0x7f80_0000,
        left == right && left.bits as int % 0x8000_0000 == 0x7f80_0000 ==> result.spec_is_nan(),
        left == right && left.spec_is_finite() ==> result.bits == 0,
{
}

/// Law: no number lies nearer to the exact product of two real numbers than
/// their product does, and of two that lie equally near it is the even one. The
/// product is negative if the signs differ.
pub proof fn law_product_is_nearest(left: F32, right: F32, result: F32, other: F32)
    requires
        left.spec_is_finite(),
        right.spec_is_finite(),
        result.is_product(left, right),
        !other.spec_is_nan(),
    ensures
        ({
            let one = vstd::arithmetic::power2::pow2(149) as int;
            let exact = left.units() * right.units();
            &&& !result.spec_is_nan()
            &&& crate::rounding::distance(result.units() * one, exact)
                <= crate::rounding::distance(other.units() * one, exact)
            &&& other.units() != result.units() && crate::rounding::distance(
                result.units() * one,
                exact,
            ) == crate::rounding::distance(other.units() * one, exact) ==> result.bits % 2 == 0
            &&& result.bits >= 0x8000_0000 <==> (left.bits >= 0x8000_0000) != (right.bits
                >= 0x8000_0000)
        }),
{
    let one = vstd::arithmetic::power2::pow2(ONE_EXPONENT as nat) as int;
    let a = left.size();
    let b = right.size();
    vstd::arithmetic::power2::lemma_pow2_pos(ONE_EXPONENT as nat);
    crate::numeric::lemma_magnitude_trichotomy(0, left.spec_magnitude());
    crate::numeric::lemma_magnitude_trichotomy(0, right.spec_magnitude());
    assert(a * b >= 0) by (nonlinear_arith)
        requires
            a >= 0,
            b >= 0,
    ;
    assert((-a) * b == -(a * b) && a * (-b) == -(a * b) && (-a) * (-b) == a * b)
        by (nonlinear_arith);
    let negative = left.spec_negative() != right.spec_negative();
    lemma_signed_nearest(result, negative, a * b, one, left.units() * right.units(), other);
}

/// Law: an infinity times a number other than zero is infinite, with the sign
/// that the signs give; times a zero it is a NaN, and a NaN stays a NaN.
pub proof fn law_product_of_infinities(left: F32, right: F32, result: F32)
    requires
        result.is_product(left, right),
        !left.spec_is_finite() || !right.spec_is_finite(),
    ensures
        left.spec_is_nan() || right.spec_is_nan() || left.spec_is_zero() || right.spec_is_zero()
            ==> result.spec_is_nan(),
        !left.spec_is_nan() && !right.spec_is_nan() && !left.spec_is_zero()
            && !right.spec_is_zero() ==> result.bits == (if (left.bits >= 0x8000_0000) == (
        right.bits >= 0x8000_0000) {
            0x7f80_0000u32
        } else {
            0xff80_0000u32
        }),
{
}

/// Law: no number times a value other than zero lies nearer to 1 than the
/// value's reciprocal times it does, and of two that lie equally near the
/// reciprocal is the even one. It has the sign of the value.
pub proof fn law_reciprocal_is_nearest(value: F32, result: F32, other: F32)
    requires
        value.spec_is_finite(),
        !value.spec_is_zero(),
        result.is_reciprocal(value),
        !other.spec_is_nan(),
    ensures
        ({
            let one = vstd::arithmetic::power2::pow2(298) as int;
            &&& !result.spec_is_nan()
            &&& result.bits >= 0x8000_0000 <==> value.bits >= 0x8000_0000
            &&& crate::rounding::distance(result.units() * value.units(), one)
                <= crate::rounding::distance(other.units() * value.units(), one)
            &&& other.units() != result.units() && crate::rounding::distance(
                result.units() * value.units(),
                one,
            ) == crate::rounding::distance(other.units() * value.units(), one) ==> result.bits % 2
                == 0
        }),
{
    let one = vstd::arithmetic::power2::pow2((2 * ONE_EXPONENT) as nat) as int;
    let size = value.size();
    vstd::arithmetic::power2::lemma_pow2_pos((2 * ONE_EXPONENT) as nat);
    crate::numeric::lemma_magnitude_trichotomy(0, value.spec_magnitude());
    if value.spec_negative() {
        lemma_signed_nearest(result, true, one, size, -one, other);
        assert(result.units() * -size == -(result.units() * size) && other.units() * -size == -(
        other.units() * size)) by (nonlinear_arith);
    } else {
        lemma_signed_nearest(result, false, one, size, one, other);
    }
}

/// Law: the reciprocal of a zero is an infinity and that of an infinity a zero,
/// of the same sign; a NaN stays a NaN.
pub proof fn law_reciprocal_of_extremes(value: F32, result: F32)
    requires
        result.is_reciprocal(value),
    ensures
        value.spec_is_nan() ==> result.spec_is_nan(),
        value.bits == 0 ==> result.bits == 0x7f80_0000,
        value.bits == 0x8000_0000 ==> result.bits == 0xff80_0000,
        value.bits == 0x7f80_0000 ==> result.bits == 0,
        value.bits == 0xff80_0000 ==> result.bits == 0x8000_0000,
{
    crate::numeric::lemma_magnitude_trichotomy(0, 0);
}

/// Law: no count lies nearer to the size of a real number than its nearest count
/// does, and of two that lie equally near it is the larger one.
pub proof fn law_nearest_count_is_nearest(value: F32, count: u64, other: u64)
    requires
        value.spec_is_finite(),
        value.counts_as(count),
    ensures
        ({
            let one = vstd::arithmetic::power2::pow2(149) as int;
            let size = if value.units() < 0 {
                -value.units()
            } else {
                value.units()
            };
            &&& crate::rounding::distance(count * one, size) <= crate::rounding::distance(
                other * one,
                size,
            )
            &&& crate::rounding::distance(count * one, size) == crate::rounding::distance(
                other * one,
                size,
            ) ==> other <= count
        }),
{
    let one = vstd::arithmetic::power2::pow2(ONE_EXPONENT as nat) as int;
    vstd::arithmetic::power2::lemma_pow2_pos(ONE_EXPONENT as nat);
    crate::numeric::lemma_magnitude_trichotomy(0, value.spec_magnitude());
    assert((2 * count - 1) * one == 2 * (count * one) - one && (2 * count + 1) * one == 2 * (count
        * one) + one) by (nonlinear_arith);
    if other < count {
        assert(other * one <= count * one - one) by (nonlinear_arith)
            requires
                other + 1 <= count,
                one > 0,
        ;
    } else if count < other {
        assert(count * one + one <= other * one) by (nonlinear_arith)
            requires
                count + 1 <= other,
                one > 0,
        ;
    }
}

/// Law: an infinity counts as the largest count.
pub proof fn law_infinity_counts_as_the_largest(value: F32, count: u64)
    requires
        value.bits as int % 0x8000_0000 == 0x7f80_0000,
        value.counts_as(count),
    ensures
        count == 0xffff_ffff_ffff_ffff,
{
}

/// Law: the difference of zeros is a positive zero, but for a negative zero less
/// a positive one.
pub proof fn law_difference_of_zeros(left: F32, right: F32, result: F32)
    requires
        left.spec_is_zero(),
        right.spec_is_zero(),
        result.is_difference(left, right),
    ensures
        result.bits == (if left.bits == 0x8000_0000 && right.bits == 0 {
            0x8000_0000u32
        } else {
            0u32
        }),
{
    crate::numeric::law_pattern_meaning(left);
    crate::numeric::law_pattern_meaning(right);
}

/// Law: a value is negative if its sign bit is set, and infinite if all exponent
/// bits and no fraction bits are.
pub proof fn law_signs_and_infinities(value: F32)
    ensures
        value.spec_negative() <==> value.bits >= 0x8000_0000,
        value.spec_is_infinite() <==> value.bits == 0x7f80_0000 || value.bits == 0xff80_0000,
        value.size() == (if value.bits >= 0x8000_0000 {
            -value.units()
        } else {
            value.units()
        }),
{
}

} // verus!
