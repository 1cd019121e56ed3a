//! Rounding to the nearest single-precision value, ties to even.
//!
//! An exact positive result is a fraction `num / den`, in units of the smallest
//! subnormal. The value it rounds to is found by narrowing it down to an integer
//! part, a power of two and the class of what is left over.

use vstd::prelude::*;

use crate::numeric::{FRACTION_SPAN, INFINITY_MAGNITUDE};

verus! {

/// True if `num / den` rounds to the value of the given magnitude: it is at
/// least halfway up from the next smaller value and at most halfway up to the
/// next larger one, and a value that lies halfway goes to the even magnitude.
///
/// Infinity stands where the next larger value would be, so what lies at least
/// halfway between the largest finite value and it rounds to infinity.
pub open spec fn rounds_to(num: int, den: int, magnitude: int) -> bool {
    &&& 0 <= magnitude <= INFINITY_MAGNITUDE
    &&& magnitude > 0 ==> reaches(num, den, magnitude - 1, magnitude % 2 == 0)
    &&& magnitude < INFINITY_MAGNITUDE ==> !reaches(num, den, magnitude, magnitude % 2 == 1)
}

/// True if `num / den` lies above the middle between the values of a magnitude
/// and of the next one, or on it where `tie` says so.
pub open spec fn reaches(num: int, den: int, magnitude: int, tie: bool) -> bool {
    let middle = den * (crate::numeric::magnitude_units(magnitude)
        + crate::numeric::magnitude_units(magnitude + 1));
    2 * num > middle || (tie && 2 * num == middle)
}

/// What is left of a number below its integer part.
#[derive(Clone, Copy, PartialEq, Eq, Structural)]
pub(crate) enum Tail {
    /// Nothing.
    Zero,
    /// Something, less than a half.
    Low,
    /// A half.
    Half,
    /// More than a half.
    High,
}

/// Exponents are kept above zero by this much.
pub(crate) const BIAS: i32 = 512;

/// True if `num / den` is `whole` and a tail, times two to the `exponent`.
pub(crate) open spec fn narrowed(
    num: int,
    den: int,
    whole: int,
    exponent: int,
    tail: Tail,
) -> bool {
    let value = num * vstd::arithmetic::power2::pow2(BIAS as nat);
    let unit = den * vstd::arithmetic::power2::pow2((exponent + BIAS) as nat);
    tail_holds(value, whole * unit, unit, tail)
}

/// True if `value` exceeds `base` by what `tail` says, in units of `unit`.
pub(crate) open spec fn tail_holds(value: int, base: int, unit: int, tail: Tail) -> bool {
    match tail {
        Tail::Zero => value == base,
        Tail::Low => base < value && 2 * value < 2 * base + unit,
        Tail::Half => 2 * value == 2 * base + unit,
        Tail::High => 2 * base + unit < 2 * value && value < base + unit,
    }
}

/// The tail after one more bit has moved below the integer part.
fn push_bit(tail: Tail, bit: u64) -> (pushed: Tail)
    requires
        bit <= 1,
    ensures
        forall|value: int, base: int, unit: int|
            unit > 0 && #[trigger] tail_holds(value, base + bit * unit, unit, tail) ==> tail_holds(
                value,
                base,
                2 * unit,
                pushed,
            ),
{
    if bit == 0 {
        match tail {
            Tail::Zero => Tail::Zero,
            _ => Tail::Low,
        }
    } else {
        match tail {
            Tail::Zero => Tail::Half,
            _ => Tail::High,
        }
    }
}

/// Moving the lowest bit of the integer part into the tail keeps the number.
proof fn lemma_shift_right(num: int, den: int, whole: int, exponent: int, tail: Tail, pushed: Tail)
    requires
        den > 0,
        exponent + BIAS >= 0,
        narrowed(num, den, whole, exponent, tail),
        forall|value: int, base: int, unit: int|
            unit > 0 && #[trigger] tail_holds(value, base + (whole % 2) * unit, unit, tail)
                ==> tail_holds(value, base, 2 * unit, pushed),
    ensures
        narrowed(num, den, whole / 2, exponent + 1, pushed),
{
    let k = (exponent + BIAS) as nat;
    let value = num * vstd::arithmetic::power2::pow2(BIAS as nat);
    let scale = vstd::arithmetic::power2::pow2(k) as int;
    let unit = den * scale;
    vstd::arithmetic::power2::lemma_pow2_pos(k);
    vstd::arithmetic::power2::lemma_pow2_unfold((k + 1) as nat);
    assert(unit > 0) by (nonlinear_arith)
        requires
            unit == den * scale,
            den > 0,
            scale > 0,
    ;
    let half = whole / 2;
    let bit = whole % 2;
    assert(whole * unit == 2 * (half * unit) + bit * unit) by (nonlinear_arith)
        requires
            whole == 2 * half + bit,
    ;
    assert(half * (2 * unit) == 2 * (half * unit)) by (nonlinear_arith);
    assert(den * (2 * scale) == 2 * unit) by (nonlinear_arith)
        requires
            unit == den * scale,
    ;
    assert(tail_holds(value, 2 * (half * unit) + bit * unit, unit, tail));
    assert(tail_holds(value, 2 * (half * unit), 2 * unit, pushed));
    assert((exponent + 1 + BIAS) as nat == k + 1);
}

/// Moving a zero bit into the integer part keeps a number without a tail.
proof fn lemma_shift_left(num: int, den: int, whole: int, exponent: int)
    requires
        exponent + BIAS > 0,
        narrowed(num, den, whole, exponent, Tail::Zero),
    ensures
        narrowed(num, den, 2 * whole, exponent - 1, Tail::Zero),
{
    let k = (exponent + BIAS) as nat;
    vstd::arithmetic::power2::lemma_pow2_unfold(k);
    let scale = vstd::arithmetic::power2::pow2((k - 1) as nat) as int;
    assert(whole * (den * (2 * scale)) == (2 * whole) * (den * scale)) by (nonlinear_arith);
    assert((exponent - 1 + BIAS) as nat == (k - 1) as nat);
}

/// The value of a magnitude that is an integer part on a grid.
proof fn lemma_grid_units(whole: int, grid: int)
    requires
        0 <= grid,
        0 <= whole <= 2 * FRACTION_SPAN,
        grid > 0 ==> FRACTION_SPAN <= whole,
    ensures
        crate::numeric::magnitude_units(grid * FRACTION_SPAN + whole) == whole
            * vstd::arithmetic::power2::pow2(grid as nat),
{
    let span = FRACTION_SPAN as int;
    let magnitude = grid * span + whole;
    vstd::arithmetic::power2::lemma2_to64();
    if whole < span {
        assert(grid == 0);
        assert(magnitude / span == 0 && magnitude % span == magnitude);
    } else if whole < 2 * span {
        assert(magnitude / span == grid + 1 && magnitude % span == whole - span)
            by (nonlinear_arith)
            requires
                span == 0x80_0000,
                magnitude == grid * span + whole,
                span <= whole < 2 * span,
        ;
        assert((grid + 1 - 1) as nat == grid as nat);
    } else {
        assert(magnitude / span == grid + 2 && magnitude % span == 0) by (nonlinear_arith)
            requires
                span == 0x80_0000,
                magnitude == grid * span + whole,
                whole == 2 * span,
        ;
        assert((grid + 2 - 1) as nat == (grid + 1) as nat);
        vstd::arithmetic::power2::lemma_pow2_unfold((grid + 1) as nat);
        let scale = vstd::arithmetic::power2::pow2(grid as nat) as int;
        assert(span * (2 * scale) == (2 * span) * scale) by (nonlinear_arith);
    }
}

/// The magnitudes around a number that has been narrowed down to a grid: the
/// number is at least the lower value, below the upper one, and its tail says
/// on which side of the middle it lies.
proof fn lemma_on_grid(num: int, den: int, whole: int, grid: int, tail: Tail)
    requires
        den > 0,
        0 <= grid,
        0 <= whole < 2 * FRACTION_SPAN,
        grid > 0 ==> FRACTION_SPAN <= whole,
        narrowed(num, den, whole, grid, tail),
    ensures
        ({
            let low = grid * FRACTION_SPAN + whole;
            let low_units = crate::numeric::magnitude_units(low);
            let high_units = crate::numeric::magnitude_units(low + 1);
            &&& den * low_units <= num < den * high_units
            &&& den * (low_units + high_units) == den * low_units + den * high_units
            &&& tail == Tail::Half <==> 2 * num == den * (low_units + high_units)
            &&& tail == Tail::High <==> 2 * num > den * (low_units + high_units)
        }),
{
    let low_units = whole * vstd::arithmetic::power2::pow2(grid as nat);
    let high_units = (whole + 1) * vstd::arithmetic::power2::pow2(grid as nat);
    lemma_grid_units(whole, grid);
    lemma_grid_units(whole + 1, grid);
    let bias = vstd::arithmetic::power2::pow2(BIAS as nat) as int;
    let scale = vstd::arithmetic::power2::pow2(grid as nat) as int;
    vstd::arithmetic::power2::lemma_pow2_pos(BIAS as nat);
    vstd::arithmetic::power2::lemma_pow2_pos(grid as nat);
    vstd::arithmetic::power2::lemma_pow2_adds(grid as nat, BIAS as nat);
    let unit = den * (scale * bias);
    assert((grid + BIAS) as nat == grid as nat + BIAS as nat);
    assert(unit > 0) by (nonlinear_arith)
        requires
            unit == den * (scale * bias),
            den > 0,
            scale > 0,
            bias > 0,
    ;
    let value = num * bias;
    let base = whole * unit;
    assert(tail_holds(value, base, unit, tail));
    let a = den * low_units;
    let b = den * high_units;
    assert(a * bias == base) by (nonlinear_arith)
        requires
            a == den * low_units,
            low_units == whole * scale,
            base == whole * unit,
            unit == den * (scale * bias),
    ;
    assert(b * bias == base + unit) by (nonlinear_arith)
        requires
            b == den * high_units,
            high_units == (whole + 1) * scale,
            base == whole * unit,
            unit == den * (scale * bias),
    ;
    assert(den * (low_units + high_units) == a + b) by (nonlinear_arith)
        requires
            a == den * low_units,
            b == den * high_units,
    ;
    assert(base <= value < base + unit);
    assert(a <= num) by (nonlinear_arith)
        requires
            a * bias <= num * bias,
            bias > 0,
    ;
    assert(num < b) by (nonlinear_arith)
        requires
            num * bias < b * bias,
            bias > 0,
    ;
    assert((2 * num) * bias == 2 * value && (a + b) * bias == 2 * base + unit) by (nonlinear_arith)
        requires
            value == num * bias,
            a * bias == base,
            b * bias == base + unit,
    ;
    lemma_scaled_order(2 * num, a + b, bias);
}

/// Scaling two numbers by the same positive factor keeps their order.
pub(crate) proof fn lemma_scaled_order(left: int, right: int, factor: int)
    requires
        factor > 0,
    ensures
        left < right <==> left * factor < right * factor,
        left == right <==> left * factor == right * factor,
{
    if left < right {
        assert(left * factor < right * factor) by (nonlinear_arith)
            requires
                left < right,
                factor > 0,
        ;
    } else if right < left {
        assert(right * factor < left * factor) by (nonlinear_arith)
            requires
                right < left,
                factor > 0,
        ;
    }
}

/// The sums of neighbouring values grow with the magnitude.
proof fn lemma_middles_grow(small: int, large: int, den: int)
    requires
        0 <= small < large,
        den > 0,
    ensures
        den * (crate::numeric::magnitude_units(small) + crate::numeric::magnitude_units(small + 1))
            < den * (crate::numeric::magnitude_units(large) + crate::numeric::magnitude_units(
            large + 1,
        )),
{
    crate::numeric::lemma_magnitude_order(small, large);
    crate::numeric::lemma_magnitude_order(small + 1, large + 1);
    let a = crate::numeric::magnitude_units(small) + crate::numeric::magnitude_units(small + 1);
    let b = crate::numeric::magnitude_units(large) + crate::numeric::magnitude_units(large + 1);
    assert(den * a < den * b) by (nonlinear_arith)
        requires
            a < b,
            den > 0,
    ;
}

/// Rounds a number that has been narrowed down to `whole`, `exponent` and
/// `tail` to the nearest magnitude.
pub(crate) fn nearest_magnitude(
    whole: u64,
    exponent: i32,
    tail: Tail,
    Ghost(num): Ghost<int>,
    Ghost(den): Ghost<int>,
) -> (magnitude: u32)
    requires
        den > 0,
        -400 <= exponent <= 400,
        tail == Tail::Zero || whole >= FRACTION_SPAN,
        narrowed(num, den, whole as int, exponent as int, tail),
    ensures
        rounds_to(num, den, magnitude as int),
{
    let span: u64 = FRACTION_SPAN as u64;
    let mut t: u64 = whole;
    let mut e: i32 = exponent;
    let mut rest: Tail = tail;
    proof {
        vstd::arithmetic::power2::lemma2_to64();
        lemma_bit_length_bound(t, 64);
    }
    while t >= 2 * span || e < 0
        invariant
            den > 0,
            span == FRACTION_SPAN,
            narrowed(num, den, t as int, e as int, rest),
            -400 <= e,
            e <= 400 || t >= span,
            e > 0 ==> rest == Tail::Zero || t >= span,
            e + bit_length(t) <= 500,
        decreases (if e < 0 {
            -e
        } else {
            0
        }), t,
    {
        let bit: u64 = t % 2;
        let pushed = push_bit(rest, bit);
        proof {
            lemma_shift_right(num, den, t as int, e as int, rest, pushed);
            lemma_bit_length(t);
        }
        rest = pushed;
        t = t / 2;
        e = e + 1;
    }
    proof {
        lemma_bit_length(t);
    }
    while e > 0 && t < span
        invariant
            den > 0,
            span == FRACTION_SPAN,
            narrowed(num, den, t as int, e as int, rest),
            0 <= e <= 500,
            t < 2 * span,
            e > 0 ==> rest == Tail::Zero || t >= span,
        decreases e,
    {
        proof {
            lemma_shift_left(num, den, t as int, e as int);
        }
        t = 2 * t;
        e = e - 1;
    }
    proof {
        lemma_on_grid(num, den, t as int, e as int, rest);
    }
    let low: u64 = (e as u64) * span + t;
    let up = match rest {
        Tail::Zero => false,
        Tail::Low => false,
        Tail::Half => t % 2 == 1,
        Tail::High => true,
    };
    let chosen: u64 = if up {
        low + 1
    } else {
        low
    };
    proof {
        lemma_choice(num, den, t as int, e as int, rest, chosen as int);
    }
    if chosen >= INFINITY_MAGNITUDE as u64 {
        INFINITY_MAGNITUDE
    } else {
        chosen as u32
    }
}

/// Number of binary digits of a natural number.
spec fn bit_length(n: u64) -> int
    decreases n,
{
    if n == 0 {
        0
    } else {
        1 + bit_length(n / 2)
    }
}

/// Halving a number of two digits or more takes one digit away.
proof fn lemma_bit_length(n: u64)
    ensures
        n > 0 ==> bit_length(n) == 1 + bit_length(n / 2),
        n == 0 ==> bit_length(n / 2) == 0,
        bit_length(n) >= 0,
    decreases n,
{
    if n > 0 {
        lemma_bit_length(n / 2);
    }
}

/// A number below two to the `k` has at most `k` binary digits.
proof fn lemma_bit_length_bound(n: u64, k: nat)
    requires
        n < vstd::arithmetic::power2::pow2(k),
    ensures
        bit_length(n) <= k,
    decreases k,
{
    if k == 0 {
        vstd::arithmetic::power2::lemma2_to64();
    } else if n > 0 {
        vstd::arithmetic::power2::lemma_pow2_unfold(k);
        lemma_bit_length_bound(n / 2, (k - 1) as nat);
    }
}

/// The magnitude next to a narrowed number that its tail points to is the one
/// that it rounds to, or is too large to be finite.
proof fn lemma_choice(num: int, den: int, whole: int, grid: int, tail: Tail, chosen: int)
    requires
        den > 0,
        0 <= grid,
        0 <= whole < 2 * FRACTION_SPAN,
        grid > 0 ==> FRACTION_SPAN <= whole,
        narrowed(num, den, whole, grid, tail),
        chosen == grid * FRACTION_SPAN + whole + (if tail == Tail::High || (tail == Tail::Half
            && whole % 2 == 1) {
            1int
        } else {
            0int
        }),
    ensures
        rounds_to(
            num,
            den,
            if chosen >= INFINITY_MAGNITUDE {
                INFINITY_MAGNITUDE as int
            } else {
                chosen
            },
        ),
{
    let low = grid * FRACTION_SPAN + whole;
    assert(low >= 0 && low % 2 == whole % 2) by (nonlinear_arith)
        requires
            low == grid * 0x80_0000 + whole,
            grid >= 0,
            whole >= 0,
    ;
    lemma_on_grid(num, den, whole, grid, tail);
    lemma_middles_grow(low, low + 1, den);
    let a = crate::numeric::magnitude_units(low);
    let b = crate::numeric::magnitude_units(low + 1);
    if low > 0 {
        lemma_middles_grow(low - 1, low, den);
        crate::numeric::lemma_magnitude_order(low - 1, low);
        let z = crate::numeric::magnitude_units(low - 1);
        assert(den * (z + a) < 2 * (den * a)) by (nonlinear_arith)
            requires
                z < a,
                den > 0,
        ;
    }
    crate::numeric::lemma_magnitude_order(low + 1, low + 2);
    let c = crate::numeric::magnitude_units(low + 2);
    assert(2 * (den * b) < den * (b + c)) by (nonlinear_arith)
        requires
            b < c,
            den > 0,
    ;
    assert(chosen > 0 ==> reaches(num, den, chosen - 1, chosen % 2 == 0));
    assert(!reaches(num, den, chosen, chosen % 2 == 1));
    if chosen > INFINITY_MAGNITUDE {
        lemma_middles_grow(INFINITY_MAGNITUDE - 1, chosen - 1, den);
    }
}

/// A fraction rounds as it does when both parts are scaled.
pub(crate) proof fn lemma_rounds_scaled(num: int, den: int, factor: int, magnitude: int)
    requires
        factor > 0,
        rounds_to(num, den, magnitude),
    ensures
        rounds_to(num * factor, den * factor, magnitude),
{
    if magnitude > 0 {
        lemma_reaches_scaled(num, den, factor, magnitude - 1, magnitude % 2 == 0);
    }
    lemma_reaches_scaled(num, den, factor, magnitude, magnitude % 2 == 1);
}

/// Scaling both parts of a fraction keeps its side of a middle.
proof fn lemma_reaches_scaled(num: int, den: int, factor: int, magnitude: int, tie: bool)
    requires
        factor > 0,
    ensures
        reaches(num * factor, den * factor, magnitude, tie) == reaches(num, den, magnitude, tie),
{
    let sum = crate::numeric::magnitude_units(magnitude) + crate::numeric::magnitude_units(
        magnitude + 1,
    );
    assert(2 * (num * factor) == (2 * num) * factor && (den * factor) * sum == (den * sum)
        * factor) by (nonlinear_arith);
    lemma_scaled_order(2 * num, den * sum, factor);
    lemma_scaled_order(den * sum, 2 * num, factor);
}

/// Law: a number rounds to one magnitude only.
pub proof fn law_rounding_is_unique(num: int, den: int, left: int, right: int)
    requires
        den > 0,
        rounds_to(num, den, left),
        rounds_to(num, den, right),
    ensures
        left == right,
{
    if left < right {
        if left < right - 1 {
            lemma_middles_grow(left, right - 1, den);
        }
    } else if right < left {
        if right < left - 1 {
            lemma_middles_grow(right, left - 1, den);
        }
    }
}

/// Law: a number that has a magnitude of its own rounds to it.
pub proof fn law_rounding_is_exact(magnitude: int)
    requires
        0 <= magnitude <= INFINITY_MAGNITUDE,
    ensures
        rounds_to(crate::numeric::magnitude_units(magnitude), 1, magnitude),
{
    if magnitude > 0 {
        crate::numeric::lemma_magnitude_order(magnitude - 1, magnitude);
    }
    crate::numeric::lemma_magnitude_order(magnitude, magnitude + 1);
}

/// Law: of two numbers the smaller does not round to the larger value.
pub proof fn law_rounding_keeps_order(small: int, large: int, den: int, left: int, right: int)
    requires
        den > 0,
        small <= large,
        rounds_to(small, den, left),
        rounds_to(large, den, right),
    ensures
        left <= right,
{
    if right < left {
        if right < left - 1 {
            lemma_middles_grow(right, left - 1, den);
        }
    }
}

/// The distance between two numbers.
pub open spec fn distance(left: int, right: int) -> int {
    if left <= right {
        right - left
    } else {
        left - right
    }
}

/// Law: no value lies nearer to a number than the one that it rounds to, and of
/// two that lie equally near the even one is taken. Infinity counts as the value
/// that would follow the largest one.
pub proof fn law_rounding_is_nearest(num: int, den: int, magnitude: int, other: int)
    requires
        num >= 0,
        den > 0,
        rounds_to(num, den, magnitude),
        0 <= other <= 0x7f80_0000,
    ensures
        0 <= magnitude <= 0x7f80_0000,
        distance(den * crate::numeric::magnitude_units(magnitude), num) <= distance(
            den * crate::numeric::magnitude_units(other),
            num,
        ),
        other != magnitude && distance(den * crate::numeric::magnitude_units(magnitude), num)
            == distance(den * crate::numeric::magnitude_units(other), num) ==> magnitude % 2 == 0,
{
    let here = crate::numeric::magnitude_units(magnitude);
    let there = crate::numeric::magnitude_units(other);
    if other < magnitude {
        let below = crate::numeric::magnitude_units(magnitude - 1);
        crate::numeric::lemma_magnitude_trichotomy(other, magnitude - 1);
        crate::numeric::lemma_magnitude_order(magnitude - 1, magnitude);
        assert(den * there <= den * below && den * below < den * here && den * (below + here)
            == den * below + den * here) by (nonlinear_arith)
            requires
                there <= below < here,
                den > 0,
        ;
        if other < magnitude - 1 {
            assert(den * there < den * below) by (nonlinear_arith)
                requires
                    there < below,
                    den > 0,
            ;
        }
    } else if magnitude < other {
        let above = crate::numeric::magnitude_units(magnitude + 1);
        crate::numeric::lemma_magnitude_trichotomy(magnitude + 1, other);
        crate::numeric::lemma_magnitude_order(magnitude, magnitude + 1);
        assert(den * here < den * above && den * above <= den * there && den * (here + above)
            == den * here + den * above) by (nonlinear_arith)
            requires
                here < above <= there,
                den > 0,
        ;
        if magnitude + 1 < other {
            assert(den * above < den * there) by (nonlinear_arith)
                requires
                    above < there,
                    den > 0,
            ;
        }
    }
}

/// Law: a distance is the larger of the two differences.
pub proof fn law_distance_is_the_larger_difference(left: int, right: int)
    ensures
        distance(left, right) >= left - right,
        distance(left, right) >= right - left,
        distance(left, right) == left - right || distance(left, right) == right - left,
{
}

} // verus!
