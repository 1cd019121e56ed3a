use axon::numeric::F32;

fn f(value: f32) -> F32 {
    F32::from_bits(value.to_bits())
}

fn back(value: F32) -> f32 {
    f32::from_bits(value.to_bits())
}

/// Values at the edges of the format, and a few ordinary ones.
fn edge_values() -> Vec<f32> {
    let mut values = vec![
        0.0,
        1.0,
        0.1,
        0.5,
        1.5,
        3.0,
        10.0,
        255.0,
        16777216.0,
        16777217.0,
        1e-3,
        1e-20,
        1e-38,
        1e-44,
        1e20,
        1e38,
        f32::MIN_POSITIVE,
        f32::MAX,
        f32::EPSILON,
        f32::INFINITY,
        f32::NAN,
        f32::from_bits(1),
        f32::from_bits(2),
        f32::from_bits(3),
        f32::from_bits(0x007f_ffff),
        f32::from_bits(0x0080_0001),
        f32::from_bits(0x7f7f_fffe),
        f32::from_bits(0x3f7f_ffff),
        f32::from_bits(0x3f80_0001),
    ];
    let mirrored: Vec<f32> = values.iter().map(|v| -v).collect();
    values.extend(mirrored);
    values
}

/// A sequence of bit patterns that is spread over the whole format.
fn scattered(count: usize) -> Vec<f32> {
    let mut state: u64 = 0x9e37_79b9_7f4a_7c15;
    let mut values = Vec::new();
    for _ in 0..count {
        state = state.wrapping_mul(6364136223846793005).wrapping_add(1442695040888963407);
        values.push(f32::from_bits((state >> 32) as u32));
    }
    values
}

fn same(left: f32, right: f32) -> bool {
    (left.is_nan() && right.is_nan()) || left.to_bits() == right.to_bits()
}

#[test]
fn classification_agrees_with_the_machine() {
    for v in edge_values().into_iter().chain(scattered(5000)) {
        assert_eq!(f(v).is_nan(), v.is_nan());
        assert_eq!(f(v).is_finite(), v.is_finite());
        assert_eq!(f(v).is_infinite(), v.is_infinite());
        assert_eq!(f(v).is_zero(), v == 0.0);
        assert!(same(back(f(v).negated()), -v));
    }
}

#[test]
fn order_agrees_with_the_machine() {
    let values = edge_values();
    for &a in &values {
        for &b in &values {
            assert_eq!(f(a).lt(f(b)), a < b, "{a} < {b}");
            assert_eq!(f(a).le(f(b)), a <= b, "{a} <= {b}");
        }
    }
    let many = scattered(4000);
    for pair in many.chunks_exact(2) {
        assert_eq!(f(pair[0]).lt(f(pair[1])), pair[0] < pair[1]);
        assert_eq!(f(pair[0]).le(f(pair[1])), pair[0] <= pair[1]);
    }
}

#[test]
fn difference_agrees_with_the_machine() {
    let values = edge_values();
    for &a in &values {
        for &b in &values {
            assert!(same(back(f(a).minus(f(b))), a - b), "{a} - {b}");
        }
    }
    let many = scattered(20000);
    for pair in many.chunks_exact(2) {
        let (a, b) = (pair[0], pair[1]);
        assert!(same(back(f(a).minus(f(b))), a - b), "{a} - {b}");
        let close = f32::from_bits(a.to_bits() ^ (b.to_bits() & 0x80ff_ffff));
        assert!(same(back(f(a).minus(f(close))), a - close), "{a} - {close}");
    }
}

#[test]
fn product_agrees_with_the_machine() {
    let values = edge_values();
    for &a in &values {
        for &b in &values {
            assert!(same(back(f(a).times(f(b))), a * b), "{a} * {b}");
        }
    }
    let many = scattered(20000);
    for pair in many.chunks_exact(2) {
        let (a, b) = (pair[0], pair[1]);
        assert!(same(back(f(a).times(f(b))), a * b), "{a} * {b}");
    }
}

#[test]
fn reciprocal_agrees_with_the_machine() {
    for v in edge_values().into_iter().chain(scattered(10000)) {
        assert!(same(back(f(v).reciprocal()), 1.0 / v), "1 / {v}");
    }
}

#[test]
fn nearest_count_agrees_with_the_machine() {
    for v in edge_values().into_iter().chain(scattered(10000)) {
        if !v.is_nan() {
            assert_eq!(f(v).nearest_count(), v.abs().round() as u64, "{v}");
        }
    }
    assert_eq!(f(2.5).nearest_count(), 3);
    assert_eq!(f(0.49999997).nearest_count(), 0);
    assert_eq!(f(f32::INFINITY).nearest_count(), u64::MAX);
}

#[test]
fn exact_results() {
    assert_eq!(back(f(3.0).minus(f(1.0))), 2.0);
    assert_eq!(back(f(3.0).times(f(0.5))), 1.5);
    assert_eq!(back(f(4.0).reciprocal()), 0.25);
    assert_eq!(f(-0.0).minus(f(0.0)).to_bits(), 0x8000_0000);
    assert_eq!(f(5.0).minus(f(5.0)).to_bits(), 0);
    assert!(f(f32::INFINITY).minus(f(f32::INFINITY)).is_nan());
    assert!(f(f32::INFINITY).times(f(0.0)).is_nan());
    assert_eq!(back(f(f32::MAX).times(f(2.0))), f32::INFINITY);
    assert_eq!(f(f32::from_bits(1)).times(f(0.5)).to_bits(), 0);
    assert_eq!(f(f32::from_bits(3)).times(f(0.5)).to_bits(), 2);
}

#[test]
fn reciprocals_of_larger_numbers_are_not_larger() {
    let rising = [1e-45f32, 1e-39, 0.1, 0.33333334, 0.5, 1.0, 3.0, 1e30, f32::MAX, f32::INFINITY];
    for pair in rising.windows(2) {
        let (high, low) = (f(pair[0]).reciprocal(), f(pair[1]).reciprocal());
        assert!(low.le(high), "{pair:?}");
        assert!(low.nearest_count() <= high.nearest_count(), "{pair:?}");
    }
}
