use curve_track::ieee::{eq, le, lt, nan, rank_of};

#[test]
fn order_matches_float_order() {
    let values = [-3.5f32, -1.0, -1.0e-4, -0.0, 0.0, 1.0e-6, 0.5, 1.0, 100.0];
    for &a in &values {
        for &b in &values {
            assert_eq!(lt(a.to_bits(), b.to_bits()), a < b, "{a} < {b}");
            assert_eq!(le(a.to_bits(), b.to_bits()), a <= b, "{a} <= {b}");
            assert_eq!(eq(a.to_bits(), b.to_bits()), a == b, "{a} == {b}");
        }
    }
}

#[test]
fn zeros_are_equal() {
    assert!(eq(0.0f32.to_bits(), (-0.0f32).to_bits()));
    assert_eq!(rank_of((-0.0f32).to_bits()), 0);
}

#[test]
fn nan_compares_false() {
    let n = f32::NAN.to_bits();
    assert!(nan(n));
    assert!(!lt(n, 1.0f32.to_bits()));
    assert!(!lt(1.0f32.to_bits(), n));
    assert!(!eq(n, n));
    assert!(!nan(f32::INFINITY.to_bits()));
}
