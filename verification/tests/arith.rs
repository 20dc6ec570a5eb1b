use spirograph::arith::{distance, magnitude, scale, wide_mul, NORM_SLACK, TURN, UNIT};

#[test]
fn constants_have_their_documented_values() {
    assert_eq!(UNIT, 1 << 30);
    assert_eq!(TURN, 1 << 16);
    assert_eq!(NORM_SLACK, 2 * UNIT);
}

#[test]
fn scale_by_unit_is_identity() {
    assert_eq!(scale(UNIT, 12_345), 12_345);
    assert_eq!(scale(UNIT, -12_345), -12_345);
    assert_eq!(scale(UNIT, i64::MAX), i64::MAX);
    assert_eq!(scale(-UNIT, 12_345), -12_345);
    assert_eq!(scale(-UNIT, i64::MAX), -i64::MAX);
}

#[test]
fn scale_by_zero_or_of_zero_is_zero() {
    assert_eq!(scale(0, 987_654_321), 0);
    assert_eq!(scale(UNIT, 0), 0);
    assert_eq!(scale(-UNIT / 3, 0), 0);
}

#[test]
fn scale_rounds_toward_zero() {
    assert_eq!(scale(UNIT / 2, 3), 1);
    assert_eq!(scale(-UNIT / 2, 3), -1);
    assert_eq!(scale(UNIT / 2, -3), -1);
    assert_eq!(scale(-UNIT / 2, -3), 1);
    assert_eq!(scale(UNIT - 1, 1), 0);
    assert_eq!(scale(1 - UNIT, 1), 0);
}

#[test]
fn scale_of_a_diagonal_direction() {
    // cos(45 degrees) * 1000 = 707.1...
    assert_eq!(scale(759_250_125, 1_000), 707);
    assert_eq!(scale(-759_250_125, 1_000), -707);
}

#[test]
fn wide_mul_never_overflows() {
    assert_eq!(wide_mul(3, -7), -21);
    assert_eq!(wide_mul(i64::MAX, i64::MAX), (i64::MAX as i128) * (i64::MAX as i128));
    assert_eq!(wide_mul(i64::MIN, i64::MIN), (i64::MIN as i128) * (i64::MIN as i128));
    assert_eq!(wide_mul(i64::MIN, i64::MAX), (i64::MIN as i128) * (i64::MAX as i128));
}

#[test]
fn magnitude_and_distance_at_the_extremes() {
    assert_eq!(magnitude(0), 0);
    assert_eq!(magnitude(-5), 5);
    assert_eq!(magnitude(i64::MIN), 1i128 << 63);
    assert_eq!(distance(3, 10), 7);
    assert_eq!(distance(10, 3), 7);
    assert_eq!(distance(i64::MIN, i64::MAX), (1i128 << 64) - 1);
}
