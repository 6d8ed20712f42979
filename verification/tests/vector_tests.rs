use asteroid_avoider::vector::{rescale, saturating_sum, unsigned_magnitude, Vec2, UNIT};

#[test]
fn unit_has_sixteen_fraction_bits() {
    assert_eq!(UNIT, 1 << 16);
}

#[test]
fn saturating_sum_adds_inside_the_range() {
    assert_eq!(saturating_sum(2, 3), 5);
    assert_eq!(saturating_sum(-7, 3), -4);
    assert_eq!(saturating_sum(i64::MAX - 1, 1), i64::MAX);
    assert_eq!(saturating_sum(i64::MIN + 1, -1), i64::MIN);
}

#[test]
fn saturating_sum_stops_at_both_ends() {
    assert_eq!(saturating_sum(i64::MAX, 1), i64::MAX);
    assert_eq!(saturating_sum(i64::MAX, i64::MAX), i64::MAX);
    assert_eq!(saturating_sum(i64::MIN, -1), i64::MIN);
    assert_eq!(saturating_sum(i64::MIN, i64::MIN), i64::MIN);
    assert_eq!(saturating_sum(i64::MIN, i64::MAX), -1);
}

#[test]
fn unsigned_magnitude_of_both_signs() {
    assert_eq!(unsigned_magnitude(0), 0);
    assert_eq!(unsigned_magnitude(5), 5);
    assert_eq!(unsigned_magnitude(-5), 5);
    assert_eq!(unsigned_magnitude(i64::MAX), i64::MAX as u64);
    assert_eq!(unsigned_magnitude(i64::MIN), 1u64 << 63);
}

#[test]
fn rescale_rounds_toward_zero() {
    assert_eq!(rescale(7, 1, 2), 3);
    assert_eq!(rescale(-7, 1, 2), -3);
    assert_eq!(rescale(3, 10, 4), 7);
    assert_eq!(rescale(-3, 10, 4), -7);
    assert_eq!(rescale(0, 10, 4), 0);
    assert_eq!(rescale(5, 0, 9), 0);
    assert_eq!(rescale(65536, 3277, 65536), 3277);
    assert_eq!(rescale(-65536, 3277, 65536), -3277);
    assert_eq!(rescale(32768, 3277, 65536), 1638);
}

#[test]
fn rescale_at_the_ends_of_the_range() {
    assert_eq!(rescale(i64::MAX, u32::MAX, i64::MAX as u64), u32::MAX as i64);
    assert_eq!(rescale(i64::MIN, u32::MAX, 1u64 << 63), -(u32::MAX as i64));
    assert_eq!(rescale(i64::MIN, 1, u64::MAX), 0);
}

#[test]
fn vec2_constructors() {
    assert_eq!(Vec2::new(3, -4), Vec2 { x: 3, y: -4 });
    assert_eq!(Vec2::zero(), Vec2 { x: 0, y: 0 });
}

#[test]
fn length_sqr_is_the_sum_of_the_squares() {
    assert_eq!(Vec2::new(3, 4).length_sqr(), 25);
    assert_eq!(Vec2::new(-3, 4).length_sqr(), 25);
    assert_eq!(Vec2::new(0, 0).length_sqr(), 0);
    assert_eq!(Vec2::new(i64::MIN, i64::MIN).length_sqr(), 1u128 << 127);
    assert_eq!(
        Vec2::new(i64::MAX, 0).length_sqr(),
        (i64::MAX as u128) * (i64::MAX as u128)
    );
}

#[test]
fn saturating_add_is_componentwise() {
    assert_eq!(Vec2::new(1, 2).saturating_add(Vec2::new(10, -20)), Vec2::new(11, -18));
    assert_eq!(
        Vec2::new(i64::MAX, i64::MIN).saturating_add(Vec2::new(5, -5)),
        Vec2::new(i64::MAX, i64::MIN)
    );
}
