use tile_physics::vector::{narrow, rate_over_time, Vector2, MICROS_PER_SECOND, RATE_LIMIT};

#[test]
fn narrow_keeps_what_fits() {
    assert_eq!(narrow(0), 0);
    assert_eq!(narrow(-17), -17);
    assert_eq!(narrow(i32::MAX as i128), i32::MAX);
    assert_eq!(narrow(i32::MIN as i128), i32::MIN);
}

#[test]
fn narrow_stops_at_the_ends_of_the_range() {
    assert_eq!(narrow(i32::MAX as i128 + 1), i32::MAX);
    assert_eq!(narrow(i32::MIN as i128 - 1), i32::MIN);
    assert_eq!(narrow(i128::MAX), i32::MAX);
    assert_eq!(narrow(i128::MIN), i32::MIN);
}

#[test]
fn rate_over_a_whole_second() {
    assert_eq!(MICROS_PER_SECOND, 1_000_000);
    assert_eq!(rate_over_time(200, 1_000_000), 200);
    assert_eq!(rate_over_time(-200, 1_000_000), -200);
}

#[test]
fn rate_over_a_part_of_a_second_is_rounded_toward_zero() {
    assert_eq!(rate_over_time(1000, 16_667), 16);
    assert_eq!(rate_over_time(-1000, 16_667), -16);
    assert_eq!(rate_over_time(7, 500_000), 3);
    assert_eq!(rate_over_time(-7, 500_000), -3);
    assert_eq!(rate_over_time(1, 999_999), 0);
    assert_eq!(rate_over_time(-1, 999_999), 0);
    assert_eq!(rate_over_time(100, 0), 0);
}

#[test]
fn rate_at_the_limit() {
    assert_eq!(RATE_LIMIT, 1i128 << 90);
    assert_eq!(rate_over_time(RATE_LIMIT, u32::MAX), (RATE_LIMIT * u32::MAX as i128) / 1_000_000);
    assert_eq!(rate_over_time(-RATE_LIMIT, u32::MAX), -((RATE_LIMIT * u32::MAX as i128) / 1_000_000));
}

#[test]
fn vectors_are_built_from_their_components() {
    let v = Vector2::new(3, -4);
    assert_eq!(v.x, 3);
    assert_eq!(v.y, -4);
    assert_eq!(Vector2::splat(18), Vector2::new(18, 18));
}
