use textshape::num::{half_i128, half_i64, scale_i32};

#[test]
fn scaling_truncates_toward_zero() {
    assert_eq!(scale_i32(333, 500, 1000), 166);
    assert_eq!(scale_i32(-333, 500, 1000), -166);
    assert_eq!(scale_i32(1000, 500, 1000), 500);
    assert_eq!(scale_i32(-1000, 500, 1000), -500);
    assert_eq!(scale_i32(0, 123, 456), 0);
}

#[test]
fn engine_units_descale_by_sixty_four() {
    assert_eq!(scale_i32(640, 1, 64), 10);
    assert_eq!(scale_i32(-640, 1, 64), -10);
    assert_eq!(scale_i32(-7, 1, 64), 0);
    assert_eq!(scale_i32(-65, 1, 64), -1);
    assert_eq!(scale_i32(63, 1, 64), 0);
}

#[test]
fn halving_truncates_toward_zero() {
    assert_eq!(half_i64(7), 3);
    assert_eq!(half_i64(-7), -3);
    assert_eq!(half_i64(0), 0);
    assert_eq!(half_i128(-1), 0);
    assert_eq!(half_i128(-9), -4);
}
