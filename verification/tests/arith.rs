use befunge::arith::{value_add, value_div, value_mod, value_mul, value_sub};

#[test]
fn trunc_div_rounds_toward_zero() {
    assert_eq!(value_div(5, 2), 2);
    assert_eq!(value_div(5, -2), -2);
    assert_eq!(value_div(-5, 2), -2);
    assert_eq!(value_div(-5, -2), 2);
}

#[test]
fn trunc_div_small_dividend() {
    assert_eq!(value_div(2, 5), 0);
    assert_eq!(value_div(-2, 5), 0);
    assert_eq!(value_div(2, -5), 0);
    assert_eq!(value_div(-2, -5), 0);
}

#[test]
fn trunc_div_units() {
    assert_eq!(value_div(0, 7), 0);
    assert_eq!(value_div(7, 1), 7);
    assert_eq!(value_div(7, -1), -7);
    assert_eq!(value_div(-7, -1), 7);
}

#[test]
fn trunc_mod_takes_dividend_sign() {
    assert_eq!(value_mod(5, 2), 1);
    assert_eq!(value_mod(5, -2), 1);
    assert_eq!(value_mod(-5, 2), -1);
    assert_eq!(value_mod(-5, -2), -1);
    assert_eq!(value_mod(2, 5), 2);
    assert_eq!(value_mod(-2, 5), -2);
}

#[test]
fn divmod_identity_on_samples() {
    let samples: Vec<(i64, i64)> = vec![
        (5, 2),
        (5, -2),
        (-5, 2),
        (-5, -2),
        (2, 5),
        (-2, 5),
        (0, 3),
        (17, 4),
        (-17, 4),
        (100, 7),
    ];
    for (a, b) in samples {
        let q = value_div(a, b);
        let m = value_mod(a, b);
        assert_eq!(a, b.wrapping_mul(q).wrapping_add(m));
        assert!(m == 0 || m.signum() == a.signum());
    }
}

#[test]
fn add_sub_mul_wrap() {
    assert_eq!(value_add(2, 3), 5);
    assert_eq!(value_sub(2, 3), -1);
    assert_eq!(value_mul(-4, 6), -24);
    assert_eq!(value_add(i64::MAX, 1), i64::MIN);
    assert_eq!(value_sub(i64::MIN, 1), i64::MAX);
    assert_eq!(value_mul(i64::MAX, 2), -2);
}

#[test]
fn division_overflow_wraps() {
    assert_eq!(value_div(i64::MIN, -1), i64::MIN);
    assert_eq!(value_mod(i64::MIN, -1), 0);
    assert_eq!(value_div(i64::MIN, 1), i64::MIN);
    assert_eq!(value_mod(i64::MIN, 1), 0);
}
