use console::math::Fixed;

#[test]
fn from_raw_is_exact() {
    assert_eq!(Fixed::from(300).0, 300);
    assert_eq!(Fixed::from(-300).0, -300);
    assert_eq!(Fixed::from(0).0, 0);
}

#[test]
fn from_raw_256_equals_default() {
    assert_eq!(Fixed::from(256), Fixed::default());
}

#[test]
fn add_then_sub_restores() {
    let a = Fixed::from(300);
    let b = Fixed::from(-50);
    assert_eq!(a.add(b).sub(b), a);
    let c = Fixed::from(-32000);
    let d = Fixed::from(12345);
    assert_eq!(c.add(d).sub(d), c);
}

#[test]
fn mul_by_one_is_identity() {
    let one = Fixed::from(256);
    assert_eq!(Fixed::from(123).mul(one), Fixed::from(123));
    assert_eq!(Fixed::from(-123).mul(one), Fixed::from(-123));
    assert_eq!(Fixed::from(0).mul(one), Fixed::from(0));
}

#[test]
fn mul_is_exact_where_representable() {
    // 2.0 * 2.0 == 4.0
    assert_eq!(Fixed::from(512).mul(Fixed::from(512)), Fixed::from(1024));
    // -300/256 * 0.5 == -150/256 exactly
    assert_eq!(Fixed::from(-300).mul(Fixed::from(128)), Fixed::from(-150));
}

#[test]
fn mul_floors_like_arithmetic_shift() {
    // (-1 * 1) >> 8 is -1, not 0: the shift floors.
    assert_eq!(Fixed::from(-1).mul(Fixed::from(1)), Fixed::from(-1));
}

#[test]
fn div_truncates() {
    // -1.0 / 2.0: raw -256 << 8 / 512 = -128
    assert_eq!(Fixed::from(-256).div(Fixed::from(512)), Fixed::from(-128));
    // raw: (-1 << 8) / 512 truncates toward zero
    assert_eq!(Fixed::from(-1).div(Fixed::from(512)), Fixed::from(0));
    assert_eq!(Fixed::from(512).div(Fixed::from(256)), Fixed::from(512));
}

#[test]
fn rem_takes_dividend_sign() {
    assert_eq!(Fixed::from(-300).rem(Fixed::from(256)), Fixed::from(-44));
    assert_eq!(Fixed::from(300).rem(Fixed::from(-256)), Fixed::from(44));
    assert_eq!(Fixed::from(300).rem(Fixed::from(256)), Fixed::from(44));
}

#[test]
fn mixed_integer_ops_scale_by_256() {
    // integers are treated as already scaled by 256 for add/sub
    assert_eq!(Fixed::from(256).add_int(2), Fixed::from(768));
    assert_eq!(Fixed::from(256).sub_int(1), Fixed::from(0));
    // and as unscaled factors for mul/div
    assert_eq!(Fixed::from(100).mul_int(3), Fixed::from(300));
    assert_eq!(Fixed::from(-100).mul_int(3), Fixed::from(-300));
    assert_eq!(Fixed::from(300).div_int(2), Fixed::from(150));
    assert_eq!(Fixed::from(-301).div_int(2), Fixed::from(-150));
}

#[test]
fn scale_multiplies_integer_by_fixed() {
    // 100 * 0.5 == 50
    assert_eq!(Fixed::from(128).scale(100), 50);
    // truncating, not flooring: -101 * 0.5 is -50, not -51
    assert_eq!(Fixed::from(128).scale(-101), -50);
    // identity coefficient passes the integer through
    assert_eq!(Fixed::from(256).scale(-7), -7);
}

#[test]
fn scale_recip_divides_integer_by_fixed() {
    // 100 / 0.5 == 200
    assert_eq!(Fixed::from(128).scale_recip(100), 200);
    assert_eq!(Fixed::from(256).scale_recip(-7), -7);
}
