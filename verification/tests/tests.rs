use dec64::Dec64;

#[test]
fn compose_max() {
    let dec = Dec64::from_parts(dec64::MAX_COEFFICIENT, 127);

    assert_eq!(dec, Dec64::max_value());
}

#[test]
fn compose_min() {
    let dec = Dec64::from_parts(dec64::MIN_COEFFICIENT, 127);

    assert_eq!(dec, Dec64::min_value());
}

#[test]
fn compose_nan() {
    let nan_normal = Dec64::from_parts(0, -128);
    let nan_subnormal = Dec64::from_parts(42, -128);

    assert!(nan_normal.is_nan());
    assert!(nan_subnormal.is_nan());
    assert_eq!(nan_normal, Dec64::nan());
    // NaNs are equal only bit for bit: a payload NaN is not the
    // canonical NaN, but it does equal itself.
    assert_ne!(nan_subnormal, Dec64::nan());
    assert_eq!(nan_subnormal, Dec64::from_parts(42, -128));
}

#[test]
fn compose_zero() {
    let zero_normal = Dec64::from_parts(0, 0);
    let zero_high = Dec64::from_parts(0, 127);
    let zero_low = Dec64::from_parts(0, -127);

    assert!(zero_normal.is_zero());
    assert!(zero_high.is_zero());
    assert!(zero_low.is_zero());
    assert_eq!(zero_normal, Dec64::zero());
    assert_eq!(zero_high, Dec64::zero());
    assert_eq!(zero_low, Dec64::zero());
}

#[test]
fn write_42() {
    let dec = Dec64::from_parts(42, 0);

    let mut buf: Vec<u8> = Vec::new();

    dec.write(&mut buf);

    let string = String::from_utf8(buf).unwrap();

    assert_eq!(string, "42");
}

#[test]
fn write_pi() {
    let dec = Dec64::from_parts(3141592653589793, -15);

    let mut buf: Vec<u8> = Vec::new();

    dec.write(&mut buf);

    let string = String::from_utf8(buf).unwrap();

    assert_eq!(string, "3.141592653589793");
}

#[test]
fn write_midperiod() {
    let dec = Dec64::from_parts(123456, -3);

    let mut buf: Vec<u8> = Vec::new();

    dec.write(&mut buf);

    let string = String::from_utf8(buf).unwrap();

    assert_eq!(string, "123.456");
}
