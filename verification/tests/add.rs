use dec64::Dec64;

#[test]
fn add_zero() {
    let zero = Dec64::zero();
    let one = Dec64::from_parts(1, 0);

    assert_eq!(zero.add(zero), zero);

    assert_eq!(zero.add(one), one);
    assert_eq!(one.add(zero), one);

    assert_eq!(zero.add(Dec64::max_value()), Dec64::max_value());
    assert_eq!(Dec64::max_value().add(zero), Dec64::max_value());

    assert_eq!(zero.add(Dec64::min_value()), Dec64::min_value());
    assert_eq!(Dec64::min_value().add(zero), Dec64::min_value());
}

#[test]
fn add_trivial() {
    let one = Dec64::from_parts(1, 0);
    let two = Dec64::from_parts(2, 0);
    let neg_one = Dec64::from_parts(-1, 0);
    let zero = Dec64::zero();

    assert_eq!(one.add(one), two);
    assert_eq!(one.add(neg_one), zero);
    assert_eq!(neg_one.add(one), zero);
}

#[test]
fn add_same_neg() {
    let neg_one = Dec64::from_parts(-1, 0);
    let neg_two = Dec64::from_parts(-2, 0);
    let neg_four = Dec64::from_parts(-4, 0);
    let neg_eight = Dec64::from_parts(-8, 0);

    assert_eq!(neg_one.add(neg_one), neg_two);
    assert_eq!(neg_two.add(neg_two), neg_four);
    assert_eq!(neg_four.add(neg_four), neg_eight);
}

#[test]
fn add_nan() {
    let nan = Dec64::nan();
    let nan_nan = Dec64::from_parts(128, -128);
    let zero = Dec64::zero();
    let one = Dec64::from_parts(1, 0);

    assert_eq!(nan_nan.add(nan_nan), nan);

    assert_eq!(nan_nan.add(zero), nan);
    assert_eq!(zero.add(nan_nan), nan);

    assert_eq!(nan_nan.add(one), nan);
    assert_eq!(one.add(nan_nan), nan);

    assert_eq!(nan_nan.add(Dec64::max_value()), nan);
    assert_eq!(Dec64::max_value().add(nan_nan), nan);

    assert_eq!(nan_nan.add(Dec64::min_value()), nan);
    assert_eq!(Dec64::min_value().add(nan_nan), nan);
}

#[test]
fn add_neg_tenth() {
    let neg_tenth = Dec64::from_parts(-1, -1);
    let neg_fifth = Dec64::from_parts(-2, -1);

    assert_eq!(neg_tenth.add(neg_tenth), neg_fifth);
}

#[test]
fn add_range_overflow() {
    assert_eq!(Dec64::max_value().add(Dec64::max_value()), Dec64::nan());
    assert_eq!(Dec64::min_value().add(Dec64::min_value()), Dec64::nan());
}

#[test]
fn add_minmax() {
    let expect = Dec64::from_parts(-1, 127);

    assert_eq!(Dec64::max_value().add(Dec64::min_value()), expect);
    assert_eq!(Dec64::min_value().add(Dec64::max_value()), expect);
}

#[test]
fn add_positive_integer_overflow() {
    let ten = Dec64::from_parts(10, 0);
    let value = Dec64::from_parts(36028797018963960, 0);
    let expect = Dec64::from_parts(3602879701896397, 1);
    let result = value.add(ten);

    assert_eq!(result, expect);
}

#[test]
fn add_negative_integer_overflow() {
    let neg_ten = Dec64::from_parts(-10, 0);
    let value = Dec64::from_parts(-36028797018963960, 0);
    let expect = Dec64::from_parts(-3602879701896397, 1);
    let result = value.add(neg_ten);

    assert_eq!(result, expect);
}

#[test]
fn add_with_zero_exponent() {
    let coefficient_a = 333;
    let coefficient_b = 222;
    let exponent = 0;
    let a = Dec64::from_parts(coefficient_a, exponent);
    let b = Dec64::from_parts(coefficient_b, exponent);
    let expect = Dec64::from_parts(coefficient_a + coefficient_b, exponent);
    let result = a.add(b);

    assert_eq!(result.coefficient(), coefficient_a + coefficient_b);
    assert_eq!(result.exponent(), exponent);
    assert_eq!(result, expect);
}

#[test]
fn add_with_same_non_zero_exponent() {
    let coefficient_a = 333;
    let coefficient_b = 222;
    let exponent = 11;
    let a = Dec64::from_parts(coefficient_a, exponent);
    let b = Dec64::from_parts(coefficient_b, exponent);
    let expect = Dec64::from_parts(coefficient_a + coefficient_b, exponent);
    let result = a.add(b);

    assert_eq!(result.coefficient(), coefficient_a + coefficient_b);
    assert_eq!(result.exponent(), exponent);
    assert_eq!(result, expect);
}

#[test]
fn add_with_reducable_exponent() {
    let coefficient_a = 333;
    let coefficient_b = 222;
    let exponent_a = 20;
    let exponent_b = 10;
    let a = Dec64::from_parts(coefficient_a, exponent_a);
    let b = Dec64::from_parts(coefficient_b, exponent_b);
    let expect = Dec64::from_parts(coefficient_a * 10_000_000_000 + coefficient_b, exponent_b);
    let result = a.add(b);

    assert_eq!(result, expect);
}

#[test]
fn add_with_significance_loss() {
    let coefficient_a = 333;
    let coefficient_b = 222;
    let exponent_a = 26;
    let exponent_b = 10;
    let a = Dec64::from_parts(coefficient_a, exponent_a);
    let b = Dec64::from_parts(coefficient_b, exponent_b);
    let expect = Dec64::from_parts(
        coefficient_a * 100_000_000_000_000 + coefficient_b / 100,
        exponent_b + 2,
    );
    let result = a.add(b);

    assert_eq!(result, expect);
}

#[test]
fn add_double_max_coefficient() {
    let value = Dec64::from_parts(dec64::MAX_COEFFICIENT, 64);
    let expect = Dec64::from_parts(dec64::MAX_COEFFICIENT * 2 / 10, 65);

    assert_eq!(value.add(value), expect);
}

#[test]
fn add_double_min_coefficient() {
    let value = Dec64::from_parts(dec64::MIN_COEFFICIENT, 64);
    // The minimum coefficient ends in 8, so scaling rounds down.
    let expect = Dec64::from_parts(dec64::MIN_COEFFICIENT * 2 / 10 - 1, 65);

    assert_eq!(value.add(value), expect);
}
