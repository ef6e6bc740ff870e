use watt::number::{mean_of, ArithmeticError, Fixed};

fn fixed(micros: i64) -> Fixed {
    Fixed::from_micros(micros)
}

#[test]
fn product_is_rounded_to_the_nearest_millionth() {
    assert_eq!(fixed(3_333_000_000).times(fixed(650_000)), Ok(fixed(2_166_450_000)));
    // 0.000001 * 0.5 is half a millionth, which rounds away from zero.
    assert_eq!(fixed(1).times(fixed(500_000)), Ok(fixed(1)));
    assert_eq!(fixed(-1).times(fixed(500_000)), Ok(fixed(-1)));
    assert_eq!(fixed(1).times(fixed(499_999)), Ok(fixed(0)));
}

#[test]
fn sums_and_differences_are_exact() {
    assert_eq!(fixed(1_500_000).plus(fixed(2_250_000)), Ok(fixed(3_750_000)));
    assert_eq!(fixed(1_500_000).minus(fixed(2_250_000)), Ok(fixed(-750_000)));
}

#[test]
fn overflow_is_an_error() {
    assert_eq!(fixed(i64::MAX).plus(fixed(1)), Err(ArithmeticError::Overflow));
    assert_eq!(fixed(i64::MIN).minus(fixed(1)), Err(ArithmeticError::Overflow));
    assert_eq!(fixed(i64::MAX).times(fixed(2_000_000)), Err(ArithmeticError::Overflow));
    assert_eq!(Fixed::from_int(i64::MAX), Err(ArithmeticError::Overflow));
    assert_eq!(Fixed::from_u64(u64::MAX), Err(ArithmeticError::Overflow));
}

#[test]
fn quotient_is_rounded_to_the_nearest_millionth() {
    assert_eq!(fixed(5_000_000).over(fixed(3_000_000)), Ok(fixed(1_666_667)));
    assert_eq!(fixed(-5_000_000).over(fixed(3_000_000)), Ok(fixed(-1_666_667)));
    assert_eq!(fixed(5_000_000).over(fixed(-3_000_000)), Ok(fixed(-1_666_667)));
    assert_eq!(fixed(1_000_000).over(fixed(4_000_000)), Ok(fixed(250_000)));
}

#[test]
fn division_by_zero_is_an_error() {
    assert_eq!(fixed(1_000_000).over(Fixed::zero()), Err(ArithmeticError::DivisionByZero));
}

#[test]
fn whole_powers() {
    assert_eq!(fixed(2_000_000).raised_to(fixed(10_000_000)), Ok(fixed(1_024_000_000)));
    assert_eq!(fixed(1_500_000).raised_to(fixed(2_000_000)), Ok(fixed(2_250_000)));
    assert_eq!(fixed(7_000_000).raised_to(Fixed::zero()), Ok(Fixed::one()));
    assert_eq!(fixed(-3_000_000).raised_to(fixed(3_000_000)), Ok(fixed(-27_000_000)));
}

#[test]
fn other_powers_are_refused() {
    assert_eq!(
        fixed(2_000_000).raised_to(fixed(500_000)),
        Err(ArithmeticError::UnsupportedExponent)
    );
    assert_eq!(
        fixed(2_000_000).raised_to(fixed(-500_000)),
        Err(ArithmeticError::UnsupportedExponent)
    );
    assert_eq!(
        fixed(2_000_000).raised_to(fixed(i64::MIN)),
        Err(ArithmeticError::UnsupportedExponent)
    );
    assert_eq!(fixed(10_000_000).raised_to(fixed(40_000_000)), Err(ArithmeticError::Overflow));
}

#[test]
fn negative_whole_powers_are_reciprocals() {
    assert_eq!(fixed(2_000_000).raised_to(fixed(-1_000_000)), Ok(fixed(500_000)));
    assert_eq!(fixed(2_000_000).raised_to(fixed(-3_000_000)), Ok(fixed(125_000)));
    assert_eq!(fixed(-4_000_000).raised_to(fixed(-1_000_000)), Ok(fixed(-250_000)));
    assert_eq!(fixed(500_000).raised_to(fixed(-2_000_000)), Ok(fixed(4_000_000)));
    assert_eq!(fixed(3_000_000).raised_to(fixed(-1_000_000)), Ok(fixed(333_333)));
    assert_eq!(fixed(10_000_000).raised_to(fixed(-7_000_000)), Ok(fixed(0)));
    assert_eq!(fixed(1_000_000).raised_to(fixed(-9_000_000_000_000)), Ok(Fixed::one()));
    assert_eq!(
        Fixed::zero().raised_to(fixed(-1_000_000)),
        Err(ArithmeticError::DivisionByZero)
    );
    assert_eq!(fixed(10_000_000).raised_to(fixed(-40_000_000)), Err(ArithmeticError::Overflow));
}

#[test]
fn comparisons_and_rounding() {
    assert!(fixed(1).less_than(fixed(2)));
    assert!(!fixed(2).less_than(fixed(2)));
    assert!(fixed(3).more_than(fixed(2)));
    assert!(fixed(2_000_000).is_whole());
    assert!(!fixed(2_000_001).is_whole());
    assert_eq!(fixed(2_166_450_000).round(), 2166);
    assert_eq!(fixed(2_500_000).round(), 3);
    assert_eq!(fixed(-2_500_000).round(), -3);
    assert_eq!(fixed(2_499_999).round(), 2);
}

#[test]
fn ratios_and_whole_numbers() {
    assert_eq!(Fixed::from_ratio(87, 100), Ok(fixed(870_000)));
    assert_eq!(Fixed::from_ratio(1, 3), Ok(fixed(333_333)));
    assert_eq!(Fixed::from_ratio(2, 3), Ok(fixed(666_667)));
    assert_eq!(Fixed::from_ratio(1, 0), Err(ArithmeticError::DivisionByZero));
    assert_eq!(Fixed::from_int(-4), Ok(fixed(-4_000_000)));
    assert_eq!(Fixed::from_u64(12), Ok(fixed(12_000_000)));
    assert_eq!(Fixed::one().micros(), 1_000_000);
}

#[test]
fn mean_of_values() {
    assert_eq!(mean_of(&vec![]), fixed(0));
    assert_eq!(mean_of(&vec![fixed(100_000), fixed(200_000), fixed(400_000)]), fixed(233_333));
    assert_eq!(mean_of(&vec![fixed(i64::MAX), fixed(i64::MAX)]), fixed(i64::MAX));
    assert_eq!(mean_of(&vec![fixed(i64::MIN), fixed(i64::MIN)]), fixed(i64::MIN));
    assert_eq!(mean_of(&vec![fixed(-1), fixed(-2)]), fixed(-2));
}
