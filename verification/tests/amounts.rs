use option_settlement::amounts::{Price, Quantity};
use option_settlement::decimal::{Amount, MAX_MANTISSA};

fn amount(mantissa: i128, scale: u32) -> Amount {
    Amount { mantissa, scale }
}

fn price(mantissa: i128, precision: u8) -> Price {
    Price { mantissa, precision }
}

fn quantity(mantissa: u128, precision: u8) -> Quantity {
    Quantity { mantissa, precision }
}

#[test]
fn price_keeps_a_value_that_fits() {
    assert_eq!(Price::from_decimal_dp(amount(125, 2), 2), Some(price(125, 2)));
    assert_eq!(Price::from_decimal_dp(amount(125, 2), 4), Some(price(12_500, 4)));
    assert_eq!(Price::from_decimal_dp(amount(0, 0), 2), Some(price(0, 2)));
}

#[test]
fn price_rounds_half_to_even() {
    assert_eq!(Price::from_decimal_dp(amount(125, 2), 1), Some(price(12, 1)));
    assert_eq!(Price::from_decimal_dp(amount(135, 2), 1), Some(price(14, 1)));
    assert_eq!(Price::from_decimal_dp(amount(1251, 3), 1), Some(price(13, 1)));
    assert_eq!(Price::from_decimal_dp(amount(1249, 3), 1), Some(price(12, 1)));
    assert_eq!(Price::from_decimal_dp(amount(-125, 2), 1), Some(price(-12, 1)));
    assert_eq!(Price::from_decimal_dp(amount(-135, 2), 1), Some(price(-14, 1)));
    assert_eq!(Price::from_decimal_dp(amount(-126, 2), 1), Some(price(-13, 1)));
    assert_eq!(Price::from_decimal_dp(amount(5, 1), 0), Some(price(0, 0)));
    assert_eq!(Price::from_decimal_dp(amount(15, 1), 0), Some(price(2, 0)));
}

#[test]
fn price_out_of_range_is_none() {
    assert_eq!(Price::from_decimal_dp(amount(MAX_MANTISSA, 0), 0), Some(price(MAX_MANTISSA, 0)));
    assert_eq!(Price::from_decimal_dp(amount(MAX_MANTISSA, 0), 1), None);
    assert_eq!(Price::from_decimal_dp(amount(-MAX_MANTISSA, 0), 1), None);
    assert_eq!(Price::from_decimal_dp(amount(1, 0), 29), None);
}

#[test]
fn rounding_does_not_depend_on_the_scale() {
    assert_eq!(
        Price::from_decimal_dp(amount(135, 2), 1),
        Price::from_decimal_dp(amount(135_000, 5), 1)
    );
}

#[test]
fn price_zero_and_validity() {
    assert_eq!(Price::zero(3), price(0, 3));
    assert!(price(-5, 28).is_valid());
    assert!(!price(0, 29).is_valid());
    assert!(!price(MAX_MANTISSA + 1, 0).is_valid());
    assert!(!price(-MAX_MANTISSA - 1, 0).is_valid());
    assert_eq!(price(15_025, 2).as_decimal(), amount(15_025, 2));
}

#[test]
fn quantity_rounds_and_is_not_negative() {
    assert_eq!(Quantity::from_decimal_dp(amount(25, 1), 0), Some(quantity(2, 0)));
    assert_eq!(Quantity::from_decimal_dp(amount(35, 1), 0), Some(quantity(4, 0)));
    assert_eq!(Quantity::from_decimal_dp(amount(3, 0), 2), Some(quantity(300, 2)));
    assert_eq!(Quantity::from_decimal_dp(amount(-3, 0), 2), None);
    assert_eq!(Quantity::from_decimal_dp(amount(MAX_MANTISSA, 0), 1), None);
    assert_eq!(Quantity::from_decimal_dp(amount(3, 0), 29), None);
}

#[test]
fn quantities_are_compared_by_value() {
    assert!(quantity(100, 2).is_same_as(&quantity(1, 0)));
    assert!(quantity(1, 0).is_same_as(&quantity(100, 2)));
    assert!(!quantity(101, 2).is_same_as(&quantity(1, 0)));
    assert!(quantity(0, 0).is_same_as(&quantity(0, 255)));
    assert!(!quantity(10, 0).is_same_as(&quantity(1, 0)));
    assert!(quantity(7, 3).is_same_as(&quantity(7, 3)));
}

#[test]
fn quantity_validity() {
    assert!(quantity(7, 28).is_valid());
    assert!(!quantity(7, 29).is_valid());
    assert!(!quantity(u128::MAX, 0).is_valid());
    assert_eq!(quantity(7, 3).as_decimal(), amount(7, 3));
}
