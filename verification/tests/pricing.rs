use option_settlement::accounts::AccountIds;
use option_settlement::amounts::{Price, Quantity};
use option_settlement::decimal::{Amount, MAX_MANTISSA};
use option_settlement::engine::{
    cash_price_from_gain, OrderMatchingEngine, OrderMatchingEngineConfig,
};
use option_settlement::faults::SettlementFault;
use option_settlement::model::{InstrumentAny, OptionKind, Position, PositionSide};

fn price(mantissa: i128, precision: u8) -> Price {
    Price { mantissa, precision }
}

fn quantity(mantissa: u128, precision: u8) -> Quantity {
    Quantity { mantissa, precision }
}

fn option(kind: Option<OptionKind>, strike: Option<Price>) -> InstrumentAny {
    InstrumentAny {
        id: "AAPL250117C00150000.XNAS".to_string(),
        is_index: false,
        underlying: Some("AAPL".to_string()),
        strike_price: strike,
        option_kind: kind,
        expiration_ns: Some(1_737_072_000_000_000_000),
        multiplier: quantity(100, 0),
        price_precision: 2,
        size_precision: 0,
        quote_currency: "USD".to_string(),
    }
}

fn stock() -> InstrumentAny {
    InstrumentAny {
        id: "AAPL.XNAS".to_string(),
        is_index: false,
        underlying: None,
        strike_price: None,
        option_kind: None,
        expiration_ns: None,
        multiplier: quantity(1, 0),
        price_precision: 2,
        size_precision: 0,
        quote_currency: "USD".to_string(),
    }
}

fn engine(instrument: InstrumentAny) -> OrderMatchingEngine {
    OrderMatchingEngine {
        venue: "XNAS".to_string(),
        instrument,
        config: OrderMatchingEngineConfig { use_random_ids: false },
        instrument_close: None,
        option_settlement_warning: None,
        warnings: Vec::new(),
        account_ids: AccountIds::new(),
    }
}

fn position(quantity: Quantity) -> Position {
    Position {
        id: "P-1".to_string(),
        trader_id: "TRADER-001".to_string(),
        strategy_id: "S-001".to_string(),
        account_id: "SIM-001".to_string(),
        opening_order_id: "O-1".to_string(),
        ts_opened: 1_700_000_000_000_000_000,
        side: PositionSide::Long,
        quantity,
        closed: false,
    }
}

fn call() -> OrderMatchingEngine {
    engine(option(Some(OptionKind::Call), Some(price(15_000, 2))))
}

fn put() -> OrderMatchingEngine {
    engine(option(Some(OptionKind::Put), Some(price(15_000, 2))))
}

#[test]
fn call_is_exercised_above_its_strike() {
    assert!(call().option_should_exercise(price(15_001, 2)));
    assert!(call().option_should_exercise(price(151, 0)));
    assert!(!call().option_should_exercise(price(15_000, 2)));
    assert!(!call().option_should_exercise(price(150, 0)));
    assert!(!call().option_should_exercise(price(14_999, 2)));
}

#[test]
fn put_is_exercised_below_its_strike() {
    assert!(put().option_should_exercise(price(14_999, 2)));
    assert!(!put().option_should_exercise(price(15_000, 2)));
    assert!(!put().option_should_exercise(price(1_500_000_000, 7)));
    assert!(!put().option_should_exercise(price(15_001, 2)));
}

#[test]
fn call_and_put_of_one_strike_are_never_both_exercised() {
    for spot in [14_000, 14_999, 15_000, 15_001, 16_000] {
        let underlying = price(spot, 2);
        assert!(
            !(call().option_should_exercise(underlying) && put().option_should_exercise(underlying))
        );
    }
}

#[test]
fn exercise_pays_exactly_where_it_gains() {
    for spot in [14_000, 14_999, 15_000, 15_001, 16_000] {
        let underlying = price(spot, 2);
        assert_eq!(
            call().option_should_exercise(underlying),
            call().option_cash_price(underlying).unwrap().mantissa > 0
        );
        assert_eq!(
            put().option_should_exercise(underlying),
            put().option_cash_price(underlying).unwrap().mantissa > 0
        );
    }
}

#[test]
fn nothing_is_exercised_without_strike_or_kind() {
    let no_strike = engine(option(Some(OptionKind::Call), None));
    assert!(!no_strike.option_should_exercise(price(20_000, 2)));
    let no_kind = engine(option(None, Some(price(15_000, 2))));
    assert!(!no_kind.option_should_exercise(price(20_000, 2)));
}

#[test]
fn comparison_is_exact_over_scales() {
    let fine = engine(option(Some(OptionKind::Call), Some(price(1, 28))));
    assert!(fine.option_should_exercise(price(MAX_MANTISSA, 0)));
    assert!(!fine.option_should_exercise(price(-MAX_MANTISSA, 0)));
    assert!(!fine.option_should_exercise(price(0, 3)));
}

#[test]
fn exercise_fault_is_an_amount_out_of_range() {
    assert_eq!(
        call().option_exercise_fault(price(1, 29)),
        Some(SettlementFault::AmountOutOfRange)
    );
    assert_eq!(call().option_exercise_fault(price(1, 2)), None);
    assert_eq!(engine(option(None, None)).option_exercise_fault(price(1, 29)), None);
}

#[test]
fn delivery_settles_at_the_strike() {
    assert_eq!(call().option_settlement_price(price(17_525, 2), false), price(15_000, 2));
}

#[test]
fn cash_settles_at_the_intrinsic_value() {
    assert_eq!(call().option_settlement_price(price(17_525, 2), true), price(2_525, 2));
    assert_eq!(put().option_settlement_price(price(14_050, 2), true), price(950, 2));
    assert_eq!(call().option_cash_price(price(17_525, 2)), Ok(price(2_525, 2)));
}

#[test]
fn cash_price_is_never_negative() {
    assert_eq!(call().option_cash_price(price(14_000, 2)), Ok(price(0, 2)));
    assert_eq!(put().option_cash_price(price(16_000, 2)), Ok(price(0, 2)));
    assert_eq!(put().option_cash_price(price(15_000, 2)), Ok(price(0, 2)));
}

#[test]
fn cash_price_is_rounded_to_the_precision_of_the_strike() {
    assert_eq!(call().option_cash_price(price(150_125, 3)), Ok(price(12, 2)));
    assert_eq!(call().option_cash_price(price(150_135, 3)), Ok(price(14, 2)));
    assert_eq!(call().option_cash_price(price(152, 0)), Ok(price(200, 2)));
}

#[test]
fn option_without_a_kind_is_priced_as_a_put() {
    let no_kind = engine(option(None, Some(price(15_000, 2))));
    assert_eq!(no_kind.option_cash_price(price(14_000, 2)), Ok(price(1_000, 2)));
}

#[test]
fn cash_price_faults() {
    let no_strike = engine(option(Some(OptionKind::Call), None));
    assert_eq!(no_strike.option_cash_price(price(1, 0)), Err(SettlementFault::MissingStrike));
    assert_eq!(
        call().option_cash_price(price(1, 29)),
        Err(SettlementFault::AmountOutOfRange)
    );
    let huge = engine(option(Some(OptionKind::Call), Some(price(-MAX_MANTISSA, 0))));
    assert_eq!(
        huge.option_cash_price(price(MAX_MANTISSA, 0)),
        Err(SettlementFault::AmountOutOfRange)
    );
    let fine = engine(option(Some(OptionKind::Call), Some(price(0, 2))));
    assert_eq!(
        fine.option_cash_price(price(MAX_MANTISSA, 0)),
        Err(SettlementFault::InvalidSettlementPrice)
    );
}

#[test]
fn cash_price_from_a_given_gain() {
    assert_eq!(cash_price_from_gain(Amount { mantissa: 125, scale: 2 }, 1), Some(price(12, 1)));
    assert_eq!(cash_price_from_gain(Amount { mantissa: -125, scale: 2 }, 1), Some(price(0, 1)));
    assert_eq!(cash_price_from_gain(Amount { mantissa: 0, scale: 5 }, 1), Some(price(0, 1)));
    assert_eq!(cash_price_from_gain(Amount { mantissa: MAX_MANTISSA, scale: 0 }, 1), None);
}

#[test]
fn delivered_quantity_is_multiplied() {
    assert_eq!(
        call().option_delivered_quantity(&position(quantity(3, 0)), &stock()),
        Ok(quantity(300, 0))
    );
    let mut instrument = option(Some(OptionKind::Call), Some(price(15_000, 2)));
    instrument.multiplier = quantity(25, 1);
    let fractional = engine(instrument);
    assert_eq!(
        fractional.option_delivered_quantity(&position(quantity(11, 1)), &stock()),
        Ok(quantity(3, 0))
    );
    assert_eq!(
        fractional.option_delivered_quantity(&position(quantity(10, 1)), &stock()),
        Ok(quantity(2, 0))
    );
}

#[test]
fn delivered_quantity_faults() {
    assert_eq!(
        call().option_delivered_quantity(&position(quantity(1, 29)), &stock()),
        Err(SettlementFault::AmountOutOfRange)
    );
    assert_eq!(
        call().option_delivered_quantity(&position(quantity(MAX_MANTISSA as u128, 0)), &stock()),
        Err(SettlementFault::AmountOutOfRange)
    );
    let mut underlying = stock();
    underlying.size_precision = 29;
    assert_eq!(
        call().option_delivered_quantity(&position(quantity(1, 0)), &underlying),
        Err(SettlementFault::InvalidUnderlyingQuantity)
    );
}

#[test]
fn fault_messages() {
    assert_eq!(
        SettlementFault::MissingExpiration.message(),
        "option settlement requires an expiration timestamp"
    );
    assert_eq!(SettlementFault::MissingStrike.message(), "option must have strike");
    assert_eq!(
        SettlementFault::MissingDeliveryStrike.message(),
        "physical option settlement requires a strike price"
    );
    assert_eq!(
        SettlementFault::FlatPosition.message(),
        "Settlement position must be Long or Short"
    );
    assert_eq!(
        SettlementFault::NonPositiveQuantity.message(),
        "Settlement quantity must be positive"
    );
    assert_eq!(
        SettlementFault::AmountOutOfRange.message(),
        "Amount exceeds the range of decimal numbers"
    );
    assert_eq!(
        SettlementFault::InvalidSettlementPrice.message(),
        "Invalid option settlement price"
    );
    assert_eq!(
        SettlementFault::InvalidUnderlyingQuantity.message(),
        "Invalid underlying settlement quantity"
    );
}

#[test]
fn call_less_put_is_spot_less_strike() {
    for (spot, precision) in [(14_000, 2), (15_000, 2), (16_025, 2), (151, 0), (1_499, 1)] {
        let underlying = price(spot, precision);
        let call_price = call().option_settlement_price(underlying, true);
        let put_price = put().option_settlement_price(underlying, true);
        let scaled = spot * 10_i128.pow(2 - precision as u32);
        assert_eq!((call_price.precision, put_price.precision), (2, 2));
        assert_eq!(call_price.mantissa - put_price.mantissa, scaled - 15_000);
        assert!(call_price.mantissa == 0 || put_price.mantissa == 0);
        assert!(call_price.mantissa >= 0 && put_price.mantissa >= 0);
        assert_eq!(call().option_settlement_price(underlying, false), price(15_000, 2));
        assert_eq!(put().option_settlement_price(underlying, false), price(15_000, 2));
    }
}

#[test]
fn rounding_can_hide_a_gain_but_not_make_one() {
    let barely = price(150_001, 3);
    assert!(call().option_should_exercise(barely));
    assert_eq!(call().option_cash_price(barely), Ok(price(0, 2)));
    assert_eq!(put().option_cash_price(barely), Ok(price(0, 2)));
}

#[test]
fn gain_is_exact_where_it_fits_though_a_price_does_not_at_the_common_scale() {
    let spot = price(7_922_816_251_426_433_759_354_395_034, 0);
    let wide = engine(option(Some(OptionKind::Call), Some(price(10, 1))));
    assert_eq!(
        wide.option_cash_price(spot),
        Ok(price(79_228_162_514_264_337_593_543_950_330, 1))
    );
    let wide_put = engine(option(Some(OptionKind::Put), Some(price(10, 1))));
    assert_eq!(wide_put.option_cash_price(spot), Ok(price(0, 1)));
}

#[test]
fn gain_that_does_not_fit_is_no_price_or_zero() {
    let spot = price(7_922_816_251_426_433_759_354_395_034, 0);
    for strike in [price(1, 1), price(0, 1), price(-1, 1)] {
        let wide = engine(option(Some(OptionKind::Call), Some(strike)));
        assert!(wide.option_should_exercise(spot));
        assert_eq!(
            wide.option_cash_price(spot),
            Err(SettlementFault::InvalidSettlementPrice)
        );
        let wide_put = engine(option(Some(OptionKind::Put), Some(strike)));
        assert!(!wide_put.option_should_exercise(spot));
        assert_eq!(wide_put.option_cash_price(spot), Ok(price(0, 1)));
    }
    let finest = engine(option(Some(OptionKind::Call), Some(price(1, 28))));
    assert_eq!(
        finest.option_cash_price(price(MAX_MANTISSA, 0)),
        Err(SettlementFault::InvalidSettlementPrice)
    );
    let finest_put = engine(option(Some(OptionKind::Put), Some(price(1, 28))));
    assert_eq!(finest_put.option_cash_price(price(MAX_MANTISSA, 0)), Ok(price(0, 28)));
}
