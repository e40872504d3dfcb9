use option_settlement::accounts::AccountIds;
use option_settlement::amounts::{Price, Quantity};
use option_settlement::engine::{OrderMatchingEngine, OrderMatchingEngineConfig};
use option_settlement::faults::SettlementFault;
use option_settlement::model::{
    InstrumentAny, LiquiditySide, OptionKind, OptionSettlementLeg, OrderSide, OrderStatus,
    OrderType, Position, PositionSide, TimeInForce,
};

const OPENED: u64 = 1_700_000_000_000_000_000;
const EXPIRATION: u64 = 1_737_072_000_000_000_000;

fn price(mantissa: i128, precision: u8) -> Price {
    Price { mantissa, precision }
}

fn quantity(mantissa: u128, precision: u8) -> Quantity {
    Quantity { mantissa, precision }
}

fn option(kind: OptionKind) -> InstrumentAny {
    InstrumentAny {
        id: "AAPL250117C00150000.XNAS".to_string(),
        is_index: false,
        underlying: Some("AAPL".to_string()),
        strike_price: Some(price(15_000, 2)),
        option_kind: Some(kind),
        expiration_ns: Some(EXPIRATION),
        multiplier: quantity(100, 0),
        price_precision: 2,
        size_precision: 0,
        quote_currency: "USD".to_string(),
    }
}

fn underlying(is_index: bool) -> InstrumentAny {
    InstrumentAny {
        id: "AAPL.XNAS".to_string(),
        is_index,
        underlying: None,
        strike_price: None,
        option_kind: None,
        expiration_ns: None,
        multiplier: quantity(1, 0),
        price_precision: 2,
        size_precision: 0,
        quote_currency: "EUR".to_string(),
    }
}

fn engine(kind: OptionKind, use_random_ids: bool) -> OrderMatchingEngine {
    OrderMatchingEngine {
        venue: "XNAS".to_string(),
        instrument: option(kind),
        config: OrderMatchingEngineConfig { use_random_ids },
        instrument_close: None,
        option_settlement_warning: None,
        warnings: Vec::new(),
        account_ids: AccountIds::new(),
    }
}

fn position(side: PositionSide) -> Position {
    Position {
        id: "P-1".to_string(),
        trader_id: "TRADER-001".to_string(),
        strategy_id: "S-001".to_string(),
        account_id: "SIM-001".to_string(),
        opening_order_id: "O-1".to_string(),
        ts_opened: OPENED,
        side,
        quantity: quantity(3, 0),
        closed: false,
    }
}

fn is_random_uuid(text: &str) -> bool {
    let chars: Vec<char> = text.chars().collect();
    chars.len() == 36
        && [8, 13, 18, 23].iter().all(|at| chars[*at] == '-')
        && chars[14] == '4'
        && ['8', '9', 'a', 'b'].contains(&chars[19])
}

fn fills_its_order(leg: &OptionSettlementLeg) -> bool {
    leg.fill.trader_id == leg.order.trader_id
        && leg.fill.strategy_id == leg.order.strategy_id
        && leg.fill.instrument_id == leg.order.instrument_id
        && leg.fill.client_order_id == leg.order.client_order_id
        && leg.fill.order_side == leg.order.order_side
        && leg.fill.order_type == leg.order.order_type
        && leg.fill.last_qty == leg.order.quantity
        && matches!(&leg.fill.commission, Some(money) if money.units == 0
            && money.currency == leg.fill.currency)
}

#[test]
fn deterministic_identifiers() {
    let engine = engine(OptionKind::Call, false);
    let ids = engine.option_settlement_ids(&position(PositionSide::Long), "otm");
    assert_eq!(ids.0, "EXPIRATION-XNAS-2d0f0eba-7d88-55c4-affc-31965da56cd6");
    assert_eq!(ids.1, "EXPIRATION-XNAS-3169ce4f-b212-5596-86bc-b86dc53dfc0c");
    assert_eq!(ids.2, "31c5d420-bf5f-546a-9bf0-c7d58d1b2e98");
    let open = engine.option_deterministic_ids(&position(PositionSide::Long), "physical-open");
    assert_eq!(open.0, "EXPIRATION-XNAS-041cde9f-9a7a-5f42-9c6d-4c7196d80a50");
    assert_eq!(open.1, "EXPIRATION-XNAS-b4960321-8c04-5ab8-bfdb-35d104f4d272");
    assert_eq!(open.2, "dd286757-0eeb-5514-9757-d36a74d83ce6");
}

#[test]
fn one_identifier_of_one_role() {
    assert_eq!(
        engine(OptionKind::Put, true).option_settlement_uuid(
            &position(PositionSide::Short),
            "cash",
            "trade"
        ),
        "e6c7081e-14a7-55fd-807c-eacdb28a164b"
    );
}

#[test]
fn identifiers_do_not_change_when_the_position_is_closed() {
    let engine = engine(OptionKind::Call, false);
    let open = position(PositionSide::Long);
    let mut closed = position(PositionSide::Flat);
    closed.quantity = quantity(0, 0);
    closed.closed = true;
    assert_eq!(
        engine.option_settlement_ids(&open, "physical-open"),
        engine.option_settlement_ids(&closed, "physical-open")
    );
}

#[test]
fn identifiers_tell_positions_and_legs_apart() {
    let engine = engine(OptionKind::Call, false);
    let first = position(PositionSide::Long);
    let mut second = position(PositionSide::Long);
    second.id = "P-2".to_string();
    let mut reopened = position(PositionSide::Long);
    reopened.ts_opened = OPENED + 1;
    let mut shifted = position(PositionSide::Long);
    shifted.id = "P-1O".to_string();
    shifted.opening_order_id = "-1".to_string();
    let ids = engine.option_settlement_ids(&first, "otm");
    for other in [&second, &reopened, &shifted] {
        assert_ne!(ids.0, engine.option_settlement_ids(other, "otm").0);
    }
    assert_ne!(ids.0, engine.option_settlement_ids(&first, "cash").0);
    assert_ne!(ids.0, ids.1);
}

#[test]
fn random_identifiers() {
    let mut engine = engine(OptionKind::Call, true);
    engine.instrument.expiration_ns = None;
    let first = engine.option_settlement_ids(&position(PositionSide::Long), "otm");
    let second = engine.option_settlement_ids(&position(PositionSide::Long), "otm");
    for ids in [&first, &second] {
        assert!(is_random_uuid(ids.0.strip_prefix("EXPIRATION-XNAS-").unwrap()));
        assert!(is_random_uuid(ids.1.strip_prefix("EXPIRATION-XNAS-").unwrap()));
        assert!(is_random_uuid(&ids.2));
    }
    assert_ne!(first.0, second.0);
}

#[test]
fn random_identifiers_of_given_draws() {
    let ids = engine(OptionKind::Call, true).option_random_ids("one", "two", "three".to_string());
    assert_eq!(ids.0, "EXPIRATION-XNAS-one");
    assert_eq!(ids.1, "EXPIRATION-XNAS-two");
    assert_eq!(ids.2, "three");
}

#[test]
fn random_identifiers_are_built_on_separate_draws() {
    let ids = engine(OptionKind::Call, true)
        .option_settlement_ids(&position(PositionSide::Long), "otm");
    assert_ne!(ids.0, ids.1);
    assert_ne!(ids.0, format!("EXPIRATION-XNAS-{}", ids.2));
    assert_ne!(ids.1, format!("EXPIRATION-XNAS-{}", ids.2));
}

#[test]
fn otm_leg() {
    let engine = engine(OptionKind::Call, false);
    let leg = engine.option_plan_otm_expiry(&position(PositionSide::Long), 77, None, 66);
    assert_eq!(leg.order.trader_id, "TRADER-001");
    assert_eq!(leg.order.strategy_id, "S-001");
    assert_eq!(leg.order.instrument_id, "AAPL250117C00150000.XNAS");
    assert_eq!(
        leg.order.client_order_id,
        "EXPIRATION-XNAS-2d0f0eba-7d88-55c4-affc-31965da56cd6"
    );
    assert_eq!(leg.order.venue_order_id, None);
    assert_eq!(leg.order.order_side, OrderSide::Sell);
    assert_eq!(leg.order.order_type, OrderType::Market);
    assert_eq!(leg.order.quantity, quantity(3, 0));
    assert_eq!(leg.order.time_in_force, TimeInForce::Gtc);
    assert_eq!(leg.order.status, OrderStatus::Initialized);
    assert!(leg.order.is_reduce_only);
    assert!(!leg.order.is_quote_quantity);
    assert!(is_random_uuid(&leg.order.init_id));
    assert_eq!(leg.order.ts_init, 66);
    assert_eq!(leg.order.tags, Some(vec!["EXPIRATION_XNAS_OTM".to_string()]));
    assert!(fills_its_order(&leg));
    assert_eq!(
        leg.fill.venue_order_id,
        "EXPIRATION-XNAS-3169ce4f-b212-5596-86bc-b86dc53dfc0c"
    );
    assert_eq!(leg.fill.account_id, "SIM-001");
    assert_eq!(leg.fill.trade_id, "31c5d420-bf5f-546a-9bf0-c7d58d1b2e98");
    assert_eq!(leg.fill.last_px, price(0, 2));
    assert_eq!(leg.fill.currency, "USD");
    assert_eq!(leg.fill.liquidity_side, LiquiditySide::Taker);
    assert!(is_random_uuid(&leg.fill.event_id));
    assert_eq!((leg.fill.ts_event, leg.fill.ts_init), (77, 77));
    assert!(!leg.fill.reconciliation);
    assert_eq!(leg.fill.position_id, Some("P-1".to_string()));
}

#[test]
fn otm_leg_uses_the_close_price() {
    let engine = engine(OptionKind::Call, false);
    let leg =
        engine.option_plan_otm_expiry(&position(PositionSide::Short), 77, Some(price(5, 2)), 66);
    assert_eq!(leg.fill.last_px, price(5, 2));
    assert_eq!(leg.order.order_side, OrderSide::Buy);
}

#[test]
fn cash_leg() {
    let engine = engine(OptionKind::Call, false);
    let leg = engine.option_plan_cash_settlement(
        &position(PositionSide::Long),
        price(17_525, 2),
        77,
        None,
        66,
    );
    assert_eq!(leg.fill.last_px, price(2_525, 2));
    assert_eq!(leg.order.order_side, OrderSide::Sell);
    assert_eq!(
        leg.order.client_order_id,
        "EXPIRATION-XNAS-c14c6a28-5605-5859-83a9-01b1b389c50b"
    );
    assert_eq!(leg.order.tags, Some(vec!["EXPIRATION_XNAS_CASH".to_string()]));
    assert!(leg.order.is_reduce_only);
    assert!(fills_its_order(&leg));
    let closed = engine.option_plan_cash_settlement(
        &position(PositionSide::Long),
        price(17_525, 2),
        77,
        Some(price(2_600, 2)),
        66,
    );
    assert_eq!(closed.fill.last_px, price(2_600, 2));
}

#[test]
fn physical_legs_of_a_long_call() {
    let engine = engine(OptionKind::Call, false);
    let (close, open) = engine.option_plan_physical_settlement(
        &position(PositionSide::Long),
        &underlying(false),
        price(17_525, 2),
        77,
        None,
        (65, 66),
    );
    assert!(fills_its_order(&close));
    assert!(fills_its_order(&open));
    assert_eq!(
        close.order.client_order_id,
        "EXPIRATION-XNAS-3e6f17ef-2457-5a76-95fd-b5fe88151a94"
    );
    assert_eq!(
        close.fill.venue_order_id,
        "EXPIRATION-XNAS-9e4d7293-4de8-552c-b036-fac69bad93e6"
    );
    assert_eq!(close.fill.trade_id, "f8874091-fbbd-5738-9fec-1231bd19747a");
    assert_eq!(close.order.order_side, OrderSide::Sell);
    assert!(close.order.is_reduce_only);
    assert_eq!(close.fill.last_px, price(0, 2));
    assert_eq!(close.fill.currency, "USD");
    assert_eq!(close.order.ts_init, 65);
    assert_eq!(close.order.tags, Some(vec!["EXPIRATION_XNAS_PHYSICAL_CLOSE".to_string()]));
    assert_eq!(
        open.order.client_order_id,
        "EXPIRATION-XNAS-041cde9f-9a7a-5f42-9c6d-4c7196d80a50"
    );
    assert_eq!(open.order.instrument_id, "AAPL.XNAS");
    assert_eq!(open.order.order_side, OrderSide::Buy);
    assert_eq!(open.order.quantity, quantity(300, 0));
    assert!(!open.order.is_reduce_only);
    assert_eq!(open.order.ts_init, 66);
    assert_eq!(open.order.tags, Some(vec!["EXPIRATION_XNAS_PHYSICAL_OPEN".to_string()]));
    assert_eq!(open.fill.last_px, price(15_000, 2));
    assert_eq!(open.fill.currency, "EUR");
    assert_eq!(open.fill.position_id, None);
    assert_eq!(open.fill.account_id, "SIM-001");
}

#[test]
fn delivery_sides() {
    for (kind, side, expected) in [
        (OptionKind::Call, PositionSide::Long, OrderSide::Buy),
        (OptionKind::Call, PositionSide::Short, OrderSide::Sell),
        (OptionKind::Put, PositionSide::Long, OrderSide::Sell),
        (OptionKind::Put, PositionSide::Short, OrderSide::Buy),
    ] {
        let (close, open) = engine(kind, false).option_plan_physical_settlement(
            &position(side),
            &underlying(false),
            price(100, 2),
            77,
            None,
            (65, 66),
        );
        assert_eq!(open.order.order_side, expected);
        assert_eq!(open.fill.order_side, expected);
        assert_eq!(
            open.order.order_side == close.order.order_side,
            kind == OptionKind::Put
        );
    }
}

#[test]
fn exercised_position_is_added_behind_the_plan() {
    let engine = engine(OptionKind::Call, false);
    let mut legs = vec![engine.option_plan_otm_expiry(&position(PositionSide::Short), 1, None, 2)];
    engine.option_plan_exercise_position(
        &mut legs,
        &position(PositionSide::Long),
        &underlying(true),
        price(17_525, 2),
        77,
        None,
        &vec![10, 11],
    );
    assert_eq!(legs.len(), 2);
    assert_eq!(legs[0].order.order_side, OrderSide::Buy);
    assert_eq!(legs[1].order.ts_init, 11);
    assert_eq!(legs[1].fill.last_px, price(2_525, 2));
}

#[test]
fn plan_of_two_positions() {
    let engine = engine(OptionKind::Call, false);
    let mut second = position(PositionSide::Short);
    second.id = "P-2".to_string();
    let positions = vec![position(PositionSide::Long), second];
    assert_eq!(
        OrderMatchingEngine::option_settlement_leg_count(&positions, &underlying(false), true),
        4
    );
    assert_eq!(
        OrderMatchingEngine::option_settlement_leg_count(&positions, &underlying(true), true),
        2
    );
    assert_eq!(
        OrderMatchingEngine::option_settlement_leg_count(&positions, &underlying(false), false),
        2
    );
    let plan = engine.option_create_settlement_plan(
        &positions,
        &underlying(false),
        price(17_525, 2),
        true,
        77,
        None,
        &vec![10, 11, 12, 13],
    );
    assert_eq!(plan.legs.len(), 4);
    let reduce_only: Vec<bool> = plan.legs.iter().map(|leg| leg.order.is_reduce_only).collect();
    assert_eq!(reduce_only, vec![true, false, true, false]);
    let times: Vec<u64> = plan.legs.iter().map(|leg| leg.order.ts_init).collect();
    assert_eq!(times, vec![10, 11, 12, 13]);
    assert!(plan.legs.iter().all(fills_its_order));
    assert_eq!(plan.legs[2].fill.position_id, Some("P-2".to_string()));
    assert_eq!(plan.legs[2].order.order_side, OrderSide::Buy);
    assert_eq!(plan.legs[3].order.order_side, OrderSide::Sell);
}

#[test]
fn plan_made_again_has_the_same_identifiers() {
    let engine = engine(OptionKind::Call, false);
    let positions = vec![position(PositionSide::Long)];
    let first = engine.option_create_settlement_plan(
        &positions,
        &underlying(false),
        price(17_525, 2),
        true,
        77,
        None,
        &vec![10, 11],
    );
    let second = engine.option_create_settlement_plan(
        &positions,
        &underlying(false),
        price(18_000, 2),
        true,
        88,
        Some(price(1, 2)),
        &vec![20, 21],
    );
    for (left, right) in first.legs.iter().zip(second.legs.iter()) {
        assert_eq!(left.order.client_order_id, right.order.client_order_id);
        assert_eq!(left.fill.venue_order_id, right.fill.venue_order_id);
        assert_eq!(left.fill.trade_id, right.fill.trade_id);
        assert_eq!(left.order.quantity, right.order.quantity);
        assert_ne!(left.fill.event_id, right.fill.event_id);
    }
}

fn fault(engine: &OrderMatchingEngine, position: Position, index: bool, exercise: bool) -> Option<SettlementFault> {
    engine.option_settlement_fault(
        &vec![position],
        &underlying(index),
        price(17_525, 2),
        exercise,
        None,
    )
}

#[test]
fn faults_of_positions() {
    let good = engine(OptionKind::Call, false);
    for (index, exercise) in [(false, false), (true, true), (false, true)] {
        assert_eq!(fault(&good, position(PositionSide::Long), index, exercise), None);
        assert_eq!(
            fault(&good, position(PositionSide::Flat), index, exercise),
            Some(SettlementFault::FlatPosition)
        );
        let mut empty = position(PositionSide::Long);
        empty.quantity = quantity(0, 0);
        assert_eq!(
            fault(&good, empty, index, exercise),
            Some(SettlementFault::NonPositiveQuantity)
        );
        let mut timeless = engine(OptionKind::Call, false);
        timeless.instrument.expiration_ns = None;
        assert!(!timeless.option_can_identify());
        assert_eq!(
            fault(&timeless, position(PositionSide::Long), index, exercise),
            Some(SettlementFault::MissingExpiration)
        );
        timeless.config.use_random_ids = true;
        assert!(timeless.option_can_identify());
        assert_eq!(fault(&timeless, position(PositionSide::Long), index, exercise), None);
    }
    let mut strikeless = engine(OptionKind::Call, false);
    strikeless.instrument.strike_price = None;
    assert_eq!(
        fault(&strikeless, position(PositionSide::Long), true, true),
        Some(SettlementFault::MissingStrike)
    );
    assert_eq!(
        fault(&strikeless, position(PositionSide::Long), false, true),
        Some(SettlementFault::MissingStrike)
    );
    let mut tiny = engine(OptionKind::Call, false);
    tiny.instrument.multiplier = quantity(1, 3);
    assert_eq!(
        fault(&tiny, position(PositionSide::Long), false, true),
        Some(SettlementFault::NonPositiveQuantity)
    );
    tiny.instrument.multiplier = quantity(1, 29);
    assert_eq!(
        fault(&tiny, position(PositionSide::Long), false, true),
        Some(SettlementFault::AmountOutOfRange)
    );
}

#[test]
fn first_fault_of_several_positions() {
    let good = engine(OptionKind::Call, false);
    let mut empty = position(PositionSide::Long);
    empty.quantity = quantity(0, 0);
    assert_eq!(
        good.option_settlement_fault(
            &vec![position(PositionSide::Long), empty, position(PositionSide::Flat)],
            &underlying(false),
            price(17_525, 2),
            false,
            None,
        ),
        Some(SettlementFault::NonPositiveQuantity)
    );
    assert_eq!(
        good.option_settlement_fault(&vec![], &underlying(false), price(1, 2), true, None),
        None
    );
}

#[test]
fn retry_warns_once_per_reason() {
    let mut engine = engine(OptionKind::Call, false);
    assert!(!engine.option_settlement_retry("missing-underlying", "No underlying"));
    assert_eq!(engine.option_settlement_warning, Some("missing-underlying"));
    assert_eq!(engine.warnings, vec!["No underlying; settlement will retry".to_string()]);
    assert!(!engine.option_settlement_retry("missing-underlying", "Still no underlying"));
    assert_eq!(engine.warnings.len(), 1);
    assert!(!engine.option_settlement_retry("missing-underlying-price", "No price"));
    assert!(!engine.option_settlement_retry("missing-underlying", "No underlying"));
    assert_eq!(engine.warnings.len(), 3);
}

#[test]
fn accounts_are_replaced() {
    let mut accounts = AccountIds::new();
    assert_eq!(accounts.get(&"T".to_string()), None);
    accounts.insert("T".to_string(), "A".to_string());
    accounts.insert("U".to_string(), "B".to_string());
    accounts.insert("T".to_string(), "C".to_string());
    assert_eq!(accounts.get(&"T".to_string()), Some(&"C".to_string()));
    assert_eq!(accounts.get(&"U".to_string()), Some(&"B".to_string()));
}
