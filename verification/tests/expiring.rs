use std::collections::HashMap;

use option_settlement::accounts::AccountIds;
use option_settlement::amounts::{Price, Quantity};
use option_settlement::engine::{InstrumentClose, OrderMatchingEngine, OrderMatchingEngineConfig};
use option_settlement::errors::SettlementError;
use option_settlement::expiry::{option_pending_delivery, ExpiryRun};
use option_settlement::faults::SettlementFault;
use option_settlement::model::{
    InstrumentAny, OptionKind, OrderAny, OrderFilled, OrderSide, OrderStatus, OrderType, Position,
    PositionSide, TimeInForce,
};
use option_settlement::protocol::{Event, Outcome, Reply, Request};

const OPTION: &str = "AAPL250117C00150000.XNAS";
const CLOSE_ID: &str = "EXPIRATION-XNAS-3e6f17ef-2457-5a76-95fd-b5fe88151a94";
const OPEN_ID: &str = "EXPIRATION-XNAS-041cde9f-9a7a-5f42-9c6d-4c7196d80a50";
const OPEN_VENUE_ID: &str = "EXPIRATION-XNAS-b4960321-8c04-5ab8-bfdb-35d104f4d272";
const OPEN_TRADE_ID: &str = "dd286757-0eeb-5514-9757-d36a74d83ce6";

fn price(mantissa: i128, precision: u8) -> Price {
    Price { mantissa, precision }
}

fn quantity(mantissa: u128, precision: u8) -> Quantity {
    Quantity { mantissa, precision }
}

fn engine() -> OrderMatchingEngine {
    OrderMatchingEngine {
        venue: "XNAS".to_string(),
        instrument: InstrumentAny {
            id: OPTION.to_string(),
            is_index: false,
            underlying: Some("AAPL".to_string()),
            strike_price: Some(price(15_000, 2)),
            option_kind: Some(OptionKind::Call),
            expiration_ns: Some(1_737_072_000_000_000_000),
            multiplier: quantity(100, 0),
            price_precision: 2,
            size_precision: 0,
            quote_currency: "USD".to_string(),
        },
        config: OrderMatchingEngineConfig { use_random_ids: false },
        instrument_close: None,
        option_settlement_warning: None,
        warnings: Vec::new(),
        account_ids: AccountIds::new(),
    }
}

fn position(side: PositionSide, closed: bool) -> Position {
    Position {
        id: "P-1".to_string(),
        trader_id: "TRADER-001".to_string(),
        strategy_id: "S-001".to_string(),
        account_id: "SIM-001".to_string(),
        opening_order_id: "O-1".to_string(),
        ts_opened: 1_700_000_000_000_000_000,
        side,
        quantity: quantity(if closed { 0 } else { 3 }, 0),
        closed,
    }
}

fn open_order(status: OrderStatus) -> OrderAny {
    OrderAny {
        trader_id: "TRADER-001".to_string(),
        strategy_id: "S-001".to_string(),
        instrument_id: "AAPL.XNAS".to_string(),
        client_order_id: OPEN_ID.to_string(),
        venue_order_id: None,
        order_side: OrderSide::Buy,
        order_type: OrderType::Market,
        quantity: quantity(300, 0),
        time_in_force: TimeInForce::Gtc,
        status,
        is_reduce_only: false,
        is_quote_quantity: false,
        init_id: "init".to_string(),
        ts_init: 66,
        tags: None,
    }
}

fn close_order(status: OrderStatus) -> OrderAny {
    let mut order = open_order(status);
    order.client_order_id = CLOSE_ID.to_string();
    order.instrument_id = OPTION.to_string();
    order.order_side = OrderSide::Sell;
    order.quantity = quantity(3, 0);
    order.is_reduce_only = true;
    order
}

/// A cache in memory. `crash_after` is the number of fills that are applied before the host
/// stops.
struct Host {
    positions: Vec<(PositionSide, bool)>,
    underlying: Option<bool>,
    last_price: Option<Price>,
    index_price: Option<Price>,
    orders: HashMap<String, OrderAny>,
    venue_ids: HashMap<String, String>,
    fills: Vec<OrderFilled>,
    log: Vec<String>,
    crash_after: usize,
}

impl Host {
    fn new() -> Host {
        Host {
            positions: vec![(PositionSide::Long, false)],
            underlying: Some(false),
            last_price: Some(price(17_525, 2)),
            index_price: None,
            orders: HashMap::new(),
            venue_ids: HashMap::new(),
            fills: Vec::new(),
            log: Vec::new(),
            crash_after: usize::MAX,
        }
    }

    fn order(&self, id: &str) -> Option<OrderAny> {
        self.orders.get(id).cloned()
    }

    fn answer(&mut self, request: Request) -> Option<Reply> {
        Some(match request {
            Request::Positions { instrument_id } => {
                assert_eq!(instrument_id, OPTION);
                Reply::Positions(self.positions.iter().map(|p| position(p.0, p.1)).collect())
            }
            Request::OpenPositions { instrument_id } => {
                assert_eq!(instrument_id, OPTION);
                Reply::Positions(
                    self.positions.iter().filter(|p| !p.1).map(|p| position(p.0, p.1)).collect(),
                )
            }
            Request::SettlementOrders { close_id, open_id } => Reply::SettlementOrders {
                close: self.order(&close_id),
                open: self.order(&open_id),
            },
            Request::Instrument { instrument_id } => {
                assert_eq!(instrument_id, "AAPL.XNAS");
                Reply::Instrument(self.underlying.map(|is_index| InstrumentAny {
                    id: "AAPL.XNAS".to_string(),
                    is_index,
                    underlying: None,
                    strike_price: None,
                    option_kind: None,
                    expiration_ns: None,
                    multiplier: quantity(1, 0),
                    price_precision: 2,
                    size_precision: 0,
                    quote_currency: "EUR".to_string(),
                }))
            }
            Request::IndexPrice { .. } => Reply::Price(self.index_price),
            Request::LastPrice { .. } => Reply::Price(self.last_price),
            Request::Clock { readings } => Reply::Clock((0..readings as u64).collect()),
            Request::Order { client_order_id } => Reply::Order(self.order(&client_order_id)),
            Request::AddOrder { order, .. } => {
                self.orders.insert(order.client_order_id.clone(), order);
                Reply::Stored(Ok(()))
            }
            Request::AddVenueOrderId { client_order_id, venue_order_id } => {
                self.venue_ids.insert(client_order_id, venue_order_id);
                Reply::Stored(Ok(()))
            }
            Request::Nothing => return None,
        })
    }

    fn perform(&mut self, event: Event) -> bool {
        match event {
            Event::Initialized(order) => {
                self.log.push(format!("initialized {}", order.client_order_id));
            }
            Event::Accepted { order, venue_order_id } => {
                self.log.push(format!("accepted {}", order.client_order_id));
                let cached = self.orders.get_mut(&order.client_order_id).unwrap();
                cached.status = OrderStatus::Accepted;
                cached.venue_order_id = Some(venue_order_id);
            }
            Event::Filled(fill) => {
                if self.fills.len() == self.crash_after {
                    return false;
                }
                self.log.push(format!("filled {}", fill.client_order_id));
                self.orders.get_mut(&fill.client_order_id).unwrap().status = OrderStatus::Filled;
                if fill.position_id.is_some() {
                    self.positions[0].1 = true;
                }
                self.fills.push(fill);
            }
        }
        true
    }

    /// Runs one attempt. `None` where the host stopped.
    fn attempt(&mut self, engine: &mut OrderMatchingEngine, ts_now: u64) -> Option<String> {
        let mut run: ExpiryRun = engine.process_option_expiry(ts_now);
        loop {
            let reply = match self.answer(run.request(engine)) {
                Some(reply) => reply,
                None => {
                    return Some(match run.outcome().unwrap() {
                        Outcome::Complete => "complete".to_string(),
                        Outcome::Retry => "retry".to_string(),
                        Outcome::Failed(error) => error.message(),
                        Outcome::Fault(fault) => fault.message().to_string(),
                    });
                }
            };
            assert!(run.outcome().is_none());
            let (next, events) = engine.advance(run, reply);
            run = next;
            for event in events {
                if !self.perform(event) {
                    return None;
                }
            }
        }
    }
}

#[test]
fn no_positions_is_complete() {
    let mut host = Host::new();
    host.positions = vec![];
    assert_eq!(host.attempt(&mut engine(), 77), Some("complete".to_string()));
    assert!(host.log.is_empty());
}

#[test]
fn physical_settlement_from_start_to_end() {
    let mut host = Host::new();
    let mut engine = engine();
    assert_eq!(host.attempt(&mut engine, 77), Some("complete".to_string()));
    assert_eq!(
        host.log,
        vec![
            format!("initialized {CLOSE_ID}"),
            format!("initialized {OPEN_ID}"),
            format!("accepted {CLOSE_ID}"),
            format!("accepted {OPEN_ID}"),
            format!("filled {CLOSE_ID}"),
            format!("filled {OPEN_ID}"),
        ]
    );
    assert_eq!(host.fills[0].last_px, price(0, 2));
    assert_eq!(host.fills[1].last_px, price(15_000, 2));
    assert_eq!(host.fills[1].last_qty, quantity(300, 0));
    assert_eq!(host.fills[1].ts_event, 77);
    assert_eq!(host.venue_ids.get(OPEN_ID), Some(&OPEN_VENUE_ID.to_string()));
    assert_eq!(
        engine.account_ids.get(&"TRADER-001".to_string()),
        Some(&"SIM-001".to_string())
    );
    assert!(engine.warnings.is_empty());
}

#[test]
fn attempt_leaves_the_terms_of_the_engine_alone() {
    let mut host = Host::new();
    let mut settled = engine();
    host.attempt(&mut settled, 77);
    let fresh = engine();
    assert_eq!(settled.venue, fresh.venue);
    assert_eq!(settled.instrument.id, fresh.instrument.id);
    assert_eq!(settled.instrument.strike_price, fresh.instrument.strike_price);
    assert_eq!(settled.instrument.expiration_ns, fresh.instrument.expiration_ns);
    assert_eq!(settled.config.use_random_ids, fresh.config.use_random_ids);
    assert!(settled.instrument_close.is_none());
}

#[test]
fn every_answer_brings_an_attempt_forward() {
    let mut host = Host::new();
    let mut engine = engine();
    let mut run = engine.process_option_expiry(77);
    let mut answers: usize = 0;
    while let Some(reply) = host.answer(run.request(&engine)) {
        let (next, events) = engine.advance(run, reply);
        run = next;
        answers += 1;
        for event in events {
            host.perform(event);
        }
    }
    assert_eq!(answers, 5 + 6 * 2);
    assert!(matches!(run.outcome(), Some(Outcome::Complete)));
}

#[test]
fn no_order_is_filled_twice_wherever_the_host_stops() {
    for crash_after in 0..3 {
        let mut host = Host::new();
        host.crash_after = crash_after;
        host.attempt(&mut engine(), 77);
        host.crash_after = usize::MAX;
        for ts_now in [88, 99] {
            assert_eq!(host.attempt(&mut engine(), ts_now), Some("complete".to_string()));
        }
        let ids: Vec<&str> = host.fills.iter().map(|fill| fill.client_order_id.as_str()).collect();
        assert_eq!(ids, vec![CLOSE_ID, OPEN_ID]);
    }
}

#[test]
fn settling_again_does_nothing() {
    let mut host = Host::new();
    let mut engine = engine();
    host.attempt(&mut engine, 77);
    let done = host.log.len();
    assert_eq!(host.attempt(&mut engine, 88), Some("complete".to_string()));
    assert_eq!(host.log.len(), done);
}

#[test]
fn index_option_settles_in_cash() {
    let mut host = Host::new();
    host.underlying = Some(true);
    host.index_price = Some(price(16_050, 2));
    host.last_price = None;
    assert_eq!(host.attempt(&mut engine(), 77), Some("complete".to_string()));
    assert_eq!(host.fills.len(), 1);
    assert_eq!(host.fills[0].last_px, price(1_050, 2));
    assert_eq!(host.fills[0].position_id, Some("P-1".to_string()));
}

#[test]
fn option_out_of_the_money_is_closed_at_zero() {
    let mut host = Host::new();
    host.last_price = Some(price(15_000, 2));
    assert_eq!(host.attempt(&mut engine(), 77), Some("complete".to_string()));
    assert_eq!(host.fills.len(), 1);
    assert_eq!(host.fills[0].last_px, price(0, 2));
    assert_eq!(host.fills[0].order_side, OrderSide::Sell);
}

#[test]
fn close_price_of_the_instrument_is_used() {
    let mut host = Host::new();
    host.last_price = Some(price(14_000, 2));
    let mut engine = engine();
    engine.instrument_close = Some(InstrumentClose { close_price: price(7, 2) });
    assert_eq!(host.attempt(&mut engine, 77), Some("complete".to_string()));
    assert_eq!(host.fills[0].last_px, price(7, 2));
}

#[test]
fn missing_data_is_retried_and_warned_about_once() {
    let mut host = Host::new();
    let mut engine = engine();
    engine.instrument.underlying = None;
    assert_eq!(host.attempt(&mut engine, 77), Some("retry".to_string()));
    assert_eq!(host.attempt(&mut engine, 78), Some("retry".to_string()));
    engine.instrument.underlying = Some("AAPL".to_string());
    host.underlying = None;
    assert_eq!(host.attempt(&mut engine, 79), Some("retry".to_string()));
    host.underlying = Some(false);
    host.last_price = None;
    assert_eq!(host.attempt(&mut engine, 80), Some("retry".to_string()));
    assert_eq!(
        engine.warnings,
        vec![
            format!("No underlying for option {OPTION}; settlement will retry"),
            format!("No underlying instrument for option {OPTION}; settlement will retry"),
            format!("No underlying price for option {OPTION}; settlement will retry"),
        ]
    );
    assert!(host.log.is_empty());
    assert!(host.orders.is_empty());
    assert_eq!(engine.account_ids.get(&"TRADER-001".to_string()), None);
    host.last_price = Some(price(17_525, 2));
    assert_eq!(host.attempt(&mut engine, 81), Some("complete".to_string()));
}

#[test]
fn restart_between_close_and_delivery_completes_the_delivery_as_planned() {
    let mut whole = Host::new();
    whole.attempt(&mut engine(), 77);
    let mut host = Host::new();
    host.crash_after = 1;
    assert_eq!(host.attempt(&mut engine(), 77), None);
    assert_eq!(host.fills.len(), 1);
    host.crash_after = usize::MAX;
    let mut restarted = engine();
    assert_eq!(host.attempt(&mut restarted, 99), Some("complete".to_string()));
    assert_eq!(host.fills.len(), 2);
    let (planned, resumed) = (&whole.fills[1], &host.fills[1]);
    assert_eq!(planned.client_order_id, resumed.client_order_id);
    assert_eq!(planned.venue_order_id, resumed.venue_order_id);
    assert_eq!(planned.trade_id, resumed.trade_id);
    assert_eq!(planned.instrument_id, resumed.instrument_id);
    assert_eq!(planned.order_side, resumed.order_side);
    assert_eq!(planned.last_qty, resumed.last_qty);
    assert_eq!(planned.last_px, resumed.last_px);
    assert_eq!(planned.currency, resumed.currency);
    assert_eq!(planned.position_id, resumed.position_id);
    assert_eq!(planned.account_id, resumed.account_id);
    assert_eq!(resumed.ts_event, 99);
    assert_eq!(
        restarted.account_ids.get(&"TRADER-001".to_string()),
        Some(&"SIM-001".to_string())
    );
    assert_eq!(host.attempt(&mut restarted, 100), Some("complete".to_string()));
    assert_eq!(host.fills.len(), 2);
}

#[test]
fn restart_before_the_close_settles_without_conflict() {
    let mut host = Host::new();
    host.crash_after = 0;
    assert_eq!(host.attempt(&mut engine(), 77), None);
    host.crash_after = usize::MAX;
    assert_eq!(host.attempt(&mut engine(), 99), Some("complete".to_string()));
    assert_eq!(host.fills.len(), 2);
}

fn pending(status: OrderStatus) -> Host {
    let mut host = Host::new();
    host.positions = vec![(PositionSide::Flat, true)];
    host.orders.insert(CLOSE_ID.to_string(), close_order(OrderStatus::Filled));
    host.orders.insert(OPEN_ID.to_string(), open_order(status));
    host
}

#[test]
fn initialized_delivery_is_accepted_and_filled() {
    let mut host = pending(OrderStatus::Initialized);
    assert_eq!(host.attempt(&mut engine(), 99), Some("complete".to_string()));
    assert_eq!(host.log, vec![format!("accepted {OPEN_ID}"), format!("filled {OPEN_ID}")]);
    assert_eq!(host.fills[0].venue_order_id, OPEN_VENUE_ID);
    assert_eq!(host.fills[0].trade_id, OPEN_TRADE_ID);
    assert_eq!(host.fills[0].position_id, None);
}

#[test]
fn accepted_delivery_keeps_its_venue_order_id() {
    let mut host = pending(OrderStatus::Accepted);
    host.orders.get_mut(OPEN_ID).unwrap().venue_order_id = Some("V-9".to_string());
    assert_eq!(host.attempt(&mut engine(), 99), Some("complete".to_string()));
    assert_eq!(host.log, vec![format!("filled {OPEN_ID}")]);
    assert_eq!(host.fills[0].venue_order_id, "V-9");
}

#[test]
fn delivery_in_another_status_fails() {
    let mut host = pending(OrderStatus::Canceled);
    let mut engine = engine();
    assert_eq!(
        host.attempt(&mut engine, 99),
        Some(format!(
            "cannot resume physical option settlement order {OPEN_ID} from status CANCELED"
        ))
    );
    assert!(host.log.is_empty());
    assert_eq!(
        engine.account_ids.get(&"TRADER-001".to_string()),
        Some(&"SIM-001".to_string())
    );
}

#[test]
fn delivery_without_its_instrument_is_retried() {
    let mut host = pending(OrderStatus::Accepted);
    host.underlying = None;
    let mut engine = engine();
    assert_eq!(host.attempt(&mut engine, 99), Some("retry".to_string()));
    assert_eq!(
        engine.warnings,
        vec![format!(
            "No underlying instrument AAPL.XNAS for pending physical option settlement {OPEN_ID}; \
             settlement will retry"
        )]
    );
    assert_eq!(engine.account_ids.get(&"TRADER-001".to_string()), None);
}

#[test]
fn delivery_without_a_strike_is_a_fault() {
    let mut host = pending(OrderStatus::Initialized);
    let mut engine = engine();
    engine.instrument.strike_price = None;
    assert_eq!(
        host.attempt(&mut engine, 99),
        Some("physical option settlement requires a strike price".to_string())
    );
    assert_eq!(host.log, vec![format!("accepted {OPEN_ID}")]);
}

#[test]
fn pending_deliveries_of_closed_positions_only_are_looked_for() {
    let mut host = pending(OrderStatus::Accepted);
    host.positions = vec![(PositionSide::Long, false), (PositionSide::Flat, true)];
    let mut engine = engine();
    let run = engine.process_option_expiry(99);
    let reply = host.answer(run.request(&engine)).unwrap();
    let (run, _) = engine.advance(run, reply);
    assert!(matches!(
        run.request(&engine),
        Request::SettlementOrders { close_id, open_id } if close_id == CLOSE_ID && open_id == OPEN_ID
    ));
}

#[test]
fn random_identifiers_skip_pending_deliveries() {
    let mut host = pending(OrderStatus::Accepted);
    let mut engine = engine();
    engine.config.use_random_ids = true;
    assert!(matches!(
        engine.process_option_expiry(99).request(&engine),
        Request::OpenPositions { .. }
    ));
    assert_eq!(host.attempt(&mut engine, 99), Some("complete".to_string()));
    assert!(host.log.is_empty());
}

#[test]
fn pending_delivery_of_two_orders() {
    let filled = Some(close_order(OrderStatus::Filled));
    let accepted = Some(close_order(OrderStatus::Accepted));
    assert!(option_pending_delivery(&filled, Some(open_order(OrderStatus::Accepted))).is_some());
    assert!(option_pending_delivery(&filled, Some(open_order(OrderStatus::Filled))).is_none());
    assert!(option_pending_delivery(&filled, None).is_none());
    assert!(option_pending_delivery(&accepted, Some(open_order(OrderStatus::Accepted))).is_none());
    assert!(option_pending_delivery(&None, Some(open_order(OrderStatus::Accepted))).is_none());
}

#[test]
fn delivery_fill_of_an_order() {
    let engine = engine();
    let ids = engine.option_deterministic_ids(&position(PositionSide::Flat, true), "physical-open");
    let mut host = Host::new();
    let underlying =
        match host.answer(Request::Instrument { instrument_id: "AAPL.XNAS".to_string() }) {
            Some(Reply::Instrument(Some(instrument))) => instrument,
            _ => panic!("no instrument"),
        };
    let fill = engine.option_create_delivery_fill(
        &position(PositionSide::Flat, true),
        &underlying,
        &open_order(OrderStatus::Accepted),
        &ids,
        price(15_000, 2),
        99,
    );
    assert_eq!(fill.client_order_id, OPEN_ID);
    assert_eq!(fill.venue_order_id, OPEN_VENUE_ID);
    assert_eq!(fill.trade_id, OPEN_TRADE_ID);
    assert_eq!(fill.currency, "EUR");
    assert_eq!((fill.ts_event, fill.ts_init), (99, 99));
}

#[test]
fn faults_end_an_attempt_before_anything_is_registered() {
    let mut host = Host::new();
    host.positions = vec![(PositionSide::Flat, false)];
    assert_eq!(
        host.attempt(&mut engine(), 77),
        Some("Settlement position must be Long or Short".to_string())
    );
    assert!(host.orders.is_empty());
    let mut host = Host::new();
    let mut engine = engine();
    engine.instrument.expiration_ns = None;
    assert_eq!(
        host.attempt(&mut engine, 77),
        Some(SettlementFault::MissingExpiration.message().to_string())
    );
    host.last_price = Some(price(1, 29));
    assert_eq!(
        host.attempt(&mut engine, 77),
        Some(SettlementFault::AmountOutOfRange.message().to_string())
    );
    host.positions = vec![(PositionSide::Flat, true)];
    assert_eq!(
        host.attempt(&mut engine, 77),
        Some(SettlementFault::MissingExpiration.message().to_string())
    );
}

#[test]
fn answers_to_something_else_and_finished_attempts_change_nothing() {
    let mut engine = engine();
    let run = engine.process_option_expiry(77);
    let (run, events) = engine.advance(run, Reply::Order(None));
    assert!(events.is_empty());
    assert!(matches!(run.request(&engine), Request::Positions { .. }));
    let (run, _) = engine.advance(run, Reply::Positions(vec![]));
    let (run, _) = engine.advance(run, Reply::Positions(vec![]));
    assert!(matches!(run.outcome(), Some(Outcome::Complete)));
    let (run, events) = engine.advance(run, Reply::Positions(vec![position(PositionSide::Long, false)]));
    assert!(events.is_empty());
    assert!(matches!(run.outcome(), Some(Outcome::Complete)));
    assert!(matches!(run.request(&engine), Request::Nothing));
}

#[test]
fn clock_readings_must_be_as_many_as_legs() {
    let mut host = Host::new();
    let mut engine = engine();
    let mut run = engine.process_option_expiry(77);
    while !matches!(run.request(&engine), Request::Clock { .. }) {
        let reply = host.answer(run.request(&engine)).unwrap();
        run = engine.advance(run, reply).0;
    }
    assert!(matches!(run.request(&engine), Request::Clock { readings: 2 }));
    let (run, _) = engine.advance(run, Reply::Clock(vec![5]));
    assert!(matches!(run.request(&engine), Request::Clock { readings: 2 }));
    let (run, _) = engine.advance(run, Reply::Clock(vec![5, 6]));
    assert!(matches!(run.request(&engine), Request::Order { client_order_id } if client_order_id == CLOSE_ID));
}

#[test]
fn conflict_fails_the_attempt() {
    let mut host = Host::new();
    let mut other = close_order(OrderStatus::Accepted);
    other.quantity = quantity(4, 0);
    host.orders.insert(CLOSE_ID.to_string(), other);
    let mut engine = engine();
    assert_eq!(
        host.attempt(&mut engine, 77),
        Some(SettlementError::Conflict { client_order_id: CLOSE_ID.to_string() }.message())
    );
    assert!(host.log.is_empty());
    assert!(engine.warnings.is_empty());
    assert_eq!(engine.account_ids.get(&"TRADER-001".to_string()), None);
}

#[test]
fn retried_attempt_has_done_nothing_with_the_open_positions() {
    let mut host = pending(OrderStatus::Accepted);
    host.positions.push((PositionSide::Long, false));
    host.last_price = None;
    let mut engine = engine();
    assert_eq!(host.attempt(&mut engine, 99), Some("retry".to_string()));
    assert_eq!(host.log, vec![format!("filled {OPEN_ID}")]);
    assert_eq!(host.orders.len(), 2);
}

#[test]
fn complete_attempt_has_filled_every_planned_leg() {
    let mut host = Host::new();
    assert_eq!(host.attempt(&mut engine(), 77), Some("complete".to_string()));
    assert_eq!(host.orders.len(), 2);
    assert!(host.orders.values().all(|order| order.status == OrderStatus::Filled));
    assert_eq!(host.fills.len(), 2);
}

#[test]
fn every_closed_position_is_inspected_and_every_pending_delivery_completed() {
    let mut engine = engine();
    let mut host = Host::new();
    let mut given: Vec<Position> = Vec::new();
    for (number, closed) in [(1, true), (2, false), (3, true), (4, true)] {
        let mut next = position(PositionSide::Flat, closed);
        next.id = format!("P-{number}");
        given.push(next);
    }
    let ids: Vec<(String, String)> = given
        .iter()
        .filter(|position| position.closed)
        .map(|position| {
            let close = engine.option_deterministic_ids(position, "physical-close").0;
            (close, engine.option_deterministic_ids(position, "physical-open").0)
        })
        .collect();
    for (number, (close_id, open_id)) in ids.iter().enumerate() {
        if number != 1 {
            let mut close = close_order(OrderStatus::Filled);
            close.client_order_id = close_id.clone();
            host.orders.insert(close_id.clone(), close);
            let mut open = open_order(OrderStatus::Initialized);
            open.client_order_id = open_id.clone();
            host.orders.insert(open_id.clone(), open);
        }
    }
    let mut inspected: Vec<(String, String)> = Vec::new();
    let run = engine.process_option_expiry(99);
    let (mut run, _) = engine.advance(run, Reply::Positions(given));
    while !matches!(run.request(&engine), Request::OpenPositions { .. }) {
        let request = run.request(&engine);
        if let Request::SettlementOrders { close_id, open_id } = &request {
            inspected.push((close_id.clone(), open_id.clone()));
        }
        let reply = host.answer(request).unwrap();
        let (next, events) = engine.advance(run, reply);
        run = next;
        for event in events {
            host.perform(event);
        }
    }
    assert_eq!(inspected, ids);
    assert_eq!(
        host.log,
        vec![
            format!("accepted {}", ids[0].1),
            format!("filled {}", ids[0].1),
            format!("accepted {}", ids[2].1),
            format!("filled {}", ids[2].1),
        ]
    );
}
