use option_settlement::accounts::AccountIds;
use option_settlement::amounts::{Price, Quantity};
use option_settlement::apply::{
    option_cached_settlement_order, option_register_settlement_order, ApplyNext, ApplyRun,
};
use option_settlement::errors::SettlementError;
use option_settlement::model::{
    LiquiditySide, Money, OptionSettlementLeg, OptionSettlementPlan, OrderAny, OrderFilled,
    OrderSide, OrderStatus, OrderType, TimeInForce,
};
use option_settlement::protocol::{Event, Outcome, Reply, Request};

fn quantity(mantissa: u128, precision: u8) -> Quantity {
    Quantity { mantissa, precision }
}

fn order(number: usize, status: OrderStatus) -> OrderAny {
    OrderAny {
        trader_id: format!("TRADER-{number}"),
        strategy_id: "S-001".to_string(),
        instrument_id: "AAPL250117C00150000.XNAS".to_string(),
        client_order_id: format!("C-{number}"),
        venue_order_id: None,
        order_side: OrderSide::Sell,
        order_type: OrderType::Market,
        quantity: quantity(3, 0),
        time_in_force: TimeInForce::Gtc,
        status,
        is_reduce_only: true,
        is_quote_quantity: false,
        init_id: "init".to_string(),
        ts_init: 66,
        tags: Some(vec!["EXPIRATION_XNAS_OTM".to_string()]),
    }
}

fn leg(number: usize) -> OptionSettlementLeg {
    OptionSettlementLeg {
        order: order(number, OrderStatus::Initialized),
        fill: OrderFilled {
            trader_id: format!("TRADER-{number}"),
            strategy_id: "S-001".to_string(),
            instrument_id: "AAPL250117C00150000.XNAS".to_string(),
            client_order_id: format!("C-{number}"),
            venue_order_id: format!("V-{number}"),
            account_id: format!("ACCOUNT-{number}"),
            trade_id: format!("T-{number}"),
            order_side: OrderSide::Sell,
            order_type: OrderType::Market,
            last_qty: quantity(3, 0),
            last_px: Price { mantissa: 0, precision: 2 },
            currency: "USD".to_string(),
            liquidity_side: LiquiditySide::Taker,
            event_id: "event".to_string(),
            ts_event: 77,
            ts_init: 77,
            reconciliation: false,
            position_id: Some(format!("P-{number}")),
            commission: Some(Money::zero("USD".to_string())),
        },
    }
}

fn start(legs: usize) -> ApplyRun {
    let plan = OptionSettlementPlan { legs: (0..legs).map(leg).collect() };
    match ApplyRun::option_apply_settlement_plan(plan) {
        ApplyNext::Running(run) => run,
        ApplyNext::Over(_) => panic!("nothing to apply"),
    }
}

fn running(next: ApplyNext) -> ApplyRun {
    match next {
        ApplyNext::Running(run) => run,
        ApplyNext::Over(outcome) => panic!("over: {outcome:?}"),
    }
}

fn failure(next: ApplyNext) -> String {
    match next {
        ApplyNext::Over(Outcome::Failed(error)) => error.message(),
        other => panic!("no failure: {other:?}"),
    }
}

fn label(event: &Event) -> String {
    match event {
        Event::Initialized(order) => format!("initialized {}", order.client_order_id),
        Event::Accepted { order, venue_order_id } => {
            format!("accepted {} {}", order.client_order_id, venue_order_id)
        }
        Event::Filled(fill) => format!("filled {} {}", fill.client_order_id, fill.trade_id),
    }
}

/// Answers every request from a cache in which each order has the given status when it is
/// looked up: `None` until it was added.
fn drive(mut run: ApplyRun, cached: &[OrderStatus]) -> (Outcome, Vec<String>, AccountIds, usize) {
    let mut accounts = AccountIds::new();
    let mut labels: Vec<String> = Vec::new();
    let mut status: Vec<Option<OrderStatus>> = cached.iter().map(|s| Some(*s)).collect();
    let mut steps: usize = 0;
    loop {
        let reply = match run.request() {
            Request::Order { client_order_id } => {
                let number: usize = client_order_id[2..].parse().unwrap();
                if status.len() <= number {
                    status.resize(number + 1, None);
                }
                Reply::Order(status[number].map(|s| order(number, s)))
            }
            Request::AddOrder { order, .. } => {
                let number: usize = order.client_order_id[2..].parse().unwrap();
                status[number] = Some(order.status);
                Reply::Stored(Ok(()))
            }
            Request::AddVenueOrderId { .. } => Reply::Stored(Ok(())),
            other => panic!("unexpected request: {other:?}"),
        };
        steps += 1;
        let (next, events) = run.advance(&mut accounts, reply);
        for event in &events {
            labels.push(label(event));
            let (id, new) = match event {
                Event::Initialized(order) => (order.client_order_id.clone(), order.status),
                Event::Accepted { order, .. } => {
                    (order.client_order_id.clone(), OrderStatus::Accepted)
                }
                Event::Filled(fill) => (fill.client_order_id.clone(), OrderStatus::Filled),
            };
            status[id[2..].parse::<usize>().unwrap()] = Some(new);
        }
        match next {
            ApplyNext::Running(next) => run = next,
            ApplyNext::Over(outcome) => return (outcome, labels, accounts, steps),
        }
    }
}

#[test]
fn empty_plan_is_complete() {
    let plan = OptionSettlementPlan { legs: vec![] };
    assert!(matches!(
        ApplyRun::option_apply_settlement_plan(plan),
        ApplyNext::Over(Outcome::Complete)
    ));
}

#[test]
fn fresh_plan_is_registered_published_accepted_and_filled_in_turn() {
    let (outcome, labels, accounts, steps) = drive(start(2), &[]);
    assert!(matches!(outcome, Outcome::Complete));
    assert_eq!(
        labels,
        vec![
            "initialized C-0",
            "initialized C-1",
            "accepted C-0 V-0",
            "accepted C-1 V-1",
            "filled C-0 T-0",
            "filled C-1 T-1",
        ]
    );
    assert_eq!(accounts.get(&"TRADER-0".to_string()), Some(&"ACCOUNT-0".to_string()));
    assert_eq!(accounts.get(&"TRADER-1".to_string()), Some(&"ACCOUNT-1".to_string()));
    assert_eq!(steps, 12);
}

#[test]
fn restarted_plan_goes_on_where_it_was() {
    let (outcome, labels, _, steps) = drive(start(2), &[OrderStatus::Filled, OrderStatus::Accepted]);
    assert!(matches!(outcome, Outcome::Complete));
    assert_eq!(labels, vec!["filled C-1 T-1"]);
    assert!(steps <= 12);
}

#[test]
fn filled_plan_gives_out_nothing() {
    let (outcome, labels, accounts, _) = drive(start(2), &[OrderStatus::Filled; 2]);
    assert!(matches!(outcome, Outcome::Complete));
    assert!(labels.is_empty());
    assert_eq!(accounts.get(&"TRADER-1".to_string()), Some(&"ACCOUNT-1".to_string()));
}

#[test]
fn requests_name_what_is_registered() {
    let mut accounts = AccountIds::new();
    let run = start(1);
    assert!(matches!(run.request(), Request::Order { client_order_id } if client_order_id == "C-0"));
    let (next, events) = run.advance(&mut accounts, Reply::Order(None));
    assert!(events.is_empty());
    let run = running(next);
    match run.request() {
        Request::AddOrder { order, position_id } => {
            assert_eq!(order.client_order_id, "C-0");
            assert_eq!(order.tags, Some(vec!["EXPIRATION_XNAS_OTM".to_string()]));
            assert_eq!(position_id, Some("P-0".to_string()));
        }
        other => panic!("unexpected request: {other:?}"),
    }
    let (next, _) = run.advance(&mut accounts, Reply::Stored(Ok(())));
    let run = running(next);
    match run.request() {
        Request::AddVenueOrderId { client_order_id, venue_order_id } => {
            assert_eq!(client_order_id, "C-0");
            assert_eq!(venue_order_id, "V-0");
        }
        other => panic!("unexpected request: {other:?}"),
    }
}

#[test]
fn conflicting_order_fails() {
    for change in 0..4 {
        let mut existing = order(0, OrderStatus::Accepted);
        match change {
            0 => existing.instrument_id = "OTHER.XNAS".to_string(),
            1 => existing.order_side = OrderSide::Buy,
            2 => existing.quantity = quantity(4, 0),
            _ => existing.is_reduce_only = false,
        }
        let mut accounts = AccountIds::new();
        let (next, events) = start(1).advance(&mut accounts, Reply::Order(Some(existing)));
        assert!(events.is_empty());
        assert_eq!(
            failure(next),
            "existing settlement order C-0 conflicts with the recovered plan"
        );
        assert_eq!(accounts.get(&"TRADER-0".to_string()), None);
    }
}

#[test]
fn equal_quantity_in_another_precision_does_not_conflict() {
    let mut existing = order(0, OrderStatus::Accepted);
    existing.quantity = quantity(300, 2);
    assert_eq!(
        option_register_settlement_order(&leg(0), &Some(existing)).map_err(|e| e.message()),
        Ok(false)
    );
    assert_eq!(
        option_register_settlement_order(&leg(0), &None).map_err(|e| e.message()),
        Ok(true)
    );
}

#[test]
fn refused_order_fails_without_events_or_accounts() {
    let mut accounts = AccountIds::new();
    let (next, _) = start(2).advance(&mut accounts, Reply::Order(None));
    let (next, events) =
        running(next).advance(&mut accounts, Reply::Stored(Err("duplicate".to_string())));
    assert!(events.is_empty());
    assert_eq!(failure(next), "cannot add settlement order C-0: duplicate");
    assert_eq!(accounts.get(&"TRADER-0".to_string()), None);
}

#[test]
fn refused_venue_order_id_fails_without_events_or_accounts() {
    let mut accounts = AccountIds::new();
    let (next, _) = start(2).advance(&mut accounts, Reply::Order(None));
    let (next, _) = running(next).advance(&mut accounts, Reply::Stored(Ok(())));
    let (next, events) =
        running(next).advance(&mut accounts, Reply::Stored(Err("taken".to_string())));
    assert!(events.is_empty());
    assert_eq!(
        failure(next),
        "cannot claim venue order ID V-0 for settlement order C-0: taken"
    );
    assert_eq!(accounts.get(&"TRADER-0".to_string()), None);
}

#[test]
fn lost_order_fails_in_every_later_phase() {
    for phase in 0..3 {
        let mut accounts = AccountIds::new();
        let (next, _) =
            start(1).advance(&mut accounts, Reply::Order(Some(order(0, OrderStatus::Accepted))));
        let (next, _) = running(next).advance(&mut accounts, Reply::Stored(Ok(())));
        let mut run = running(next);
        assert_eq!(accounts.get(&"TRADER-0".to_string()), Some(&"ACCOUNT-0".to_string()));
        for _ in 0..phase {
            let (next, events) =
                run.advance(&mut accounts, Reply::Order(Some(order(0, OrderStatus::Accepted))));
            assert!(events.is_empty());
            run = running(next);
        }
        let (next, events) = run.advance(&mut accounts, Reply::Order(None));
        assert!(events.is_empty());
        assert_eq!(failure(next), "settlement order C-0 is not cached");
    }
}

#[test]
fn answer_to_something_else_changes_nothing() {
    let mut accounts = AccountIds::new();
    let (next, events) = start(1).advance(&mut accounts, Reply::Stored(Ok(())));
    assert!(events.is_empty());
    let run = running(next);
    assert!(matches!(run.request(), Request::Order { .. }));
    let (next, _) = run.advance(&mut accounts, Reply::Order(None));
    let (next, events) = running(next).advance(&mut accounts, Reply::Order(None));
    assert!(events.is_empty());
    assert!(matches!(running(next).request(), Request::AddOrder { .. }));
}

#[test]
fn cached_order_or_error() {
    let cached = option_cached_settlement_order(&leg(0), Some(order(0, OrderStatus::Filled)));
    assert!(matches!(cached, Ok(order) if order.status == OrderStatus::Filled));
    let missing = option_cached_settlement_order(&leg(0), None);
    assert!(
        matches!(missing, Err(SettlementError::NotCached { client_order_id }) if client_order_id == "C-0")
    );
}

#[test]
fn every_leg_is_found_or_added_and_then_claimed() {
    let mut accounts = AccountIds::new();
    let mut asked: Vec<String> = Vec::new();
    let mut run = start(2);
    let replies = vec![
        Reply::Order(Some(order(0, OrderStatus::Accepted))),
        Reply::Stored(Ok(())),
        Reply::Order(None),
        Reply::Stored(Ok(())),
        Reply::Stored(Ok(())),
    ];
    for reply in replies {
        asked.push(match run.request() {
            Request::Order { client_order_id } => format!("look up {client_order_id}"),
            Request::AddOrder { order, .. } => format!("add {}", order.client_order_id),
            Request::AddVenueOrderId { venue_order_id, .. } => format!("claim {venue_order_id}"),
            other => panic!("unexpected request: {other:?}"),
        });
        let (next, events) = run.advance(&mut accounts, reply);
        assert!(events.is_empty());
        run = running(next);
    }
    assert_eq!(asked, vec!["look up C-0", "claim V-0", "look up C-1", "add C-1", "claim V-1"]);
    assert_eq!(accounts.get(&"TRADER-1".to_string()), Some(&"ACCOUNT-1".to_string()));
}
