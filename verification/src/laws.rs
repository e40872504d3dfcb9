//! What holds of settlement: of every plan, of plans that are made again, of deliveries that
//! are resumed, of every step of an attempt, and of prices.
use vstd::prelude::*;

#[allow(unused_imports)]
use crate::amounts::{
    lemma_less_than_at_common_scale, lemma_maximum_with_zero, lemma_rounded_keeps_sign, Price,
};
#[allow(unused_imports)]
use crate::apply::{apply_step, same_terms, ApplyNextView, ApplyPhase, ApplyView};
#[allow(unused_imports)]
use crate::decimal::{difference, pow10};
#[allow(unused_imports)]
use crate::engine::after_retry;
#[allow(unused_imports)]
use crate::expiry::{
    delivery_acceptance, delivery_fill, expiry_step, first_stage, next_pending, request_of,
    StageView,
};
#[allow(unused_imports)]
use crate::identity::{law_identifiers_are_stable, same_market, same_position};
#[allow(unused_imports)]
use crate::model::{
    closing_side_of, FillView, InstrumentView, LegView, MoneyView, OptionKind, OrderSide,
    OrderStatus, OrderView, PositionSide, PositionView, Text, UnixNanos,
};
#[allow(unused_imports)]
use crate::protocol::{answers, EventView, OutcomeView, ReplyView, RequestView};
#[allow(unused_imports)]
use crate::terms::{
    deterministic_ids, exact_gain, ids_of, in_the_money, intrinsic_value, is_cash_price,
    is_opening_leg, is_physical_close_leg, is_plan, legs_per_position, settlement_price,
    settles_position, EngineView,
};
#[allow(unused_imports)]
use crate::trace::progress;

verus! {

/// A leg's fill completes its order: it is a fill of that order, for all of it, without
/// commission.
pub open spec fn fills_its_order(leg: LegView) -> bool {
    &&& leg.fill.trader_id == leg.order.trader_id
    &&& leg.fill.strategy_id == leg.order.strategy_id
    &&& leg.fill.instrument_id == leg.order.instrument_id
    &&& leg.fill.client_order_id == leg.order.client_order_id
    &&& leg.fill.order_side == leg.order.order_side
    &&& leg.fill.order_type == leg.order.order_type
    &&& leg.fill.last_qty == leg.order.quantity
    &&& leg.fill.commission == Some(MoneyView { units: 0, currency: leg.fill.currency })
}

/// The fill of every leg of a plan completes the leg's order.
pub proof fn law_every_fill_completes_its_order(
    engine: EngineView,
    positions: Seq<PositionView>,
    underlying: InstrumentView,
    price: Price,
    exercise: bool,
    ts_now: UnixNanos,
    close: Option<Price>,
    clock: Seq<UnixNanos>,
    legs: Seq<LegView>,
    k: int,
)
    requires
        is_plan(engine, positions, underlying, price, exercise, ts_now, close, clock, legs),
        0 <= k < legs.len(),
    ensures
        fills_its_order(legs[k]),
{
    let each = legs_per_position(exercise, underlying);
    let i = if each == 2 {
        k / 2
    } else {
        k
    };
    assert(each * i == k || (each == 2 && each * i + 1 == k));
    assert(settles_position(
        engine,
        positions[i],
        underlying,
        price,
        exercise,
        ts_now,
        close,
        clock,
        legs,
        each * i,
    ));
}

/// A plan closes every position: by a reduce-only order on the other side, for the whole
/// position and under its identifier.
pub proof fn law_every_position_is_closed(
    engine: EngineView,
    positions: Seq<PositionView>,
    underlying: InstrumentView,
    price: Price,
    exercise: bool,
    ts_now: UnixNanos,
    close: Option<Price>,
    clock: Seq<UnixNanos>,
    legs: Seq<LegView>,
    i: int,
)
    requires
        is_plan(engine, positions, underlying, price, exercise, ts_now, close, clock, legs),
        0 <= i < positions.len(),
        positions[i].side != PositionSide::Flat,
    ensures
        ({
            let leg = legs[legs_per_position(exercise, underlying) * i];
            &&& leg.order.is_reduce_only
            &&& leg.order.instrument_id == engine.instrument.id
            &&& leg.order.quantity == positions[i].quantity
            &&& closing_side_of(positions[i].side) == Some(leg.order.order_side)
            &&& leg.fill.position_id == Some(positions[i].id)
            &&& leg.fill.account_id == positions[i].account_id
        }),
{
    assert(settles_position(
        engine,
        positions[i],
        underlying,
        price,
        exercise,
        ts_now,
        close,
        clock,
        legs,
        legs_per_position(exercise, underlying) * i,
    ));
}

/// Settlement by delivery opens a new position in the underlying at the strike, directly
/// behind the leg that closes the option: a call's holder buys and its writer sells, a
/// put's holder sells and its writer buys.
pub proof fn law_delivery_follows_the_close(
    engine: EngineView,
    positions: Seq<PositionView>,
    underlying: InstrumentView,
    price: Price,
    ts_now: UnixNanos,
    close: Option<Price>,
    clock: Seq<UnixNanos>,
    legs: Seq<LegView>,
    i: int,
)
    requires
        is_plan(engine, positions, underlying, price, true, ts_now, close, clock, legs),
        !underlying.is_index,
        0 <= i < positions.len(),
        positions[i].side != PositionSide::Flat,
        engine.instrument.strike_price is Some,
    ensures
        legs.len() == 2 * positions.len(),
        ({
            let closing = legs[2 * i];
            let opening = legs[2 * i + 1];
            &&& !opening.order.is_reduce_only
            &&& opening.order.instrument_id == underlying.id
            &&& opening.fill.position_id is None
            &&& Some(opening.fill.last_px) == engine.instrument.strike_price
            &&& opening.order.order_side == if (engine.instrument.option_kind == Some(
                OptionKind::Call,
            )) == (positions[i].side == PositionSide::Long) {
                OrderSide::Buy
            } else {
                OrderSide::Sell
            }
            &&& (opening.order.order_side == closing.order.order_side)
                == (engine.instrument.option_kind != Some(OptionKind::Call))
        }),
{
    assert(settles_position(
        engine,
        positions[i],
        underlying,
        price,
        true,
        ts_now,
        close,
        clock,
        legs,
        2 * i,
    ));
}

/// An order that was registered for `leg`, whatever has become of it.
pub open spec fn is_registered_order(leg: LegView, order: OrderView) -> bool {
    order == OrderView { status: order.status, venue_order_id: order.venue_order_id, ..leg.order }
}

/// A position that is planned again, after a restart or a failed attempt and wherever it
/// stands in the new plan, gets legs with the same identifiers and terms. So registering
/// them does not conflict with the orders that were registered before.
pub proof fn law_planning_again_does_not_conflict(
    engine: EngineView,
    later_engine: EngineView,
    position: PositionView,
    later_position: PositionView,
    underlying: InstrumentView,
    price: Price,
    later_price: Price,
    exercise: bool,
    ts_now: UnixNanos,
    later_ts_now: UnixNanos,
    close: Option<Price>,
    later_close: Option<Price>,
    clock: Seq<UnixNanos>,
    later_clock: Seq<UnixNanos>,
    legs: Seq<LegView>,
    later_legs: Seq<LegView>,
    first: int,
    later_first: int,
    k: int,
    order: OrderView,
)
    requires
        engine.venue == later_engine.venue,
        engine.instrument == later_engine.instrument,
        !engine.use_random_ids,
        !later_engine.use_random_ids,
        same_position(position, later_position),
        position.side == later_position.side,
        position.quantity == later_position.quantity,
        settles_position(
            engine,
            position,
            underlying,
            price,
            exercise,
            ts_now,
            close,
            clock,
            legs,
            first,
        ),
        settles_position(
            later_engine,
            later_position,
            underlying,
            later_price,
            exercise,
            later_ts_now,
            later_close,
            later_clock,
            later_legs,
            later_first,
        ),
        0 <= k < legs_per_position(exercise, underlying),
        is_registered_order(legs[first + k], order),
    ensures
        ids_of(legs[first + k]) == ids_of(later_legs[later_first + k]),
        same_terms(order, later_legs[later_first + k].order),
        apply_step(
            ApplyView { legs: later_legs, phase: ApplyPhase::Register, index: later_first + k },
            ReplyView::Order(Some(order)),
        ).0 == ApplyNextView::Running(
            ApplyView { legs: later_legs, phase: ApplyPhase::Claim, index: later_first + k },
        ),
{
    law_identifiers_are_stable(engine, later_engine, position, later_position, "otm"@);
    law_identifiers_are_stable(engine, later_engine, position, later_position, "cash"@);
    law_identifiers_are_stable(engine, later_engine, position, later_position, "physical-close"@);
    law_identifiers_are_stable(engine, later_engine, position, later_position, "physical-open"@);
}

/// After a restart, the delivery of a position whose option was closed is looked for under
/// the identifiers that it was planned under.
pub proof fn law_a_pending_delivery_is_found(
    engine: EngineView,
    later_engine: EngineView,
    position: PositionView,
    underlying: InstrumentView,
    close: Option<Price>,
    ts_init: (UnixNanos, UnixNanos),
    ts_now: UnixNanos,
    closing: LegView,
    opening: LegView,
    later_positions: Seq<PositionView>,
    index: int,
)
    requires
        !engine.use_random_ids,
        engine.instrument.expiration_ns is Some,
        is_physical_close_leg(engine, position, close, ts_init.0, ts_now, closing),
        is_opening_leg(engine, position, underlying, ts_init.1, ts_now, opening),
        same_market(engine, later_engine),
        0 <= index < later_positions.len(),
        same_position(position, later_positions[index]),
        later_positions[index].closed,
    ensures
        next_pending(later_engine, later_positions, index) == (StageView::PendingOrders {
            positions: later_positions,
            index,
            close_id: closing.order.client_order_id,
            open_ids: ids_of(opening),
        }),
{
    law_identifiers_are_stable(
        engine,
        later_engine,
        position,
        later_positions[index],
        "physical-close"@,
    );
    law_identifiers_are_stable(
        engine,
        later_engine,
        position,
        later_positions[index],
        "physical-open"@,
    );
}

/// The fill that completes a delivery after a restart is the fill that was planned, but for
/// the event's own identifier and time.
pub proof fn law_a_resumed_delivery_is_the_planned_one(
    engine: EngineView,
    later_engine: EngineView,
    position: PositionView,
    later_position: PositionView,
    underlying: InstrumentView,
    later_underlying: InstrumentView,
    ts_init: UnixNanos,
    ts_now: UnixNanos,
    opening: LegView,
    order: OrderView,
    event_id: Text,
    later_ts_now: UnixNanos,
)
    requires
        !engine.use_random_ids,
        is_opening_leg(engine, position, underlying, ts_init, ts_now, opening),
        same_market(engine, later_engine),
        engine.instrument.strike_price == later_engine.instrument.strike_price,
        underlying.quote_currency == later_underlying.quote_currency,
        same_position(position, later_position),
        is_registered_order(opening, order),
        order.venue_order_id is None || order.venue_order_id == Some(opening.fill.venue_order_id),
    ensures
        delivery_fill(
            later_engine,
            later_position,
            later_underlying,
            order,
            deterministic_ids(later_engine, later_position, "physical-open"@),
            event_id,
            later_ts_now,
        ) == (FillView {
            event_id,
            ts_event: later_ts_now,
            ts_init: later_ts_now,
            ..opening.fill
        }),
{
    law_identifiers_are_stable(
        engine,
        later_engine,
        position,
        later_position,
        "physical-open"@,
    );
}

/// All positions in a range are open.
pub open spec fn all_open(positions: Seq<PositionView>, from: int, to: int) -> bool {
    forall|k: int| from <= k < to ==> !(#[trigger] positions[k]).closed
}

/// No closed position is passed over when pending deliveries are looked for.
pub proof fn law_every_closed_position_is_looked_at(
    engine: EngineView,
    positions: Seq<PositionView>,
    from: int,
)
    requires
        0 <= from <= positions.len(),
    ensures
        match next_pending(engine, positions, from) {
            StageView::OpenPositions => all_open(positions, from, positions.len() as int),
            StageView::PendingOrders { positions: same, index, close_id, open_ids } => {
                &&& same == positions
                &&& from <= index < positions.len()
                &&& positions[index].closed
                &&& all_open(positions, from, index)
            },
            StageView::Finished(outcome) => {
                &&& outcome is Fault
                &&& engine.instrument.expiration_ns is None
                &&& !all_open(positions, from, positions.len() as int)
            },
            _ => false,
        },
    decreases positions.len() - from,
{
    if from < positions.len() {
        if positions[from].closed {
            assert(all_open(positions, from, from));
        } else {
            law_every_closed_position_is_looked_at(engine, positions, from + 1);
            assert(next_pending(engine, positions, from) == next_pending(
                engine,
                positions,
                from + 1,
            ));
        }
    }
}

/// A reason that keeps settlement from being completed is warned about once, until there is
/// another.
pub proof fn law_a_reason_is_warned_about_once(
    engine: EngineView,
    reason: Text,
    message: Text,
    later_message: Text,
)
    ensures
        after_retry(after_retry(engine, reason, message), reason, later_message) == after_retry(
            engine,
            reason,
            message,
        ),
        after_retry(engine, reason, message).warnings.len() == engine.warnings.len() + if (
        engine.warning == Some(reason)) {
            0int
        } else {
            1int
        },
{
}

/// The step that an attempt takes on an answer leaves everything of the engine as it was
/// but its warnings and its accounts.
pub proof fn law_an_attempt_changes_warnings_and_accounts_only(
    engine: EngineView,
    ts_now: UnixNanos,
    stage: StageView,
    reply: ReplyView,
    engine_after: EngineView,
    stage_after: StageView,
    events: Seq<EventView>,
)
    requires
        expiry_step(engine, ts_now, stage, reply, engine_after, stage_after, events),
    ensures
        engine_after == (EngineView {
            warning: engine_after.warning,
            warnings: engine_after.warnings,
            account_ids: engine_after.account_ids,
            ..engine
        }),
        engine.warnings.is_prefix_of(engine_after.warnings),
        engine.account_ids.dom().subset_of(engine_after.account_ids.dom()),
{
    if let StageView::Applying(run) = stage {
        lemma_accounts_grow(engine.account_ids, run.legs);
    }
}

/// Recording accounts keeps every trader that has one.
proof fn lemma_accounts_grow(accounts: Map<Text, Text>, legs: Seq<LegView>)
    ensures
        accounts.dom().subset_of(crate::apply::with_accounts(accounts, legs).dom()),
    decreases legs.len(),
{
    if legs.len() > 0 {
        lemma_accounts_grow(accounts, legs.drop_last());
    }
}

/// An attempt that ends to be repeated gives out nothing and records no account in its last
/// step, and has not begun to apply a plan.
pub proof fn law_a_retry_has_no_effect(
    engine: EngineView,
    ts_now: UnixNanos,
    stage: StageView,
    reply: ReplyView,
    engine_after: EngineView,
    stage_after: StageView,
    events: Seq<EventView>,
)
    requires
        expiry_step(engine, ts_now, stage, reply, engine_after, stage_after, events),
        is_in_range(stage),
        stage_after == StageView::Finished(OutcomeView::Retry),
    ensures
        events.len() == 0,
        engine_after.account_ids == engine.account_ids,
        stage !is Applying,
{
    match stage {
        StageView::AllPositions => {
            if let ReplyView::Positions(positions) = reply {
                law_every_closed_position_is_looked_at(engine, positions, 0);
            }
        },
        StageView::PendingOrders { positions, index, .. } => {
            law_every_closed_position_is_looked_at(engine, positions, index + 1);
        },
        StageView::PendingInstrument { positions, index, .. } => {
            law_every_closed_position_is_looked_at(engine, positions, index + 1);
        },
        _ => {},
    }
}

/// A finished attempt stays as it is.
pub proof fn law_a_finished_attempt_is_final(
    engine: EngineView,
    ts_now: UnixNanos,
    outcome: OutcomeView,
    reply: ReplyView,
    engine_after: EngineView,
    stage_after: StageView,
    events: Seq<EventView>,
)
    requires
        expiry_step(
            engine,
            ts_now,
            StageView::Finished(outcome),
            reply,
            engine_after,
            stage_after,
            events,
        ),
    ensures
        engine_after == engine,
        stage_after == StageView::Finished(outcome),
        events.len() == 0,
{
}

/// An order is filled only where the host has said that it is not filled yet: a pending
/// delivery that is initialized or accepted, or the order of a leg that is not filled.
pub proof fn law_only_unfilled_orders_are_filled(
    engine: EngineView,
    ts_now: UnixNanos,
    stage: StageView,
    reply: ReplyView,
    engine_after: EngineView,
    stage_after: StageView,
    events: Seq<EventView>,
    i: int,
)
    requires
        expiry_step(engine, ts_now, stage, reply, engine_after, stage_after, events),
        0 <= i < events.len(),
        events[i] is Filled,
    ensures
        i == events.len() - 1,
        match (stage, reply) {
            (StageView::PendingInstrument { order, .. }, ReplyView::Instrument(Some(_))) => {
                &&& events[i]->Filled_0.client_order_id == order.client_order_id
                &&& order.status == OrderStatus::Initialized || order.status
                    == OrderStatus::Accepted
            },
            (StageView::Applying(run), ReplyView::Order(Some(order))) => {
                &&& events[i]->Filled_0 == run.legs[run.index].fill
                &&& run.phase == ApplyPhase::Fill
                &&& order.status != OrderStatus::Filled
            },
            _ => false,
        },
{
    if let StageView::PendingInstrument { order, open_ids, .. } = stage {
        let acceptance = delivery_acceptance(order, open_ids);
        if events.len() == acceptance.len() + 1 && i < acceptance.len() {
            assert(events.drop_last()[i] == events[i]);
        }
    }
}

/// The orders that are filled after events were performed, where those in `filled` were
/// before.
pub open spec fn filled_after(filled: Set<Text>, events: Seq<EventView>) -> Set<Text>
    decreases events.len(),
{
    if events.len() == 0 {
        filled
    } else {
        let earlier = filled_after(filled, events.drop_last());
        match events.last() {
            EventView::Filled(fill) => earlier.insert(fill.client_order_id),
            _ => earlier,
        }
    }
}

/// An answer is true of the orders that are filled: an order comes under the identifier
/// that was asked for, and is said to be filled exactly where it is.
pub open spec fn is_true_of(request: RequestView, reply: ReplyView, filled: Set<Text>) -> bool {
    match (request, reply) {
        (RequestView::Order { client_order_id }, ReplyView::Order(Some(order))) => {
            &&& order.client_order_id == client_order_id
            &&& (order.status == OrderStatus::Filled) == filled.contains(client_order_id)
        },
        (
            RequestView::SettlementOrders { open_id, .. },
            ReplyView::SettlementOrders { open: Some(order), .. },
        ) => {
            &&& order.client_order_id == open_id
            &&& (order.status == OrderStatus::Filled) == filled.contains(open_id)
        },
        _ => true,
    }
}

/// What an attempt goes by still holds: a pending delivery is not filled, and the fill of
/// every leg completes the leg's order.
pub open spec fn is_up_to_date(stage: StageView, filled: Set<Text>) -> bool {
    match stage {
        StageView::PendingInstrument { order, .. } => !filled.contains(order.client_order_id),
        StageView::Applying(run) => {
            &&& 0 <= run.index < run.legs.len()
            &&& forall|k: int| 0 <= k < run.legs.len() ==> fills_its_order(#[trigger] run.legs[k])
        },
        _ => true,
    }
}

/// No order is filled twice, over however many attempts and restarts, as long as the host
/// answers truly: an attempt that is up to date, as every attempt is where it begins, gives
/// out no fill of an order that is filled, and is up to date after its events.
pub proof fn law_no_order_is_filled_twice(
    filled: Set<Text>,
    engine: EngineView,
    ts_now: UnixNanos,
    stage: StageView,
    reply: ReplyView,
    engine_after: EngineView,
    stage_after: StageView,
    events: Seq<EventView>,
)
    requires
        is_up_to_date(stage, filled),
        is_true_of(request_of(engine, stage), reply, filled),
        expiry_step(engine, ts_now, stage, reply, engine_after, stage_after, events),
    ensures
        is_up_to_date(first_stage(engine), filled),
        forall|i: int|
            0 <= i < events.len() ==> ((#[trigger] events[i]) matches EventView::Filled(fill)
                ==> i == events.len() - 1 && !filled.contains(fill.client_order_id)),
        is_up_to_date(stage_after, filled_after(filled, events)),
{
    assert forall|i: int| 0 <= i < events.len() implies ((
    #[trigger] events[i]) matches EventView::Filled(fill) ==> i == events.len() - 1
        && !filled.contains(fill.client_order_id)) by {
        if events[i] is Filled {
            law_only_unfilled_orders_are_filled(
                engine,
                ts_now,
                stage,
                reply,
                engine_after,
                stage_after,
                events,
                i,
            );
        }
    }
    match stage {
        StageView::AllPositions => {
            if let ReplyView::Positions(positions) = reply {
                lemma_next_pending_is_up_to_date(engine, positions, 0, filled);
            }
        },
        StageView::PendingOrders { positions, index, .. } => {
            lemma_next_pending_is_up_to_date(engine, positions, index + 1, filled);
        },
        StageView::PendingInstrument { positions, index, .. } => {
            lemma_next_pending_is_up_to_date(
                engine,
                positions,
                index + 1,
                filled_after(filled, events),
            );
        },
        StageView::Clock { positions, underlying, price, exercise } => {
            if let ReplyView::Clock(clock) = reply {
                if let StageView::Applying(run) = stage_after {
                    lemma_plan_is_up_to_date(
                        engine,
                        positions,
                        underlying,
                        price,
                        exercise,
                        ts_now,
                        clock,
                        run.legs,
                    );
                }
            }
        },
        _ => {},
    }
}

/// Looking for pending deliveries goes by nothing that could be out of date.
proof fn lemma_next_pending_is_up_to_date(
    engine: EngineView,
    positions: Seq<PositionView>,
    from: int,
    filled: Set<Text>,
)
    ensures
        is_up_to_date(next_pending(engine, positions, from), filled),
    decreases positions.len() - from,
{
    if from < positions.len() && !positions[from].closed {
        lemma_next_pending_is_up_to_date(engine, positions, from + 1, filled);
    }
}

/// The fill of every leg of a plan completes the leg's order.
proof fn lemma_plan_is_up_to_date(
    engine: EngineView,
    positions: Seq<PositionView>,
    underlying: InstrumentView,
    price: Price,
    exercise: bool,
    ts_now: UnixNanos,
    clock: Seq<UnixNanos>,
    legs: Seq<LegView>,
)
    ensures
        is_plan(
            engine,
            positions,
            underlying,
            price,
            exercise,
            ts_now,
            engine.instrument_close,
            clock,
            legs,
        ) ==> forall|k: int| 0 <= k < legs.len() ==> fills_its_order(#[trigger] legs[k]),
{
    if is_plan(
        engine,
        positions,
        underlying,
        price,
        exercise,
        ts_now,
        engine.instrument_close,
        clock,
        legs,
    ) {
        assert forall|k: int| 0 <= k < legs.len() implies fills_its_order(#[trigger] legs[k]) by {
            law_every_fill_completes_its_order(
                engine,
                positions,
                underlying,
                price,
                exercise,
                ts_now,
                engine.instrument_close,
                clock,
                legs,
                k,
            );
        }
    }
}

/// How far an attempt is.
pub open spec fn stage_rank(stage: StageView) -> int {
    match stage {
        StageView::AllPositions => 0,
        StageView::PendingOrders { .. } | StageView::PendingInstrument { .. } => 1,
        StageView::OpenPositions => 2,
        StageView::Underlying { .. } => 3,
        StageView::UnderlyingPrice { .. } => 4,
        StageView::Clock { .. } => 5,
        StageView::Applying(_) => 6,
        StageView::Finished(_) => 7,
    }
}

/// How far an attempt is within the list that it works on.
pub open spec fn stage_step(stage: StageView) -> int {
    match stage {
        StageView::PendingOrders { index, .. } => 2 * index,
        StageView::PendingInstrument { index, .. } => 2 * index + 1,
        StageView::Applying(run) => progress(run.legs, run),
        _ => 0,
    }
}

/// The position or the leg that an attempt is at is one of its list.
pub open spec fn is_in_range(stage: StageView) -> bool {
    match stage {
        StageView::PendingOrders { positions, index, .. } => 0 <= index < positions.len(),
        StageView::PendingInstrument { positions, index, .. } => 0 <= index < positions.len(),
        StageView::Applying(run) => 0 <= run.index < run.legs.len(),
        _ => true,
    }
}

/// Every answer of the kind that was asked for brings an attempt forward, and never back.
pub proof fn law_answers_bring_an_attempt_forward(
    engine: EngineView,
    ts_now: UnixNanos,
    stage: StageView,
    reply: ReplyView,
    engine_after: EngineView,
    stage_after: StageView,
    events: Seq<EventView>,
)
    requires
        is_in_range(stage),
        expiry_step(engine, ts_now, stage, reply, engine_after, stage_after, events),
        answers(request_of(engine, stage), reply),
    ensures
        is_in_range(stage_after),
        stage_rank(stage) < stage_rank(stage_after) || (stage_rank(stage) == stage_rank(stage_after)
            && stage_step(stage) < stage_step(stage_after)),
{
    match stage {
        StageView::AllPositions => {
            if let ReplyView::Positions(positions) = reply {
                law_every_closed_position_is_looked_at(engine, positions, 0);
            }
        },
        StageView::PendingOrders { positions, index, .. } => {
            law_every_closed_position_is_looked_at(engine, positions, index + 1);
        },
        StageView::PendingInstrument { positions, index, .. } => {
            law_every_closed_position_is_looked_at(engine, positions, index + 1);
        },
        _ => {},
    }
}

/// A price is never both above and below the strike: of a call and a put with one strike,
/// at most one is in the money, and neither is where the underlying is at the strike.
pub proof fn law_call_and_put_are_not_both_in_the_money(
    call: InstrumentView,
    put: InstrumentView,
    price: Price,
)
    requires
        call.option_kind == Some(OptionKind::Call),
        put.option_kind == Some(OptionKind::Put),
        call.strike_price == put.strike_price,
    ensures
        !(in_the_money(call, price) && in_the_money(put, price)),
        call.strike_price == Some(price) ==> !in_the_money(call, price) && !in_the_money(
            put,
            price,
        ),
{
}

/// An option is in the money exactly where its exercise gains something.
pub proof fn law_in_the_money_is_where_exercise_gains(
    instrument: InstrumentView,
    strike: Price,
    underlying_price: Price,
)
    requires
        instrument.strike_price == Some(strike),
        instrument.option_kind is Some,
    ensures
        in_the_money(instrument, underlying_price) <==> exact_gain(
            instrument,
            strike,
            underlying_price,
        ) > 0,
{
    lemma_less_than_at_common_scale(strike.amount(), underlying_price.amount());
    lemma_less_than_at_common_scale(underlying_price.amount(), strike.amount());
}

/// An option never settles in cash at a negative price.
pub proof fn law_cash_price_is_not_negative(instrument: InstrumentView, underlying_price: Price)
    ensures
        settlement_price(instrument, underlying_price, true) matches Some(price)
            ==> price.mantissa >= 0,
{
    if let Some(strike) = instrument.strike_price {
        if let Some(value) = intrinsic_value(instrument, strike, underlying_price) {
            let gain = if instrument.option_kind == Some(OptionKind::Call) {
                difference(underlying_price.amount(), strike.amount())
            } else {
                difference(strike.amount(), underlying_price.amount())
            };
            lemma_maximum_with_zero(gain->0);
            lemma_rounded_keeps_sign(value, strike.precision as int);
        }
    }
}

/// A positive settlement price in cash goes with exercise. Where the underlying's price is
/// not finer than the strike, so that nothing is rounded, an option is exercised exactly
/// where its settlement price in cash is positive.
pub proof fn law_a_positive_cash_price_goes_with_exercise(
    instrument: InstrumentView,
    strike: Price,
    underlying_price: Price,
    price: Price,
)
    requires
        instrument.strike_price == Some(strike),
        instrument.option_kind is Some,
        is_cash_price(instrument, underlying_price, price),
    ensures
        price.mantissa > 0 ==> in_the_money(instrument, underlying_price),
        underlying_price.precision <= strike.precision ==> (price.mantissa > 0 <==> in_the_money(
            instrument,
            underlying_price,
        )),
{
}

/// Of a call and a put with one strike, the settlement prices in cash are not negative, at
/// most one is positive, both have the strike's precision, and the call's less the put's is
/// the underlying's price less the strike, where the underlying's price is not finer than
/// the strike. By delivery, both settle at the strike at every price of the underlying.
pub proof fn law_call_less_put_is_spot_less_strike(
    call: InstrumentView,
    put: InstrumentView,
    strike: Price,
    underlying_price: Price,
    call_price: Price,
    put_price: Price,
)
    requires
        call.option_kind == Some(OptionKind::Call),
        put.option_kind == Some(OptionKind::Put),
        call.strike_price == Some(strike),
        put.strike_price == Some(strike),
        underlying_price.precision <= strike.precision,
        is_cash_price(call, underlying_price, call_price),
        is_cash_price(put, underlying_price, put_price),
    ensures
        call_price.mantissa >= 0,
        put_price.mantissa >= 0,
        call_price.mantissa == 0 || put_price.mantissa == 0,
        call_price.precision == strike.precision,
        put_price.precision == strike.precision,
        call_price.mantissa - put_price.mantissa == underlying_price.amount().at_scale(
            strike.precision as int,
        ) - strike.mantissa,
        settlement_price(call, underlying_price, false) == Some(strike),
        settlement_price(put, underlying_price, false) == Some(strike),
{
    assert(strike.amount().at_scale(strike.precision as int) == strike.mantissa) by {
        reveal(vstd::arithmetic::power::pow);
        assert(pow10(0) == 1);
    }
}

} // verus!
