//! What an attempt asks for at each stage, and what it makes of the answer.
#[allow(unused_imports)]
use vstd::arithmetic::power::pow;
use vstd::prelude::*;

#[allow(unused_imports)]
use crate::amounts::Price;
#[allow(unused_imports)]
use crate::apply::{
    accounts_after, apply_request, apply_step, ApplyNextView, ApplyPhase, ApplyView,
};
#[allow(unused_imports)]
use crate::attempt::{law_pending_deliveries_are_completed, Attempt};
#[allow(unused_imports)]
use crate::engine::after_retry;
#[allow(unused_imports)]
use crate::errors::ErrorView;
#[allow(unused_imports)]
use crate::expiry::{
    delivery_fill, expiry_step, first_stage, next_pending, pending_delivery, request_of, StageView,
};
#[allow(unused_imports)]
use crate::faults::{exercise_fault, positions_fault, SettlementFault};
#[allow(unused_imports)]
use crate::model::{
    InstrumentView, LiquiditySide, MoneyView, OptionKind, OrderStatus, OrderView, PositionView,
    Text, UnixNanos,
};
#[allow(unused_imports)]
use crate::protocol::{EventView, OutcomeView, ReplyView, RequestView};
#[allow(unused_imports)]
use crate::terms::{deterministic_ids, is_plan, EngineView, IdsView};
#[allow(unused_imports)]
use crate::uuids::is_random_uuid_text;

verus! {

/// An attempt begins with all positions, or with the open ones where identifiers are random.
pub proof fn law_where_an_attempt_begins(engine: EngineView)
    ensures
        first_stage(engine) is OpenPositions <==> engine.use_random_ids,
        first_stage(engine) is AllPositions <==> !engine.use_random_ids,
{
}

/// The price of an underlying is asked for under its identifier: the level of an index where
/// the underlying is one, and the last traded price where it is not, whatever the option.
pub proof fn law_an_index_is_asked_for_its_level(
    engine: EngineView,
    positions: Seq<PositionView>,
    underlying: InstrumentView,
    underlying_id: Text,
)
    ensures
        ({
            let request = request_of(
                engine,
                StageView::UnderlyingPrice { positions, underlying, underlying_id },
            );
            &&& request == (RequestView::IndexPrice { instrument_id: underlying_id })
                <==> underlying.is_index
            &&& request == (RequestView::LastPrice { instrument_id: underlying_id })
                <==> !underlying.is_index
        }),
{
}

/// Positions, all or open, are asked for under the identifier of the option.
pub proof fn law_positions_in_the_option_are_asked_for(engine: EngineView)
    ensures
        request_of(engine, StageView::AllPositions) == (RequestView::Positions {
            instrument_id: engine.instrument.id,
        }),
        request_of(engine, StageView::OpenPositions) == (RequestView::OpenPositions {
            instrument_id: engine.instrument.id,
        }),
{
}

/// The two settlement orders of a closed position are asked for under their client order
/// identifiers.
pub proof fn law_settlement_orders_are_asked_for(
    engine: EngineView,
    positions: Seq<PositionView>,
    index: int,
    close_id: Text,
    open_ids: IdsView,
)
    ensures
        request_of(engine, StageView::PendingOrders { positions, index, close_id, open_ids }) == (
        RequestView::SettlementOrders { close_id, open_id: open_ids.client_order_id }),
{
}

/// The instrument of a pending delivery is that of its order; the underlying is asked for
/// under the identifier that was made for it.
pub proof fn law_instruments_are_asked_for(
    engine: EngineView,
    positions: Seq<PositionView>,
    index: int,
    order: OrderView,
    open_ids: IdsView,
    underlying_id: Text,
)
    ensures
        request_of(engine, StageView::PendingInstrument { positions, index, order, open_ids }) == (
        RequestView::Instrument { instrument_id: order.instrument_id }),
        request_of(engine, StageView::Underlying { positions, underlying_id }) == (
        RequestView::Instrument { instrument_id: underlying_id }),
{
}

/// The clock is read once for each leg: twice for each position that is exercised by
/// delivery, and once for each other.
pub proof fn law_the_clock_is_read_for_each_leg(
    engine: EngineView,
    positions: Seq<PositionView>,
    underlying: InstrumentView,
    price: Price,
    exercise: bool,
)
    ensures
        request_of(engine, StageView::Clock { positions, underlying, price, exercise }) == (
        RequestView::Clock {
            readings: if exercise && !underlying.is_index {
                2 * positions.len() as int
            } else {
                positions.len() as int
            },
        }),
{
}

/// Applying a plan asks for what its run asks for, and a finished attempt for nothing.
pub proof fn law_runs_and_ends_ask_for_their_own(
    engine: EngineView,
    run: ApplyView,
    outcome: OutcomeView,
)
    ensures
        request_of(engine, StageView::Applying(run)) == apply_request(run),
        request_of(engine, StageView::Finished(outcome)) == RequestView::Nothing,
{
}

/// The next closed position is the first that is closed, from `from` on; its settlement
/// orders are looked for under the identifiers of its two legs. Where there is none, the open
/// positions follow. A closed position of an option without an expiration is a fault.
pub proof fn law_the_next_closed_position_follows(
    engine: EngineView,
    positions: Seq<PositionView>,
    from: int,
    index: int,
)
    requires
        0 <= from <= index <= positions.len(),
        forall|k: int| from <= k < index ==> !(#[trigger] positions[k]).closed,
        index < positions.len() ==> positions[index].closed,
    ensures
        next_pending(engine, positions, from) == if index == positions.len() {
            StageView::OpenPositions
        } else if engine.instrument.expiration_ns is None {
            StageView::Finished(OutcomeView::Fault(SettlementFault::MissingExpiration))
        } else {
            StageView::PendingOrders {
                positions,
                index,
                close_id: deterministic_ids(
                    engine,
                    positions[index],
                    "physical-close"@,
                ).client_order_id,
                open_ids: deterministic_ids(engine, positions[index], "physical-open"@),
            }
        },
    decreases index - from,
{
    if from < index {
        assert(!positions[from].closed);
        law_the_next_closed_position_follows(engine, positions, from + 1, index);
    }
}

/// A delivery is pending exactly where the closing order is filled and the opening order is
/// there and not filled, whatever else the two orders are.
pub proof fn law_a_delivery_is_pending_by_two_statuses(
    close: Option<OrderView>,
    open: Option<OrderView>,
)
    ensures
        pending_delivery(close, open) is Some <==> close is Some && open is Some && close->0.status
            == OrderStatus::Filled && open->0.status != OrderStatus::Filled,
        pending_delivery(close, open) is Some ==> pending_delivery(close, open) == open,
{
}

/// An attempt that was given all positions goes on with the first closed one, without any
/// effect.
pub proof fn law_all_positions_are_answered(
    engine: EngineView,
    ts_now: UnixNanos,
    positions: Seq<PositionView>,
    engine_after: EngineView,
    stage_after: StageView,
    events: Seq<EventView>,
)
    requires
        expiry_step(
            engine,
            ts_now,
            StageView::AllPositions,
            ReplyView::Positions(positions),
            engine_after,
            stage_after,
            events,
        ),
    ensures
        engine_after == engine,
        events.len() == 0,
        stage_after == next_pending(engine, positions, 0),
{
}

/// Where the closing order of a closed position is filled and its opening order is not, the
/// instrument of the opening order is asked for next; where not, the next closed position
/// follows. Neither has an effect.
pub proof fn law_settlement_orders_are_answered(
    engine: EngineView,
    ts_now: UnixNanos,
    positions: Seq<PositionView>,
    index: int,
    close_id: Text,
    open_ids: IdsView,
    close: Option<OrderView>,
    open: Option<OrderView>,
    engine_after: EngineView,
    stage_after: StageView,
    events: Seq<EventView>,
)
    requires
        expiry_step(
            engine,
            ts_now,
            StageView::PendingOrders { positions, index, close_id, open_ids },
            ReplyView::SettlementOrders { close, open },
            engine_after,
            stage_after,
            events,
        ),
    ensures
        engine_after == engine,
        events.len() == 0,
        match (close, open) {
            (Some(closing), Some(opening)) => if closing.status == OrderStatus::Filled
                && opening.status != OrderStatus::Filled {
                stage_after == (StageView::PendingInstrument {
                    positions,
                    index,
                    order: opening,
                    open_ids,
                })
            } else {
                stage_after == next_pending(engine, positions, index + 1)
            },
            _ => stage_after == next_pending(engine, positions, index + 1),
        },
{
}

/// The fill of a pending delivery is that of its order, for all of it, at the strike: under
/// the order's own venue order identifier or, where it has none, the planned one, in the
/// currency of the underlying and without commission, for the position's account.
pub proof fn law_the_fill_of_a_pending_delivery(
    engine: EngineView,
    position: PositionView,
    underlying: InstrumentView,
    order: OrderView,
    open_ids: IdsView,
    event_id: Text,
    ts_now: UnixNanos,
    strike: Price,
)
    requires
        engine.instrument.strike_price == Some(strike),
    ensures
        ({
            let fill = delivery_fill(
                engine,
                position,
                underlying,
                order,
                open_ids,
                event_id,
                ts_now,
            );
            &&& fill.trader_id == order.trader_id
            &&& fill.strategy_id == order.strategy_id
            &&& fill.instrument_id == order.instrument_id
            &&& fill.client_order_id == order.client_order_id
            &&& order.venue_order_id is Some ==> fill.venue_order_id == order.venue_order_id->0
            &&& order.venue_order_id is None ==> fill.venue_order_id == open_ids.venue_order_id
            &&& fill.account_id == position.account_id
            &&& fill.trade_id == open_ids.trade_id
            &&& fill.order_side == order.order_side
            &&& fill.order_type == order.order_type
            &&& fill.last_qty == order.quantity
            &&& fill.last_px == strike
            &&& fill.currency == underlying.quote_currency
            &&& fill.liquidity_side == LiquiditySide::Taker
            &&& fill.event_id == event_id
            &&& fill.ts_event == ts_now
            &&& fill.ts_init == ts_now
            &&& !fill.reconciliation
            &&& fill.position_id is None
            &&& fill.commission == Some(
                MoneyView { units: 0, currency: underlying.quote_currency },
            )
        }),
{
}

/// A pending delivery is completed at the strike for the whole order, whatever its side and
/// amount: it is accepted where it was only initialized, and then filled under its own venue
/// order identifier or, where it has none, the planned one. The account of the position is
/// recorded, and the next closed position follows.
pub proof fn law_a_pending_delivery_is_filled(
    engine: EngineView,
    ts_now: UnixNanos,
    positions: Seq<PositionView>,
    index: int,
    order: OrderView,
    open_ids: IdsView,
    underlying: InstrumentView,
    strike: Price,
    engine_after: EngineView,
    stage_after: StageView,
    events: Seq<EventView>,
)
    requires
        expiry_step(
            engine,
            ts_now,
            StageView::PendingInstrument { positions, index, order, open_ids },
            ReplyView::Instrument(Some(underlying)),
            engine_after,
            stage_after,
            events,
        ),
        order.status == OrderStatus::Initialized || order.status == OrderStatus::Accepted,
        engine.instrument.strike_price == Some(strike),
    ensures
        engine_after == (EngineView {
            account_ids: engine.account_ids.insert(
                positions[index].trader_id,
                positions[index].account_id,
            ),
            ..engine
        }),
        stage_after == next_pending(engine, positions, index + 1),
        events.last() is Filled,
        ({
            let venue_order_id = if order.venue_order_id is Some {
                order.venue_order_id->0
            } else {
                open_ids.venue_order_id
            };
            let fill = events.last()->Filled_0;
            &&& order.status == OrderStatus::Initialized ==> events.len() == 2 && events[0] == (
            EventView::Accepted { order, venue_order_id })
            &&& order.status == OrderStatus::Accepted ==> events.len() == 1
            &&& fill.trader_id == order.trader_id
            &&& fill.strategy_id == order.strategy_id
            &&& fill.instrument_id == order.instrument_id
            &&& fill.client_order_id == order.client_order_id
            &&& fill.venue_order_id == venue_order_id
            &&& fill.account_id == positions[index].account_id
            &&& fill.trade_id == open_ids.trade_id
            &&& fill.order_side == order.order_side
            &&& fill.order_type == order.order_type
            &&& fill.last_qty == order.quantity
            &&& fill.last_px == strike
            &&& fill.currency == underlying.quote_currency
            &&& fill.liquidity_side == LiquiditySide::Taker
            &&& is_random_uuid_text(fill.event_id)
            &&& fill.ts_event == ts_now
            &&& fill.ts_init == ts_now
            &&& !fill.reconciliation
            &&& fill.position_id is None
            &&& fill.commission == Some(
                MoneyView { units: 0, currency: underlying.quote_currency },
            )
        }),
{
    if order.status == OrderStatus::Initialized {
        assert(events.drop_last()[0] == events[0]);
    }
}

/// A pending delivery in any other status fails the attempt, and one of an option without a
/// strike is a fault, behind the acceptance of the order where it was only initialized.
/// Either way the account of the position is recorded. A delivery without its instrument is
/// tried again, and nothing else happens.
pub proof fn law_a_pending_delivery_that_cannot_be_filled(
    engine: EngineView,
    ts_now: UnixNanos,
    positions: Seq<PositionView>,
    index: int,
    order: OrderView,
    open_ids: IdsView,
    instrument: Option<InstrumentView>,
    engine_after: EngineView,
    stage_after: StageView,
    events: Seq<EventView>,
)
    requires
        expiry_step(
            engine,
            ts_now,
            StageView::PendingInstrument { positions, index, order, open_ids },
            ReplyView::Instrument(instrument),
            engine_after,
            stage_after,
            events,
        ),
    ensures
        instrument is None ==> {
            &&& stage_after == StageView::Finished(OutcomeView::Retry)
            &&& events.len() == 0
            &&& engine_after == after_retry(
                engine,
                "missing-underlying-instrument"@,
                "No underlying instrument "@ + order.instrument_id
                    + " for pending physical option settlement "@ + order.client_order_id,
            )
        },
        instrument is Some ==> engine_after == (EngineView {
            account_ids: engine.account_ids.insert(
                positions[index].trader_id,
                positions[index].account_id,
            ),
            ..engine
        }),
        instrument is Some && order.status != OrderStatus::Initialized && order.status
            != OrderStatus::Accepted ==> {
            &&& events.len() == 0
            &&& stage_after == StageView::Finished(
                OutcomeView::Failed(
                    ErrorView::CannotResume {
                        client_order_id: order.client_order_id,
                        status: order.status,
                    },
                ),
            )
        },
        instrument is Some && engine.instrument.strike_price is None && order.status
            == OrderStatus::Accepted ==> {
            &&& events.len() == 0
            &&& stage_after == StageView::Finished(
                OutcomeView::Fault(SettlementFault::MissingDeliveryStrike),
            )
        },
        instrument is Some && engine.instrument.strike_price is None && order.status
            == OrderStatus::Initialized ==> {
            &&& events.len() == 1
            &&& events[0] == (EventView::Accepted {
                order,
                venue_order_id: if order.venue_order_id is Some {
                    order.venue_order_id->0
                } else {
                    open_ids.venue_order_id
                },
            })
            &&& stage_after == StageView::Finished(
                OutcomeView::Fault(SettlementFault::MissingDeliveryStrike),
            )
        },
{
}

/// Without open positions, an attempt is complete. With some, the underlying is looked up at
/// the engine's venue; an option without an underlying is tried again.
pub proof fn law_open_positions_are_answered(
    engine: EngineView,
    ts_now: UnixNanos,
    positions: Seq<PositionView>,
    engine_after: EngineView,
    stage_after: StageView,
    events: Seq<EventView>,
)
    requires
        expiry_step(
            engine,
            ts_now,
            StageView::OpenPositions,
            ReplyView::Positions(positions),
            engine_after,
            stage_after,
            events,
        ),
    ensures
        events.len() == 0,
        positions.len() == 0 ==> engine_after == engine && stage_after == StageView::Finished(
            OutcomeView::Complete,
        ),
        positions.len() > 0 ==> match engine.instrument.underlying {
            Some(underlying) => {
                &&& engine_after == engine
                &&& stage_after == (StageView::Underlying {
                    positions,
                    underlying_id: underlying + "."@ + engine.venue,
                })
            },
            None => {
                &&& stage_after == StageView::Finished(OutcomeView::Retry)
                &&& engine_after == after_retry(
                    engine,
                    "missing-underlying"@,
                    "No underlying for option "@ + engine.instrument.id,
                )
            },
        },
{
}

/// The price of the underlying instrument is asked for next; without the instrument, the
/// attempt is tried again.
pub proof fn law_the_underlying_is_answered(
    engine: EngineView,
    ts_now: UnixNanos,
    positions: Seq<PositionView>,
    underlying_id: Text,
    instrument: Option<InstrumentView>,
    engine_after: EngineView,
    stage_after: StageView,
    events: Seq<EventView>,
)
    requires
        expiry_step(
            engine,
            ts_now,
            StageView::Underlying { positions, underlying_id },
            ReplyView::Instrument(instrument),
            engine_after,
            stage_after,
            events,
        ),
    ensures
        events.len() == 0,
        match instrument {
            Some(underlying) => {
                &&& engine_after == engine
                &&& stage_after == (StageView::UnderlyingPrice {
                    positions,
                    underlying,
                    underlying_id,
                })
            },
            None => {
                &&& stage_after == StageView::Finished(OutcomeView::Retry)
                &&& engine_after == after_retry(
                    engine,
                    "missing-underlying-instrument"@,
                    "No underlying instrument for option "@ + engine.instrument.id,
                )
            },
        },
{
}

/// At the price of the underlying, the same positions are exercised exactly where a call's
/// strike is below the price or a put's is above; an amount that is no decimal number is a
/// fault. Without the price, the attempt is tried again.
pub proof fn law_the_price_is_answered(
    engine: EngineView,
    ts_now: UnixNanos,
    positions: Seq<PositionView>,
    underlying: InstrumentView,
    underlying_id: Text,
    price: Option<Price>,
    engine_after: EngineView,
    stage_after: StageView,
    events: Seq<EventView>,
)
    requires
        expiry_step(
            engine,
            ts_now,
            StageView::UnderlyingPrice { positions, underlying, underlying_id },
            ReplyView::Price(price),
            engine_after,
            stage_after,
            events,
        ),
    ensures
        events.len() == 0,
        match price {
            None => {
                &&& stage_after == StageView::Finished(OutcomeView::Retry)
                &&& engine_after == after_retry(
                    engine,
                    "missing-underlying-price"@,
                    "No underlying price for option "@ + engine.instrument.id,
                )
            },
            Some(spot) => {
                &&& engine_after == engine
                &&& match exercise_fault(engine.instrument, spot) {
                    Some(fault) => stage_after == StageView::Finished(OutcomeView::Fault(fault)),
                    None => {
                        let exercise = match (
                            engine.instrument.strike_price,
                            engine.instrument.option_kind,
                        ) {
                            (Some(strike), Some(OptionKind::Call)) => spot.mantissa * pow(
                                10,
                                strike.precision as nat,
                            ) > strike.mantissa * pow(10, spot.precision as nat),
                            (Some(strike), Some(OptionKind::Put)) => spot.mantissa * pow(
                                10,
                                strike.precision as nat,
                            ) < strike.mantissa * pow(10, spot.precision as nat),
                            _ => false,
                        };
                        stage_after == (StageView::Clock {
                            positions,
                            underlying,
                            price: spot,
                            exercise,
                        })
                    },
                }
            },
        },
{
}

/// With one reading of the clock for each leg, the positions are settled by a plan whose
/// first leg is registered next, or the fault of the first that cannot be settled ends the
/// attempt; with more or fewer readings, nothing happens. Planning has no effect.
pub proof fn law_the_clock_is_answered(
    engine: EngineView,
    ts_now: UnixNanos,
    positions: Seq<PositionView>,
    underlying: InstrumentView,
    price: Price,
    exercise: bool,
    clock: Seq<UnixNanos>,
    engine_after: EngineView,
    stage_after: StageView,
    events: Seq<EventView>,
)
    requires
        expiry_step(
            engine,
            ts_now,
            StageView::Clock { positions, underlying, price, exercise },
            ReplyView::Clock(clock),
            engine_after,
            stage_after,
            events,
        ),
    ensures
        engine_after == engine,
        events.len() == 0,
        ({
            let readings = if exercise && !underlying.is_index {
                2 * positions.len() as int
            } else {
                positions.len() as int
            };
            let fault = positions_fault(
                engine,
                positions,
                underlying,
                price,
                exercise,
                engine.instrument_close,
            );
            if clock.len() != readings {
                stage_after == (StageView::Clock { positions, underlying, price, exercise })
            } else if fault is Some {
                stage_after == StageView::Finished(OutcomeView::Fault(fault->0))
            } else if positions.len() == 0 {
                stage_after == StageView::Finished(OutcomeView::Complete)
            } else {
                &&& stage_after is Applying
                &&& stage_after->Applying_0.phase == ApplyPhase::Register
                &&& stage_after->Applying_0.index == 0
                &&& is_plan(
                    engine,
                    positions,
                    underlying,
                    price,
                    exercise,
                    ts_now,
                    engine.instrument_close,
                    clock,
                    stage_after->Applying_0.legs,
                )
            }
        }),
{
}

/// Where a plan is applied, an attempt does what the run does: it gives out its events, goes
/// where it goes, ends as it ends, and records its accounts.
pub proof fn law_a_plan_is_applied_by_its_run(
    engine: EngineView,
    ts_now: UnixNanos,
    run: ApplyView,
    reply: ReplyView,
    engine_after: EngineView,
    stage_after: StageView,
    events: Seq<EventView>,
)
    requires
        expiry_step(
            engine,
            ts_now,
            StageView::Applying(run),
            reply,
            engine_after,
            stage_after,
            events,
        ),
    ensures
        events == apply_step(run, reply).1,
        engine_after == (EngineView {
            account_ids: accounts_after(engine.account_ids, run, reply),
            ..engine
        }),
        match apply_step(run, reply).0 {
            ApplyNextView::Running(next) => stage_after == StageView::Applying(next),
            ApplyNextView::Over(outcome) => stage_after == StageView::Finished(outcome),
        },
{
}

/// An answer of another kind than was asked for changes nothing.
pub proof fn law_another_answer_changes_nothing(
    engine: EngineView,
    ts_now: UnixNanos,
    stage: StageView,
    reply: ReplyView,
    engine_after: EngineView,
    stage_after: StageView,
    events: Seq<EventView>,
)
    requires
        expiry_step(engine, ts_now, stage, reply, engine_after, stage_after, events),
        match stage {
            StageView::AllPositions | StageView::OpenPositions => reply !is Positions,
            StageView::PendingOrders { .. } => reply !is SettlementOrders,
            StageView::PendingInstrument { .. } | StageView::Underlying { .. } => reply
                !is Instrument,
            StageView::UnderlyingPrice { .. } => reply !is Price,
            StageView::Clock { .. } => reply !is Clock,
            StageView::Applying(run) => match run.phase {
                ApplyPhase::Add | ApplyPhase::Claim => reply !is Stored,
                _ => reply !is Order,
            },
            StageView::Finished(_) => true,
        },
    ensures
        engine_after == engine,
        stage_after == stage,
        events.len() == 0,
{
}

/// An attempt that comes to the open positions, so also one that is complete, has filled
/// every opening order that it was shown as not filled beside a filled closing order,
/// whatever the order's side, instrument and amount: for the whole amount, at the strike.
pub proof fn law_no_shown_delivery_is_passed_over(
    attempt: Attempt,
    asked: int,
    closing: OrderView,
    opening: OrderView,
    n: int,
)
    requires
        attempt.wf(),
        0 <= asked < n <= attempt.replies.len(),
        attempt.stages[asked] is PendingOrders,
        attempt.replies[asked] == (ReplyView::SettlementOrders {
            close: Some(closing),
            open: Some(opening),
        }),
        closing.status == OrderStatus::Filled,
        opening.status != OrderStatus::Filled,
        match attempt.stages[n] {
            StageView::OpenPositions => true,
            StageView::Underlying { .. } | StageView::UnderlyingPrice { .. } => true,
            StageView::Clock { .. } | StageView::Applying(_) => true,
            StageView::Finished(outcome) => outcome is Complete,
            _ => false,
        },
    ensures
        exists|m: int|
            {
                &&& asked < m < n
                &&& (#[trigger] attempt.events[m]).len() > 0
                &&& attempt.events[m].last() is Filled
                &&& attempt.events[m].last()->Filled_0.client_order_id == opening.client_order_id
                &&& attempt.events[m].last()->Filled_0.instrument_id == opening.instrument_id
                &&& attempt.events[m].last()->Filled_0.order_side == opening.order_side
                &&& attempt.events[m].last()->Filled_0.last_qty == opening.quantity
                &&& Some(attempt.events[m].last()->Filled_0.last_px)
                    == attempt.engines[m].instrument.strike_price
                &&& opening.status == OrderStatus::Initialized ==> attempt.events[m].len() == 2
                    && attempt.events[m][0] is Accepted && attempt.events[m][0]->Accepted_order
                    == opening
            },
{
    law_pending_deliveries_are_completed(attempt, asked, opening, n);
    let m = choose|m: int| asked < m < n && #[trigger] attempt.delivers_at(m, opening);
    assert(attempt.events[m].len() > 0);
}

} // verus!
