//! The whole course of an option's expiry: pending deliveries of an earlier attempt are
//! completed, then the open positions are settled.
//!
//! A run asks its host for one thing at a time and takes in the answer. What it decides
//! depends on the engine, the run and the answer alone.
use vstd::prelude::*;
use vstd::string::StringExecFns;

use crate::amounts::Price;
use crate::apply::{ApplyNext, ApplyRun};
use crate::engine::OrderMatchingEngine;
use crate::errors::SettlementError;
use crate::faults::SettlementFault;
use crate::model::{
    clone_optional_text, InstrumentAny, LiquiditySide, Money, OptionSettlementPlan, OrderAny,
    OrderFilled, OrderStatus, Position, UnixNanos,
};
use crate::protocol::{Event, Outcome, Reply, Request};
use crate::uuids::random_uuid;
#[allow(unused_imports)]
use crate::apply::{
    accounts_after, apply_from, apply_request, apply_step, ApplyNextView, ApplyPhase, ApplyView,
};
#[allow(unused_imports)]
use crate::engine::after_retry;
#[allow(unused_imports)]
use crate::errors::ErrorView;
#[allow(unused_imports)]
use crate::faults::{exercise_fault, positions_fault};
#[allow(unused_imports)]
use crate::model::{
    order_view, position_views, FillView, InstrumentView, LegView, MoneyView, OrderView,
    PositionView, Text,
};
#[allow(unused_imports)]
use crate::protocol::{event_views, EventView, OutcomeView, ReplyView, RequestView};
#[allow(unused_imports)]
use crate::terms::{
    deterministic_ids, ids_view, in_the_money, is_plan, legs_per_position, EngineView, IdsView,
};
#[allow(unused_imports)]
use crate::uuids::is_random_uuid_text;

verus! {

/// Where a run stands: the answer that it waits for, and what it knows so far.
#[derive(Debug)]
enum Stage {
    /// All positions.
    AllPositions,
    /// The settlement orders of the closed position at `index`.
    PendingOrders {
        positions: Vec<Position>,
        index: usize,
        close_id: String,
        open_ids: (String, String, String),
    },
    /// The instrument of the pending delivery of the position at `index`.
    PendingInstrument {
        positions: Vec<Position>,
        index: usize,
        order: OrderAny,
        open_ids: (String, String, String),
    },
    /// The open positions.
    OpenPositions,
    /// The underlying instrument.
    Underlying { positions: Vec<Position>, underlying_id: String },
    /// The price of the underlying.
    UnderlyingPrice { positions: Vec<Position>, underlying: InstrumentAny, underlying_id: String },
    /// The clock.
    Clock { positions: Vec<Position>, underlying: InstrumentAny, price: Price, exercise: bool },
    /// What applying the plan asks for.
    Applying(ApplyRun),
    /// Nothing.
    Finished(Outcome),
}

/// The view of where a run stands.
pub enum StageView {
    AllPositions,
    PendingOrders { positions: Seq<PositionView>, index: int, close_id: Text, open_ids: IdsView },
    PendingInstrument {
        positions: Seq<PositionView>,
        index: int,
        order: OrderView,
        open_ids: IdsView,
    },
    OpenPositions,
    Underlying { positions: Seq<PositionView>, underlying_id: Text },
    UnderlyingPrice {
        positions: Seq<PositionView>,
        underlying: InstrumentView,
        underlying_id: Text,
    },
    Clock {
        positions: Seq<PositionView>,
        underlying: InstrumentView,
        price: Price,
        exercise: bool,
    },
    Applying(ApplyView),
    Finished(OutcomeView),
}

impl View for Stage {
    type V = StageView;

    closed spec fn view(&self) -> StageView {
        match self {
            Stage::AllPositions => StageView::AllPositions,
            Stage::PendingOrders { positions, index, close_id, open_ids } =>
                StageView::PendingOrders {
                positions: position_views(positions@),
                index: *index as int,
                close_id: close_id@,
                open_ids: ids_view(*open_ids),
            },
            Stage::PendingInstrument { positions, index, order, open_ids } =>
                StageView::PendingInstrument {
                positions: position_views(positions@),
                index: *index as int,
                order: order@,
                open_ids: ids_view(*open_ids),
            },
            Stage::OpenPositions => StageView::OpenPositions,
            Stage::Underlying { positions, underlying_id } => StageView::Underlying {
                positions: position_views(positions@),
                underlying_id: underlying_id@,
            },
            Stage::UnderlyingPrice { positions, underlying, underlying_id } =>
                StageView::UnderlyingPrice {
                positions: position_views(positions@),
                underlying: underlying@,
                underlying_id: underlying_id@,
            },
            Stage::Clock { positions, underlying, price, exercise } => StageView::Clock {
                positions: position_views(positions@),
                underlying: underlying@,
                price: *price,
                exercise: *exercise,
            },
            Stage::Applying(run) => StageView::Applying(run@),
            Stage::Finished(outcome) => StageView::Finished(outcome@),
        }
    }
}

/// One attempt to settle an option's expiry.
#[derive(Debug)]
pub struct ExpiryRun {
    ts_now: UnixNanos,
    stage: Stage,
}

/// The view of an [`ExpiryRun`].
pub struct ExpiryView {
    pub ts_now: UnixNanos,
    pub stage: StageView,
}

impl View for ExpiryRun {
    type V = ExpiryView;

    closed spec fn view(&self) -> ExpiryView {
        ExpiryView { ts_now: self.ts_now, stage: self.stage@ }
    }
}

/// Where a run begins. Pending deliveries are found by the identifiers that they were
/// planned under, so with random identifiers none can be looked for.
pub open spec fn first_stage(engine: EngineView) -> StageView {
    if engine.use_random_ids {
        StageView::OpenPositions
    } else {
        StageView::AllPositions
    }
}

/// Where a run goes on that has dealt with the pending deliveries of all positions before
/// `from`: to the next closed position, or to the open positions.
pub open spec fn next_pending(
    engine: EngineView,
    positions: Seq<PositionView>,
    from: int,
) -> StageView
    decreases positions.len() - from,
{
    if from >= positions.len() {
        StageView::OpenPositions
    } else if !positions[from].closed {
        next_pending(engine, positions, from + 1)
    } else if engine.instrument.expiration_ns is None {
        StageView::Finished(OutcomeView::Fault(SettlementFault::MissingExpiration))
    } else {
        StageView::PendingOrders {
            positions,
            index: from,
            close_id: deterministic_ids(
                engine,
                positions[from],
                "physical-close"@,
            ).client_order_id,
            open_ids: deterministic_ids(engine, positions[from], "physical-open"@),
        }
    }
}

/// The delivery that is pending where the option was closed and the underlying not opened.
pub open spec fn pending_delivery(
    close: Option<OrderView>,
    open: Option<OrderView>,
) -> Option<OrderView> {
    if close is Some && close->0.status == OrderStatus::Filled && open is Some
        && open->0.status != OrderStatus::Filled {
        open
    } else {
        None
    }
}

/// The venue order identifier of a pending delivery: the order's own, or the planned one.
pub open spec fn delivery_venue_order_id(order: OrderView, open_ids: IdsView) -> Text {
    match order.venue_order_id {
        Some(venue_order_id) => venue_order_id,
        None => open_ids.venue_order_id,
    }
}

/// The fill that completes a pending delivery.
pub open spec fn delivery_fill(
    engine: EngineView,
    position: PositionView,
    underlying: InstrumentView,
    order: OrderView,
    open_ids: IdsView,
    event_id: Text,
    ts_now: UnixNanos,
) -> FillView {
    FillView {
        trader_id: order.trader_id,
        strategy_id: order.strategy_id,
        instrument_id: order.instrument_id,
        client_order_id: order.client_order_id,
        venue_order_id: delivery_venue_order_id(order, open_ids),
        account_id: position.account_id,
        trade_id: open_ids.trade_id,
        order_side: order.order_side,
        order_type: order.order_type,
        last_qty: order.quantity,
        last_px: engine.instrument.strike_price->0,
        currency: underlying.quote_currency,
        liquidity_side: LiquiditySide::Taker,
        event_id,
        ts_event: ts_now,
        ts_init: ts_now,
        reconciliation: false,
        position_id: None,
        commission: Some(MoneyView { units: 0, currency: underlying.quote_currency }),
    }
}

/// The acceptance of a pending delivery that was not accepted yet.
pub open spec fn delivery_acceptance(order: OrderView, open_ids: IdsView) -> Seq<EventView> {
    if order.status == OrderStatus::Initialized {
        seq![
            EventView::Accepted {
                order,
                venue_order_id: delivery_venue_order_id(order, open_ids),
            },
        ]
    } else {
        seq![]
    }
}

/// How a pending delivery is completed: it is accepted if it was not, and filled; then the
/// run goes on to `go_on`. It ends there where the order is in another status.
pub open spec fn completes_delivery(
    engine: EngineView,
    position: PositionView,
    underlying: InstrumentView,
    order: OrderView,
    open_ids: IdsView,
    ts_now: UnixNanos,
    go_on: StageView,
    stage_after: StageView,
    events: Seq<EventView>,
) -> bool {
    let acceptance = delivery_acceptance(order, open_ids);
    if order.status != OrderStatus::Initialized && order.status != OrderStatus::Accepted {
        &&& stage_after == StageView::Finished(
            OutcomeView::Failed(
                ErrorView::CannotResume {
                    client_order_id: order.client_order_id,
                    status: order.status,
                },
            ),
        )
        &&& events == Seq::<EventView>::empty()
    } else if engine.instrument.strike_price is None {
        &&& stage_after == StageView::Finished(
            OutcomeView::Fault(SettlementFault::MissingDeliveryStrike),
        )
        &&& events == acceptance
    } else {
        &&& stage_after == go_on
        &&& events.len() == acceptance.len() + 1
        &&& events.drop_last() == acceptance
        &&& events.last() matches EventView::Filled(fill) && {
            &&& is_random_uuid_text(fill.event_id)
            &&& fill == delivery_fill(
                engine,
                position,
                underlying,
                order,
                open_ids,
                fill.event_id,
                ts_now,
            )
        }
    }
}

/// The engine after a delivery's account was recorded.
pub open spec fn with_account(engine: EngineView, position: PositionView) -> EngineView {
    EngineView {
        account_ids: engine.account_ids.insert(position.trader_id, position.account_id),
        ..engine
    }
}

/// The identifier of the underlying instrument at the engine's venue.
pub open spec fn underlying_id_of(engine: EngineView, underlying: Text) -> Text {
    underlying + "."@ + engine.venue
}

/// What a run asks for.
pub open spec fn request_of(engine: EngineView, stage: StageView) -> RequestView {
    match stage {
        StageView::AllPositions => RequestView::Positions { instrument_id: engine.instrument.id },
        StageView::PendingOrders { close_id, open_ids, .. } => RequestView::SettlementOrders {
            close_id,
            open_id: open_ids.client_order_id,
        },
        StageView::PendingInstrument { order, .. } => RequestView::Instrument {
            instrument_id: order.instrument_id,
        },
        StageView::OpenPositions => RequestView::OpenPositions {
            instrument_id: engine.instrument.id,
        },
        StageView::Underlying { underlying_id, .. } => RequestView::Instrument {
            instrument_id: underlying_id,
        },
        StageView::UnderlyingPrice { underlying, underlying_id, .. } => if underlying.is_index {
            RequestView::IndexPrice { instrument_id: underlying_id }
        } else {
            RequestView::LastPrice { instrument_id: underlying_id }
        },
        StageView::Clock { positions, underlying, exercise, .. } => RequestView::Clock {
            readings: legs_per_position(exercise, underlying) * positions.len(),
        },
        StageView::Applying(run) => apply_request(run),
        StageView::Finished(_) => RequestView::Nothing,
    }
}

/// Where a run stands that applies a plan.
pub open spec fn applying(next: ApplyNextView) -> StageView {
    match next {
        ApplyNextView::Running(run) => StageView::Applying(run),
        ApplyNextView::Over(outcome) => StageView::Finished(outcome),
    }
}

/// The engine and the stage before an answer, and the engine, the stage and the events after
/// it, where something that settlement needs is not known yet.
pub open spec fn retries(
    engine: EngineView,
    reason: Text,
    message: Text,
    engine_after: EngineView,
    stage_after: StageView,
    events: Seq<EventView>,
) -> bool {
    &&& engine_after == after_retry(engine, reason, message)
    &&& stage_after == StageView::Finished(OutcomeView::Retry)
    &&& events == Seq::<EventView>::empty()
}

/// An answer changes nothing but where the run stands.
pub open spec fn moves_to(
    engine: EngineView,
    target: StageView,
    engine_after: EngineView,
    stage_after: StageView,
    events: Seq<EventView>,
) -> bool {
    &&& engine_after == engine
    &&& stage_after == target
    &&& events == Seq::<EventView>::empty()
}

/// What an answer makes of the engine and of a run.
pub open spec fn expiry_step(
    engine: EngineView,
    ts_now: UnixNanos,
    stage: StageView,
    reply: ReplyView,
    engine_after: EngineView,
    stage_after: StageView,
    events: Seq<EventView>,
) -> bool {
    match (stage, reply) {
        (StageView::AllPositions, ReplyView::Positions(positions)) => moves_to(
            engine,
            next_pending(engine, positions, 0),
            engine_after,
            stage_after,
            events,
        ),
        (
            StageView::PendingOrders { positions, index, open_ids, .. },
            ReplyView::SettlementOrders { close, open },
        ) => match pending_delivery(close, open) {
            Some(order) => moves_to(
                engine,
                StageView::PendingInstrument { positions, index, order, open_ids },
                engine_after,
                stage_after,
                events,
            ),
            None => moves_to(
                engine,
                next_pending(engine, positions, index + 1),
                engine_after,
                stage_after,
                events,
            ),
        },
        (StageView::PendingInstrument { order, .. }, ReplyView::Instrument(None)) => retries(
            engine,
            "missing-underlying-instrument"@,
            "No underlying instrument "@ + order.instrument_id
                + " for pending physical option settlement "@ + order.client_order_id,
            engine_after,
            stage_after,
            events,
        ),
        (
            StageView::PendingInstrument { positions, index, order, open_ids },
            ReplyView::Instrument(Some(underlying)),
        ) => {
            &&& engine_after == with_account(engine, positions[index])
            &&& completes_delivery(
                engine,
                positions[index],
                underlying,
                order,
                open_ids,
                ts_now,
                next_pending(engine, positions, index + 1),
                stage_after,
                events,
            )
        },
        (StageView::OpenPositions, ReplyView::Positions(positions)) => if positions.len() == 0 {
            moves_to(
                engine,
                StageView::Finished(OutcomeView::Complete),
                engine_after,
                stage_after,
                events,
            )
        } else {
            match engine.instrument.underlying {
                Some(underlying) => moves_to(
                    engine,
                    StageView::Underlying {
                        positions,
                        underlying_id: underlying_id_of(engine, underlying),
                    },
                    engine_after,
                    stage_after,
                    events,
                ),
                None => retries(
                    engine,
                    "missing-underlying"@,
                    "No underlying for option "@ + engine.instrument.id,
                    engine_after,
                    stage_after,
                    events,
                ),
            }
        },
        (
            StageView::Underlying { positions, underlying_id },
            ReplyView::Instrument(instrument),
        ) => match instrument {
            Some(underlying) => moves_to(
                engine,
                StageView::UnderlyingPrice { positions, underlying, underlying_id },
                engine_after,
                stage_after,
                events,
            ),
            None => retries(
                engine,
                "missing-underlying-instrument"@,
                "No underlying instrument for option "@ + engine.instrument.id,
                engine_after,
                stage_after,
                events,
            ),
        },
        (
            StageView::UnderlyingPrice { positions, underlying, .. },
            ReplyView::Price(price),
        ) => match price {
            Some(price) => moves_to(
                engine,
                match exercise_fault(engine.instrument, price) {
                    Some(fault) => StageView::Finished(OutcomeView::Fault(fault)),
                    None => StageView::Clock {
                        positions,
                        underlying,
                        price,
                        exercise: in_the_money(engine.instrument, price),
                    },
                },
                engine_after,
                stage_after,
                events,
            ),
            None => retries(
                engine,
                "missing-underlying-price"@,
                "No underlying price for option "@ + engine.instrument.id,
                engine_after,
                stage_after,
                events,
            ),
        },
        (
            StageView::Clock { positions, underlying, price, exercise },
            ReplyView::Clock(clock),
        ) => if clock.len() != legs_per_position(exercise, underlying) * positions.len() {
            moves_to(engine, stage, engine_after, stage_after, events)
        } else {
            match positions_fault(
                engine,
                positions,
                underlying,
                price,
                exercise,
                engine.instrument_close,
            ) {
                Some(fault) => moves_to(
                    engine,
                    StageView::Finished(OutcomeView::Fault(fault)),
                    engine_after,
                    stage_after,
                    events,
                ),
                None => exists|legs: Seq<LegView>|
                    {
                        &&& #[trigger] is_plan(
                            engine,
                            positions,
                            underlying,
                            price,
                            exercise,
                            ts_now,
                            engine.instrument_close,
                            clock,
                            legs,
                        )
                        &&& moves_to(
                            engine,
                            applying(apply_from(legs, ApplyPhase::Register, 0)),
                            engine_after,
                            stage_after,
                            events,
                        )
                    },
            }
        },
        (StageView::Applying(run), reply) => {
            &&& engine_after == (EngineView {
                account_ids: accounts_after(engine.account_ids, run, reply),
                ..engine
            })
            &&& stage_after == applying(apply_step(run, reply).0)
            &&& events == apply_step(run, reply).1
        },
        _ => moves_to(engine, stage, engine_after, stage_after, events),
    }
}

impl OrderMatchingEngine {
    /// Begins an attempt to settle the option's expiry at `ts_now`.
    pub fn process_option_expiry(&self, ts_now: UnixNanos) -> (run: ExpiryRun)
        ensures
            run@ == (ExpiryView { ts_now, stage: first_stage(self@) }),
    {
        let stage: Stage = if self.config.use_random_ids {
            Stage::OpenPositions
        } else {
            Stage::AllPositions
        };
        ExpiryRun { ts_now, stage }
    }

    /// Where a run goes on that has dealt with the pending deliveries of all positions
    /// before `from`. Delivery closes the option before it opens the underlying, so the
    /// positions of pending deliveries are closed.
    fn option_resume_pending_physical_deliveries(
        &self,
        positions: Vec<Position>,
        from: usize,
    ) -> (stage: Stage)
        ensures
            stage@ == next_pending(self@, position_views(positions@), from as int),
            stage.in_range(),
    {
        let ghost views = position_views(positions@);
        let mut index: usize = from;
        while index < positions.len() && !positions[index].is_closed()
            invariant
                views == position_views(positions@),
                next_pending(self@, views, from as int) == next_pending(
                    self@,
                    views,
                    index as int,
                ),
            decreases positions@.len() - index,
        {
            assert(views[index as int] == positions@[index as int]@);
            index += 1;
        }
        if index >= positions.len() {
            return Stage::OpenPositions;
        }
        assert(views[index as int] == positions@[index as int]@);
        if self.instrument.expiration_ns.is_none() {
            return Stage::Finished(Outcome::Fault(SettlementFault::MissingExpiration));
        }
        let close_ids: (String, String, String) = self.option_deterministic_ids(
            &positions[index],
            "physical-close",
        );
        let open_ids: (String, String, String) = self.option_deterministic_ids(
            &positions[index],
            "physical-open",
        );
        Stage::PendingOrders { positions, index, close_id: close_ids.0, open_ids }
    }
}

impl Stage {
    /// The position that the stage is about is one of its positions.
    spec fn in_range(self) -> bool {
        match self {
            Stage::PendingOrders { positions, index, .. } => index < positions@.len(),
            Stage::PendingInstrument { positions, index, .. } => index < positions@.len(),
            _ => true,
        }
    }
}

impl ExpiryRun {
    #[verifier::type_invariant]
    spec fn wf(self) -> bool {
        self.stage.in_range()
    }

    /// What the run asks for.
    pub fn request(&self, engine: &OrderMatchingEngine) -> (request: Request)
        ensures
            request@ == request_of(engine@, self@.stage),
    {
        match &self.stage {
            Stage::AllPositions => Request::Positions {
                instrument_id: engine.instrument.id.clone(),
            },
            Stage::PendingOrders { close_id, open_ids, .. } => Request::SettlementOrders {
                close_id: close_id.clone(),
                open_id: open_ids.0.clone(),
            },
            Stage::PendingInstrument { order, .. } => Request::Instrument {
                instrument_id: order.instrument_id.clone(),
            },
            Stage::OpenPositions => Request::OpenPositions {
                instrument_id: engine.instrument.id.clone(),
            },
            Stage::Underlying { underlying_id, .. } => Request::Instrument {
                instrument_id: underlying_id.clone(),
            },
            Stage::UnderlyingPrice { underlying, underlying_id, .. } => if underlying.is_index {
                Request::IndexPrice { instrument_id: underlying_id.clone() }
            } else {
                Request::LastPrice { instrument_id: underlying_id.clone() }
            },
            Stage::Clock { positions, underlying, exercise, .. } => Request::Clock {
                readings: OrderMatchingEngine::option_settlement_leg_count(
                    positions,
                    underlying,
                    *exercise,
                ),
            },
            Stage::Applying(run) => run.request(),
            Stage::Finished(_) => Request::Nothing,
        }
    }

    /// How the run ended, where it has.
    pub fn outcome(&self) -> (outcome: Option<&Outcome>)
        ensures
            match outcome {
                Some(outcome) => self@.stage == StageView::Finished(outcome@),
                None => self@.stage !is Finished,
            },
    {
        match &self.stage {
            Stage::Finished(outcome) => Some(outcome),
            _ => None,
        }
    }
}

/// The delivery that is pending where the option was closed and the underlying not opened.
pub fn option_pending_delivery(close: &Option<OrderAny>, open: Option<OrderAny>) -> (order: Option<
    OrderAny,
>)
    ensures
        order_view(order) == pending_delivery(order_view(*close), order_view(open)),
{
    let close_complete: bool = match close {
        Some(order) => order.status == OrderStatus::Filled,
        None => false,
    };
    match open {
        Some(order) => if close_complete && order.status != OrderStatus::Filled {
            Some(order)
        } else {
            None
        },
        None => None,
    }
}

/// Where a run goes on depends on the engine's venue and instrument alone.
proof fn lemma_next_pending_frame(
    engine: EngineView,
    other: EngineView,
    positions: Seq<PositionView>,
    from: int,
)
    requires
        engine.venue == other.venue,
        engine.instrument == other.instrument,
    ensures
        next_pending(engine, positions, from) == next_pending(other, positions, from),
    decreases positions.len() - from,
{
    if from < positions.len() && !positions[from].closed {
        lemma_next_pending_frame(engine, other, positions, from + 1);
    }
}

impl OrderMatchingEngine {
    /// The fill that completes a pending delivery at `strike`.
    pub fn option_create_delivery_fill(
        &self,
        position: &Position,
        underlying_instrument: &InstrumentAny,
        order: &OrderAny,
        open_ids: &(String, String, String),
        strike: Price,
        ts_now: UnixNanos,
    ) -> (fill: OrderFilled)
        requires
            self@.instrument.strike_price == Some(strike),
        ensures
            is_random_uuid_text(fill@.event_id),
            fill@ == delivery_fill(
                self@,
                position@,
                underlying_instrument@,
                order@,
                ids_view(*open_ids),
                fill@.event_id,
                ts_now,
            ),
    {
        OrderFilled {
            trader_id: order.trader_id.clone(),
            strategy_id: order.strategy_id.clone(),
            instrument_id: order.instrument_id.clone(),
            client_order_id: order.client_order_id.clone(),
            venue_order_id: delivery_venue_order(order, open_ids),
            account_id: position.account_id.clone(),
            trade_id: open_ids.2.clone(),
            order_side: order.order_side,
            order_type: order.order_type,
            last_qty: order.quantity,
            last_px: strike,
            currency: underlying_instrument.quote_currency.clone(),
            liquidity_side: LiquiditySide::Taker,
            event_id: random_uuid(),
            ts_event: ts_now,
            ts_init: ts_now,
            reconciliation: false,
            position_id: None,
            commission: Some(Money::zero(underlying_instrument.quote_currency.clone())),
        }
    }

    /// Completes the pending delivery of the position at `index`: accepts the order if it
    /// was not, and fills it at the strike.
    fn option_complete_delivery(
        &mut self,
        positions: Vec<Position>,
        index: usize,
        order: OrderAny,
        open_ids: (String, String, String),
        underlying: &InstrumentAny,
        ts_now: UnixNanos,
    ) -> (result: (Stage, Vec<Event>))
        requires
            index < positions@.len(),
        ensures
            final(self)@ == with_account(old(self)@, positions@[index as int]@),
            completes_delivery(
                old(self)@,
                positions@[index as int]@,
                underlying@,
                order@,
                ids_view(open_ids),
                ts_now,
                next_pending(old(self)@, position_views(positions@), index + 1),
                result.0@,
                event_views(result.1@),
            ),
            result.0.in_range(),
    {
        let ghost before = self@;
        assert(index < positions.len());
        let position: &Position = &positions[index];
        self.account_ids.insert(position.trader_id.clone(), position.account_id.clone());
        let mut events: Vec<Event> = Vec::new();
        assert(event_views(events@) =~= seq![]);
        match order.status {
            OrderStatus::Initialized => {
                let venue_order_id: String = delivery_venue_order(&order, &open_ids);
                events.push(Event::Accepted { order: order.clone(), venue_order_id });
            },
            OrderStatus::Accepted => {},
            status => {
                let client_order_id: String = order.client_order_id;
                let error = SettlementError::CannotResume { client_order_id, status };
                return (Stage::Finished(Outcome::Failed(error)), events);
            },
        }
        let ghost acceptance = delivery_acceptance(order@, ids_view(open_ids));
        assert(event_views(events@) =~= acceptance);
        let strike: Price = match self.instrument.strike_price {
            Some(strike) => strike,
            None => {
                let outcome = Outcome::Fault(SettlementFault::MissingDeliveryStrike);
                return (Stage::Finished(outcome), events);
            },
        };
        let fill: OrderFilled = self.option_create_delivery_fill(
            position,
            underlying,
            &order,
            &open_ids,
            strike,
            ts_now,
        );
        events.push(Event::Filled(fill));
        assert(event_views(events@).drop_last() =~= acceptance);
        proof {
            lemma_next_pending_frame(before, self@, position_views(positions@), index + 1);
        }
        let stage: Stage = self.option_resume_pending_physical_deliveries(positions, index + 1);
        (stage, events)
    }
}

/// The venue order identifier of a pending delivery: the order's own, or the planned one.
fn delivery_venue_order(order: &OrderAny, open_ids: &(String, String, String)) -> (id: String)
    ensures
        id@ == delivery_venue_order_id(order@, ids_view(*open_ids)),
{
    match &order.venue_order_id {
        Some(venue_order_id) => venue_order_id.clone(),
        None => open_ids.1.clone(),
    }
}

impl OrderMatchingEngine {
    /// Ends the attempt, to be repeated for `reason`.
    fn retry(&mut self, reason: &'static str, message: &str) -> (stage: Stage)
        ensures
            final(self)@ == after_retry(old(self)@, reason@, message@),
            stage@ == StageView::Finished(OutcomeView::Retry),
            stage.in_range(),
    {
        let complete: bool = self.option_settlement_retry(reason, message);
        if complete {
            Stage::Finished(Outcome::Complete)
        } else {
            Stage::Finished(Outcome::Retry)
        }
    }

    /// Goes on with the open positions.
    fn with_open_positions(&mut self, positions: Vec<Position>, ts_now: UnixNanos) -> (stage: Stage)
        ensures
            expiry_step(
                old(self)@,
                ts_now,
                StageView::OpenPositions,
                ReplyView::Positions(position_views(positions@)),
                final(self)@,
                stage@,
                seq![],
            ),
            stage.in_range(),
    {
        if positions.len() == 0 {
            return Stage::Finished(Outcome::Complete);
        }
        let underlying: Option<String> = clone_optional_text(&self.instrument.underlying);
        match underlying {
            Some(mut underlying_id) => {
                underlying_id.append(".");
                underlying_id.append(self.venue.as_str());
                Stage::Underlying { positions, underlying_id }
            },
            None => {
                let mut message: String = "No underlying for option ".to_owned();
                message.append(self.instrument.id.as_str());
                self.retry("missing-underlying", message.as_str())
            },
        }
    }

    /// Goes on with the underlying instrument.
    fn with_underlying(
        &mut self,
        positions: Vec<Position>,
        underlying_id: String,
        instrument: Option<InstrumentAny>,
        ts_now: UnixNanos,
    ) -> (stage: Stage)
        ensures
            expiry_step(
                old(self)@,
                ts_now,
                (StageView::Underlying {
                    positions: position_views(positions@),
                    underlying_id: underlying_id@,
                }),
                Reply::Instrument(instrument)@,
                final(self)@,
                stage@,
                seq![],
            ),
            stage.in_range(),
    {
        match instrument {
            Some(underlying) => Stage::UnderlyingPrice { positions, underlying, underlying_id },
            None => {
                let mut message: String = "No underlying instrument for option ".to_owned();
                message.append(self.instrument.id.as_str());
                self.retry("missing-underlying-instrument", message.as_str())
            },
        }
    }

    /// Goes on with the price of the underlying: decides whether the option is exercised.
    fn with_underlying_price(
        &mut self,
        positions: Vec<Position>,
        underlying: InstrumentAny,
        underlying_id: String,
        price: Option<Price>,
        ts_now: UnixNanos,
    ) -> (stage: Stage)
        ensures
            expiry_step(
                old(self)@,
                ts_now,
                (StageView::UnderlyingPrice {
                    positions: position_views(positions@),
                    underlying: underlying@,
                    underlying_id: underlying_id@,
                }),
                ReplyView::Price(price),
                final(self)@,
                stage@,
                seq![],
            ),
            stage.in_range(),
    {
        match price {
            Some(price) => match self.option_exercise_fault(price) {
                Some(fault) => Stage::Finished(Outcome::Fault(fault)),
                None => {
                    let exercise: bool = self.option_should_exercise(price);
                    Stage::Clock { positions, underlying, price, exercise }
                },
            },
            None => {
                let mut message: String = "No underlying price for option ".to_owned();
                message.append(self.instrument.id.as_str());
                self.retry("missing-underlying-price", message.as_str())
            },
        }
    }

    /// Goes on with the readings of the clock: plans the settlement and begins to apply it.
    fn with_clock(
        &self,
        positions: Vec<Position>,
        underlying: InstrumentAny,
        price: Price,
        exercise: bool,
        clock: Vec<UnixNanos>,
        ts_now: UnixNanos,
    ) -> (stage: Stage)
        ensures
            expiry_step(
                self@,
                ts_now,
                (StageView::Clock {
                    positions: position_views(positions@),
                    underlying: underlying@,
                    price,
                    exercise,
                }),
                ReplyView::Clock(clock@),
                self@,
                stage@,
                seq![],
            ),
            stage.in_range(),
    {
        let count: u128 = Self::option_settlement_leg_count(&positions, &underlying, exercise);
        if clock.len() as u128 != count {
            return Stage::Clock { positions, underlying, price, exercise };
        }
        let close: Option<Price> = match &self.instrument_close {
            Some(close) => Some(close.close_price),
            None => None,
        };
        match self.option_settlement_fault(&positions, &underlying, price, exercise, close) {
            Some(fault) => Stage::Finished(Outcome::Fault(fault)),
            None => {
                let plan: OptionSettlementPlan = self.option_create_settlement_plan(
                    &positions,
                    &underlying,
                    price,
                    exercise,
                    ts_now,
                    close,
                    &clock,
                );
                let ghost legs = plan@;
                let next: ApplyNext = ApplyRun::option_apply_settlement_plan(plan);
                assert(is_plan(
                    self@,
                    position_views(positions@),
                    underlying@,
                    price,
                    exercise,
                    ts_now,
                    self@.instrument_close,
                    clock@,
                    legs,
                ));
                match next {
                    ApplyNext::Running(run) => Stage::Applying(run),
                    ApplyNext::Over(outcome) => Stage::Finished(outcome),
                }
            },
        }
    }

    /// Takes in the answer to what a run asked for: says where the run goes on, and gives
    /// out events to be performed in their order before the run's next request. An answer
    /// to something else changes nothing.
    pub fn advance(&mut self, run: ExpiryRun, reply: Reply) -> (result: (ExpiryRun, Vec<Event>))
        ensures
            result.0@.ts_now == run@.ts_now,
            expiry_step(
                old(self)@,
                run@.ts_now,
                run@.stage,
                reply@,
                final(self)@,
                result.0@.stage,
                event_views(result.1@),
            ),
    {
        proof {
            use_type_invariant(&run);
        }
        let ExpiryRun { ts_now, stage } = run;
        let none: Vec<Event> = Vec::new();
        assert(event_views(none@) =~= seq![]);
        let (stage, events): (Stage, Vec<Event>) = match (stage, reply) {
            (Stage::AllPositions, Reply::Positions(positions)) => (
                self.option_resume_pending_physical_deliveries(positions, 0),
                none,
            ),
            (
                Stage::PendingOrders { positions, index, open_ids, .. },
                Reply::SettlementOrders { close, open },
            ) => {
                assert(index < positions.len());
                let stage: Stage = match option_pending_delivery(&close, open) {
                    Some(order) => Stage::PendingInstrument { positions, index, order, open_ids },
                    None => self.option_resume_pending_physical_deliveries(positions, index + 1),
                };
                (stage, none)
            },
            (
                Stage::PendingInstrument { positions, index, order, open_ids },
                Reply::Instrument(instrument),
            ) => match instrument {
                Some(underlying) => self.option_complete_delivery(
                    positions,
                    index,
                    order,
                    open_ids,
                    &underlying,
                    ts_now,
                ),
                None => {
                    let mut message: String = "No underlying instrument ".to_owned();
                    message.append(order.instrument_id.as_str());
                    message.append(" for pending physical option settlement ");
                    message.append(order.client_order_id.as_str());
                    (self.retry("missing-underlying-instrument", message.as_str()), none)
                },
            },
            (Stage::OpenPositions, Reply::Positions(positions)) => (
                self.with_open_positions(positions, ts_now),
                none,
            ),
            (
                Stage::Underlying { positions, underlying_id },
                Reply::Instrument(instrument),
            ) => (self.with_underlying(positions, underlying_id, instrument, ts_now), none),
            (
                Stage::UnderlyingPrice { positions, underlying, underlying_id },
                Reply::Price(price),
            ) => (
                self.with_underlying_price(positions, underlying, underlying_id, price, ts_now),
                none,
            ),
            (Stage::Clock { positions, underlying, price, exercise }, Reply::Clock(clock)) => (
                self.with_clock(positions, underlying, price, exercise, clock, ts_now),
                none,
            ),
            (Stage::Applying(run), reply) => {
                let (next, events): (ApplyNext, Vec<Event>) = run.advance(
                    &mut self.account_ids,
                    reply,
                );
                let stage: Stage = match next {
                    ApplyNext::Running(run) => Stage::Applying(run),
                    ApplyNext::Over(outcome) => Stage::Finished(outcome),
                };
                (stage, events)
            },
            (stage, _) => (stage, none),
        };
        (ExpiryRun { ts_now, stage }, events)
    }
}

} // verus!
