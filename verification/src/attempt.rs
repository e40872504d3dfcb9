//! What holds of a whole attempt to settle an option's expiry, whatever its host answers.
use vstd::prelude::*;

#[allow(unused_imports)]
use crate::apply::{
    apply_from, apply_step, with_accounts, ApplyNextView, ApplyPhase, ApplyView,
};
#[allow(unused_imports)]
use crate::expiry::{
    applying, expiry_step, first_stage, next_pending, pending_delivery, request_of, StageView,
};
#[allow(unused_imports)]
use crate::laws::{
    filled_after, is_true_of, is_up_to_date, law_every_closed_position_is_looked_at,
    law_no_order_is_filled_twice, stage_rank,
};
#[allow(unused_imports)]
use crate::model::{LegView, OrderStatus, OrderView, PositionView, Text, UnixNanos};
#[allow(unused_imports)]
use crate::protocol::{EventView, OutcomeView, ReplyView};
#[allow(unused_imports)]
use crate::terms::{is_plan, EngineView};
#[allow(unused_imports)]
use crate::trace::is_registered;

verus! {

/// The course of an attempt: the answers that it took in, the engine and the stage before
/// each of them and behind the last, and the events that each made it give out.
pub struct Attempt {
    pub ts_now: UnixNanos,
    pub replies: Seq<ReplyView>,
    pub engines: Seq<EngineView>,
    pub stages: Seq<StageView>,
    pub events: Seq<Seq<EventView>>,
}

impl Attempt {
    /// The answer number `i` made the attempt take a step.
    pub open spec fn steps_at(self, i: int) -> bool {
        expiry_step(
            self.engines[i],
            self.ts_now,
            self.stages[i],
            self.replies[i],
            self.engines[i + 1],
            self.stages[i + 1],
            self.events[i],
        )
    }

    /// The attempt began where attempts begin and took a step at every answer.
    pub open spec fn wf(self) -> bool {
        &&& self.engines.len() == self.replies.len() + 1
        &&& self.stages.len() == self.replies.len() + 1
        &&& self.events.len() == self.replies.len()
        &&& self.stages[0] == first_stage(self.engines[0])
        &&& forall|i: int| 0 <= i < self.replies.len() ==> #[trigger] self.steps_at(i)
    }

    /// The attempt ended to be repeated.
    pub open spec fn is_retried(self) -> bool {
        self.stages.last() == StageView::Finished(OutcomeView::Retry)
    }

    /// The attempt ended complete.
    pub open spec fn is_complete(self) -> bool {
        self.stages.last() == StageView::Finished(OutcomeView::Complete)
    }

    /// The answer number `i` was that something is missing.
    pub open spec fn misses_at(self, i: int) -> bool {
        &&& 0 <= i < self.replies.len()
        &&& is_missing(self.engines[i], self.stages[i], self.replies[i])
    }

    /// The answer number `i` was the open positions `positions`.
    pub open spec fn opens_at(self, i: int, positions: Seq<PositionView>) -> bool {
        &&& 0 <= i < self.replies.len()
        &&& self.stages[i] is OpenPositions
        &&& self.replies[i] == ReplyView::Positions(positions)
    }

    /// At the answer number `i`, the attempt began to apply the plan `legs` for `positions`.
    pub open spec fn plans_at(
        self,
        i: int,
        positions: Seq<PositionView>,
        legs: Seq<LegView>,
    ) -> bool {
        &&& 0 <= i < self.replies.len()
        &&& match (self.stages[i], self.replies[i]) {
            (
                StageView::Clock { positions: planned, underlying, price, exercise },
                ReplyView::Clock(clock),
            ) => planned == positions && is_plan(
                self.engines[i],
                positions,
                underlying,
                price,
                exercise,
                self.ts_now,
                self.engines[i].instrument_close,
                clock,
                legs,
            ),
            _ => false,
        }
    }

    /// The answer number `i` was the cached order of leg `k` of the plan `legs`, and the
    /// order was filled, or the attempt gave out the planned fill.
    pub open spec fn fills_at(self, i: int, legs: Seq<LegView>, k: int) -> bool {
        &&& 0 <= i < self.replies.len()
        &&& self.stages[i] == StageView::Applying(
            ApplyView { legs, phase: ApplyPhase::Fill, index: k },
        )
        &&& self.replies[i] matches ReplyView::Order(Some(order)) && (order.status
            == OrderStatus::Filled || self.events[i] == seq![EventView::Filled(legs[k].fill)])
    }

    /// Leg `k` of the plan `legs` was found filled, or its fill was given out.
    pub open spec fn settles_leg(self, legs: Seq<LegView>, k: int) -> bool {
        exists|i: int| #[trigger] self.fills_at(i, legs, k)
    }

    /// The first `count` legs of the plan `legs` were found filled, or their fills were
    /// given out.
    pub open spec fn settles_legs(self, legs: Seq<LegView>, count: int) -> bool {
        forall|k: int| 0 <= k < count ==> #[trigger] self.settles_leg(legs, k)
    }

    /// After `n` answers, a plan was made for `positions`, which came as the answer number
    /// `opened`; each of its legs was found filled, or its fill was given out; and since that
    /// answer the accounts of its legs were recorded, and no others.
    pub open spec fn settles_by(self, n: int, opened: int, positions: Seq<PositionView>) -> bool {
        exists|i: int, legs: Seq<LegView>| #[trigger]
            self.plans_at(i, positions, legs) && opened < i < n && self.settles_legs(
                legs,
                legs.len() as int,
            ) && self.engines[n].account_ids == with_accounts(
                self.engines[opened].account_ids,
                legs,
            )
    }

    /// The answer number `i` was about the settlement orders of the closed position number
    /// `k` of `positions`.
    pub open spec fn inspects_at(self, i: int, positions: Seq<PositionView>, k: int) -> bool {
        &&& 0 <= i < self.replies.len()
        &&& self.stages[i] matches StageView::PendingOrders { positions: same, index, .. }
            && same == positions && index == k
        &&& self.replies[i] is SettlementOrders
    }

    /// The answer number `i` was that the delivery under `order` is pending.
    pub open spec fn finds_pending_at(self, i: int, order: OrderView) -> bool {
        &&& 0 <= i < self.replies.len()
        &&& self.stages[i] is PendingOrders
        &&& match self.replies[i] {
            ReplyView::SettlementOrders { close, open } => pending_delivery(close, open) == Some(
                order,
            ),
            _ => false,
        }
    }

    /// At the answer number `i`, the attempt gave out the fill of all of the pending delivery
    /// under `order` at the strike, behind its acceptance where it was not accepted yet.
    pub open spec fn delivers_at(self, i: int, order: OrderView) -> bool {
        &&& 0 <= i < self.replies.len()
        &&& self.events[i].len() == if order.status == OrderStatus::Initialized {
            2int
        } else {
            1int
        }
        &&& order.status == OrderStatus::Initialized ==> (self.events[i][0] matches
            EventView::Accepted { order: accepted, .. } && accepted == order)
        &&& self.events[i].last() matches EventView::Filled(fill) && {
            &&& fill.client_order_id == order.client_order_id
            &&& fill.instrument_id == order.instrument_id
            &&& fill.order_side == order.order_side
            &&& fill.last_qty == order.quantity
            &&& Some(fill.last_px) == self.engines[i].instrument.strike_price
        }
    }

    /// The orders that are filled after `n` answers, where those in `filled` were before the
    /// attempt.
    pub open spec fn filled_by(self, filled: Set<Text>, n: int) -> Set<Text>
        decreases n,
    {
        if n <= 0 {
            filled
        } else {
            filled_after(self.filled_by(filled, n - 1), self.events[n - 1])
        }
    }

    /// The answer number `i` was true of the orders that were filled by then.
    pub open spec fn is_true_at(self, filled: Set<Text>, i: int) -> bool {
        is_true_of(
            request_of(self.engines[i], self.stages[i]),
            self.replies[i],
            self.filled_by(filled, i),
        )
    }
}

/// An answer was that something is missing that settlement needs: the instrument of a
/// pending delivery, the option's underlying, the instrument of the underlying, or its price.
pub open spec fn is_missing(engine: EngineView, stage: StageView, reply: ReplyView) -> bool {
    match (stage, reply) {
        (StageView::PendingInstrument { .. }, ReplyView::Instrument(None)) => true,
        (StageView::OpenPositions, ReplyView::Positions(positions)) => positions.len() > 0
            && engine.instrument.underlying is None,
        (StageView::Underlying { .. }, ReplyView::Instrument(None)) => true,
        (StageView::UnderlyingPrice { .. }, ReplyView::Price(None)) => true,
        _ => false,
    }
}

/// Looking for pending deliveries leads to the orders of one, to the open positions, or to a
/// fault.
proof fn lemma_next_pending_kind(engine: EngineView, positions: Seq<PositionView>, from: int)
    ensures
        match next_pending(engine, positions, from) {
            StageView::PendingOrders { .. } | StageView::OpenPositions => true,
            StageView::Finished(outcome) => outcome is Fault,
            _ => false,
        },
    decreases positions.len() - from,
{
    if from < positions.len() && !positions[from].closed {
        lemma_next_pending_kind(engine, positions, from + 1);
    }
}

/// A step leads to a repetition exactly where something is missing, or where the attempt
/// has ended so before; it does not lead there from applying a plan.
proof fn lemma_step_retries(
    engine: EngineView,
    ts_now: UnixNanos,
    stage: StageView,
    reply: ReplyView,
    engine_after: EngineView,
    stage_after: StageView,
    events: Seq<EventView>,
)
    requires
        expiry_step(engine, ts_now, stage, reply, engine_after, stage_after, events),
    ensures
        stage_after == StageView::Finished(OutcomeView::Retry) <==> is_missing(engine, stage, reply)
            || stage == StageView::Finished(OutcomeView::Retry),
        stage is Applying ==> stage_after is Applying || stage_after is Finished,
{
    match stage {
        StageView::AllPositions => {
            if let ReplyView::Positions(positions) = reply {
                lemma_next_pending_kind(engine, positions, 0);
            }
        },
        StageView::PendingOrders { positions, index, .. } => {
            lemma_next_pending_kind(engine, positions, index + 1);
        },
        StageView::PendingInstrument { positions, index, .. } => {
            lemma_next_pending_kind(engine, positions, index + 1);
        },
        _ => {},
    }
}

/// An attempt ends to be repeated if and only if something that it looked up was missing.
pub proof fn law_an_attempt_is_retried_exactly_where_something_is_missing(attempt: Attempt)
    requires
        attempt.wf(),
    ensures
        attempt.is_retried() <==> exists|i: int| #[trigger] attempt.misses_at(i),
{
    lemma_retried_by(attempt, attempt.replies.len() as int);
}

/// After `n` answers, an attempt has ended to be repeated if and only if one of them was
/// that something is missing.
proof fn lemma_retried_by(attempt: Attempt, n: int)
    requires
        attempt.wf(),
        0 <= n <= attempt.replies.len(),
    ensures
        attempt.stages[n] == StageView::Finished(OutcomeView::Retry) <==> exists|i: int|
            i < n && #[trigger] attempt.misses_at(i),
    decreases n,
{
    if n > 0 {
        let before = n - 1;
        lemma_retried_by(attempt, before);
        assert(attempt.steps_at(before));
        lemma_step_retries(
            attempt.engines[before],
            attempt.ts_now,
            attempt.stages[before],
            attempt.replies[before],
            attempt.engines[n],
            attempt.stages[n],
            attempt.events[before],
        );
        if attempt.stages[n] == StageView::Finished(OutcomeView::Retry) {
            if attempt.stages[before] != StageView::Finished(OutcomeView::Retry) {
                assert(attempt.misses_at(before));
            } else {
                let i = choose|i: int| i < before && #[trigger] attempt.misses_at(i);
                assert(i < n && attempt.misses_at(i));
            }
        }
        if exists|i: int| i < n && #[trigger] attempt.misses_at(i) {
            let i = choose|i: int| i < n && #[trigger] attempt.misses_at(i);
            if i < before {
                assert(i < before && attempt.misses_at(i));
            }
        }
    }
}

/// An attempt that has ended to be repeated after `n` answers applied no plan.
proof fn lemma_retried_without_applying(attempt: Attempt, i: int, n: int)
    requires
        attempt.wf(),
        0 <= i <= n <= attempt.replies.len(),
        attempt.stages[n] == StageView::Finished(OutcomeView::Retry),
    ensures
        attempt.stages[i] !is Applying,
        attempt.stages[i] matches StageView::Finished(outcome) ==> outcome == OutcomeView::Retry,
    decreases n - i,
{
    if i < n {
        lemma_retried_without_applying(attempt, i + 1, n);
        assert(attempt.steps_at(i));
        lemma_step_retries(
            attempt.engines[i],
            attempt.ts_now,
            attempt.stages[i],
            attempt.replies[i],
            attempt.engines[i + 1],
            attempt.stages[i + 1],
            attempt.events[i],
        );
    }
}

/// A step from the open positions or behind them stays behind them, and gives out events
/// and records accounts only where a plan is applied.
proof fn lemma_step_behind_open_positions(
    engine: EngineView,
    ts_now: UnixNanos,
    stage: StageView,
    reply: ReplyView,
    engine_after: EngineView,
    stage_after: StageView,
    events: Seq<EventView>,
)
    requires
        expiry_step(engine, ts_now, stage, reply, engine_after, stage_after, events),
        stage_rank(stage) >= 2,
    ensures
        stage_rank(stage_after) >= 2,
        stage !is Applying ==> events.len() == 0 && engine_after.account_ids == engine.account_ids,
{
}

/// From the open positions on, an attempt that ends to be repeated gives out nothing,
/// records no account, applies no plan, and does not go back to pending deliveries.
pub proof fn law_a_retried_attempt_does_nothing_with_open_positions(
    attempt: Attempt,
    asked: int,
    i: int,
)
    requires
        attempt.wf(),
        attempt.is_retried(),
        0 <= asked <= i < attempt.replies.len(),
        attempt.stages[asked] is OpenPositions,
    ensures
        attempt.events[i].len() == 0,
        attempt.engines[i + 1].account_ids == attempt.engines[asked].account_ids,
        attempt.stages[i] !is Applying,
        stage_rank(attempt.stages[i + 1]) >= 2,
    decreases i - asked,
{
    if asked < i {
        law_a_retried_attempt_does_nothing_with_open_positions(attempt, asked, i - 1);
    }
    lemma_retried_without_applying(attempt, i, attempt.replies.len() as int);
    assert(attempt.steps_at(i));
    lemma_step_behind_open_positions(
        attempt.engines[i],
        attempt.ts_now,
        attempt.stages[i],
        attempt.replies[i],
        attempt.engines[i + 1],
        attempt.stages[i + 1],
        attempt.events[i],
    );
}

/// Where an attempt stands that was given the open positions `positions`: it goes on with
/// them, it applies a plan for them of which all legs are filled that it is past in the last
/// phase, or it has ended, complete only where all legs are filled. The accounts of the legs
/// are recorded as soon as the plan is registered.
spec fn goes_on_with(
    attempt: Attempt,
    opened: int,
    positions: Seq<PositionView>,
    n: int,
) -> bool {
    let base = attempt.engines[opened].account_ids;
    let accounts = attempt.engines[n].account_ids;
    match attempt.stages[n] {
        StageView::Underlying { positions: same, .. } => same == positions && accounts == base,
        StageView::UnderlyingPrice { positions: same, .. } => same == positions && accounts == base,
        StageView::Clock { positions: same, .. } => same == positions && accounts == base,
        StageView::Applying(run) => {
            &&& 0 <= run.index < run.legs.len()
            &&& exists|i: int| opened < i < n && #[trigger] attempt.plans_at(i, positions, run.legs)
            &&& run.phase == ApplyPhase::Fill ==> attempt.settles_legs(run.legs, run.index)
            &&& accounts == if is_registered(ApplyNextView::Running(run)) {
                with_accounts(base, run.legs)
            } else {
                base
            }
        },
        StageView::Finished(OutcomeView::Complete) => attempt.settles_by(n, opened, positions),
        StageView::Finished(_) => true,
        _ => false,
    }
}

/// The answer to a run that applies a plan leaves it among its legs, and fills the leg that
/// it is at where it is in the last phase.
proof fn lemma_applying_goes_on(
    attempt: Attempt,
    opened: int,
    positions: Seq<PositionView>,
    run: ApplyView,
    n: int,
)
    requires
        attempt.wf(),
        0 <= n < attempt.replies.len(),
        attempt.stages[n] == StageView::Applying(run),
        goes_on_with(attempt, opened, positions, n),
    ensures
        goes_on_with(attempt, opened, positions, n + 1),
{
    assert(attempt.steps_at(n));
    let reply = attempt.replies[n];
    let next = apply_step(run, reply).0;
    let i = choose|i: int|
        opened < i < n && #[trigger] attempt.plans_at(i, positions, run.legs);
    if run.phase == ApplyPhase::Fill {
        if let ReplyView::Order(Some(order)) = reply {
            assert(attempt.fills_at(n, run.legs, run.index));
            assert(attempt.settles_leg(run.legs, run.index));
            assert(attempt.settles_legs(run.legs, run.index + 1));
        }
    }
    if let ApplyNextView::Running(later) = next {
        assert(later.legs == run.legs);
        assert(attempt.plans_at(i, positions, later.legs));
    }
    if next == ApplyNextView::Over(OutcomeView::Complete) {
        assert(run.index + 1 == run.legs.len());
        assert(attempt.plans_at(i, positions, run.legs));
    }
}

/// An attempt goes on with the open positions that it was given.
proof fn lemma_goes_on(attempt: Attempt, opened: int, positions: Seq<PositionView>, n: int)
    requires
        attempt.wf(),
        attempt.opens_at(opened, positions),
        positions.len() > 0,
        opened < n <= attempt.replies.len(),
    ensures
        goes_on_with(attempt, opened, positions, n),
    decreases n,
{
    let before = n - 1;
    assert(attempt.steps_at(before));
    if opened < before {
        lemma_goes_on(attempt, opened, positions, before);
        match attempt.stages[before] {
            StageView::Applying(run) => {
                lemma_applying_goes_on(attempt, opened, positions, run, before);
            },
            StageView::Clock { underlying, price, exercise, .. } => {
                if let ReplyView::Clock(clock) = attempt.replies[before] {
                    if let StageView::Applying(run) = attempt.stages[n] {
                        let engine = attempt.engines[before];
                        let legs = choose|legs: Seq<LegView>|
                            {
                                &&& #[trigger] is_plan(
                                    engine,
                                    positions,
                                    underlying,
                                    price,
                                    exercise,
                                    attempt.ts_now,
                                    engine.instrument_close,
                                    clock,
                                    legs,
                                )
                                &&& attempt.stages[n] == applying(
                                    apply_from(legs, ApplyPhase::Register, 0),
                                )
                            };
                        assert(legs.len() > 0);
                        assert(attempt.plans_at(before, positions, run.legs));
                    }
                }
            },
            _ => {},
        }
    }
}

/// A complete attempt has settled the open positions that it was given: where there were
/// any, it made a plan for all of them, every leg of the plan was found filled, or its fill
/// was given out, and the accounts of the legs were recorded, and no others since then.
pub proof fn law_a_complete_attempt_settles_every_open_position(
    attempt: Attempt,
    opened: int,
    positions: Seq<PositionView>,
)
    requires
        attempt.wf(),
        attempt.is_complete(),
        attempt.opens_at(opened, positions),
    ensures
        positions.len() > 0 ==> attempt.settles_by(
            attempt.replies.len() as int,
            opened,
            positions,
        ),
{
    if positions.len() > 0 {
        lemma_goes_on(attempt, opened, positions, attempt.replies.len() as int);
    }
}

/// An attempt is complete only behind the open positions.
pub proof fn law_a_complete_attempt_was_given_the_open_positions(attempt: Attempt)
    requires
        attempt.wf(),
        attempt.is_complete(),
    ensures
        exists|i: int, positions: Seq<PositionView>| #[trigger] attempt.opens_at(i, positions),
{
    lemma_opened_by(attempt, attempt.replies.len() as int);
}

/// An attempt that is behind the open positions was given them, or has ended before.
proof fn lemma_opened_by(attempt: Attempt, n: int)
    requires
        attempt.wf(),
        0 <= n <= attempt.replies.len(),
    ensures
        match attempt.stages[n] {
            StageView::Finished(outcome) => outcome == OutcomeView::Complete,
            stage => stage_rank(stage) > 2,
        } ==> exists|i: int, positions: Seq<PositionView>|
            i < n && #[trigger] attempt.opens_at(i, positions),
    decreases n,
{
    if n > 0 {
        let before = n - 1;
        lemma_opened_by(attempt, before);
        assert(attempt.steps_at(before));
        match attempt.stages[before] {
            StageView::AllPositions => {
                if let ReplyView::Positions(positions) = attempt.replies[before] {
                    lemma_next_pending_kind(attempt.engines[before], positions, 0);
                }
            },
            StageView::PendingOrders { positions, index, .. } => {
                lemma_next_pending_kind(attempt.engines[before], positions, index + 1);
            },
            StageView::PendingInstrument { positions, index, .. } => {
                lemma_next_pending_kind(attempt.engines[before], positions, index + 1);
            },
            StageView::OpenPositions => {
                if let ReplyView::Positions(positions) = attempt.replies[before] {
                    assert(attempt.opens_at(before, positions));
                }
            },
            _ => {},
        }
        if exists|i: int, positions: Seq<PositionView>|
            i < before && #[trigger] attempt.opens_at(i, positions) {
            let (i, positions) = choose|i: int, positions: Seq<PositionView>|
                i < before && #[trigger] attempt.opens_at(i, positions);
            assert(i < n && attempt.opens_at(i, positions));
        }
    }
}

/// An attempt has come to the open positions, and has not ended in failure.
pub open spec fn is_past_deliveries(stage: StageView) -> bool {
    match stage {
        StageView::AllPositions => false,
        StageView::PendingOrders { .. } | StageView::PendingInstrument { .. } => false,
        StageView::Finished(outcome) => outcome == OutcomeView::Complete,
        _ => true,
    }
}

/// What has ended stays ended.
proof fn lemma_finished_stays(attempt: Attempt, i: int, n: int)
    requires
        attempt.wf(),
        0 <= i <= n <= attempt.replies.len(),
        attempt.stages[i] is Finished,
    ensures
        attempt.stages[n] == attempt.stages[i],
    decreases n - i,
{
    if i < n {
        assert(attempt.steps_at(i));
        lemma_finished_stays(attempt, i + 1, n);
    }
}

/// An attempt that waits for the instrument of a pending delivery, and comes to the open
/// positions later, completes the delivery on the way.
proof fn lemma_delivers(attempt: Attempt, i: int, order: OrderView, n: int) -> (m: int)
    requires
        attempt.wf(),
        0 <= i <= n <= attempt.replies.len(),
        attempt.stages[i] matches StageView::PendingInstrument { order: waiting, .. } && waiting
            == order,
        is_past_deliveries(attempt.stages[n]),
    ensures
        i <= m < n,
        attempt.delivers_at(m, order),
    decreases n - i,
{
    assert(attempt.steps_at(i));
    if attempt.stages[i + 1] is Finished {
        lemma_finished_stays(attempt, i + 1, n);
    }
    match attempt.replies[i] {
        ReplyView::Instrument(Some(_)) => {
            let events = attempt.events[i];
            if order.status == OrderStatus::Initialized {
                assert(events.drop_last()[0] == events[0]);
            }
            i
        },
        _ => lemma_delivers(attempt, i + 1, order, n),
    }
}

/// An attempt that comes to the open positions, so also one that is complete, has completed
/// every pending delivery that it found: it has given out the fill of it.
pub proof fn law_pending_deliveries_are_completed(
    attempt: Attempt,
    asked: int,
    order: OrderView,
    n: int,
)
    requires
        attempt.wf(),
        0 <= asked < n <= attempt.replies.len(),
        attempt.finds_pending_at(asked, order),
        is_past_deliveries(attempt.stages[n]),
    ensures
        exists|m: int| asked < m < n && #[trigger] attempt.delivers_at(m, order),
{
    assert(attempt.steps_at(asked));
    let m = lemma_delivers(attempt, asked + 1, order, n);
    assert(asked < m < n && attempt.delivers_at(m, order));
}

/// The closed positions before `to` were inspected in the first `n` answers.
#[verifier::opaque]
pub open spec fn are_inspected(
    attempt: Attempt,
    positions: Seq<PositionView>,
    to: int,
    n: int,
) -> bool {
    forall|k: int|
        #![trigger positions[k]]
        0 <= k < to && k < positions.len() && positions[k].closed ==> exists|i: int|
            i < n && #[trigger] attempt.inspects_at(i, positions, k)
}

/// Where an attempt stands that was given all positions: among them, with every closed one
/// before that inspected, or behind them, with every closed one inspected.
spec fn inspects_in_turn(attempt: Attempt, positions: Seq<PositionView>, n: int) -> bool {
    match attempt.stages[n] {
        StageView::AllPositions => false,
        StageView::PendingOrders { positions: same, index, .. } => {
            &&& same == positions
            &&& 0 <= index < positions.len()
            &&& are_inspected(attempt, positions, index, n)
        },
        StageView::PendingInstrument { positions: same, index, .. } => {
            &&& same == positions
            &&& 0 <= index < positions.len()
            &&& are_inspected(attempt, positions, index + 1, n)
        },
        stage => is_past_deliveries(stage) ==> are_inspected(
            attempt,
            positions,
            positions.len() as int,
            n,
        ),
    }
}

/// Going on to the next closed position passes over open ones only.
proof fn lemma_inspected_up_to_next(
    attempt: Attempt,
    positions: Seq<PositionView>,
    from: int,
    n: int,
)
    requires
        0 <= n < attempt.stages.len(),
        0 <= from <= positions.len(),
        are_inspected(attempt, positions, from, n),
        attempt.stages[n] == next_pending(attempt.engines[n - 1], positions, from),
    ensures
        inspects_in_turn(attempt, positions, n),
{
    reveal(are_inspected);
    law_every_closed_position_is_looked_at(attempt.engines[n - 1], positions, from);
}

/// What was inspected stays inspected.
proof fn lemma_inspected_stays(
    attempt: Attempt,
    positions: Seq<PositionView>,
    to: int,
    n: int,
)
    requires
        are_inspected(attempt, positions, to, n),
    ensures
        are_inspected(attempt, positions, to, n + 1),
{
    reveal(are_inspected);
    assert forall|k: int|
        #![trigger positions[k]]
        0 <= k < to && k < positions.len() && positions[k].closed implies exists|i: int|
        i < n + 1 && #[trigger] attempt.inspects_at(i, positions, k) by {
        let i = choose|i: int| i < n && #[trigger] attempt.inspects_at(i, positions, k);
        assert(i < n + 1 && attempt.inspects_at(i, positions, k));
    }
}

/// A position that is inspected at the answer number `n` is inspected after it.
proof fn lemma_inspected_next(
    attempt: Attempt,
    positions: Seq<PositionView>,
    index: int,
    n: int,
)
    requires
        are_inspected(attempt, positions, index, n),
        attempt.inspects_at(n, positions, index),
    ensures
        are_inspected(attempt, positions, index + 1, n + 1),
{
    lemma_inspected_stays(attempt, positions, index, n);
    reveal(are_inspected);
}

/// The answer to an attempt that asks for the settlement orders of a closed position.
proof fn lemma_inspects_orders(attempt: Attempt, positions: Seq<PositionView>, n: int)
    requires
        attempt.wf(),
        0 <= n < attempt.replies.len(),
        attempt.stages[n] is PendingOrders,
        inspects_in_turn(attempt, positions, n),
    ensures
        inspects_in_turn(attempt, positions, n + 1),
{
    assert(attempt.steps_at(n));
    let index = attempt.stages[n]->PendingOrders_index;
    match attempt.replies[n] {
        ReplyView::SettlementOrders { close, open } => {
            assert(attempt.inspects_at(n, positions, index));
            lemma_inspected_next(attempt, positions, index, n);
            if pending_delivery(close, open) is None {
                lemma_inspected_up_to_next(attempt, positions, index + 1, n + 1);
            }
        },
        _ => {
            lemma_inspected_stays(attempt, positions, index, n);
        },
    }
}

/// The answer to an attempt that asks for the instrument of a pending delivery.
proof fn lemma_inspects_instrument(attempt: Attempt, positions: Seq<PositionView>, n: int)
    requires
        attempt.wf(),
        0 <= n < attempt.replies.len(),
        attempt.stages[n] is PendingInstrument,
        inspects_in_turn(attempt, positions, n),
    ensures
        inspects_in_turn(attempt, positions, n + 1),
{
    assert(attempt.steps_at(n));
    let index = attempt.stages[n]->PendingInstrument_index;
    lemma_inspected_stays(attempt, positions, index + 1, n);
    if attempt.stages[n + 1] == next_pending(attempt.engines[n], positions, index + 1) {
        lemma_inspected_up_to_next(attempt, positions, index + 1, n + 1);
    }
}

/// The answer to an attempt that is past the pending deliveries, or has ended.
proof fn lemma_inspects_past(attempt: Attempt, positions: Seq<PositionView>, n: int)
    requires
        attempt.wf(),
        0 <= n < attempt.replies.len(),
        stage_rank(attempt.stages[n]) >= 2,
        inspects_in_turn(attempt, positions, n),
    ensures
        inspects_in_turn(attempt, positions, n + 1),
{
    assert(attempt.steps_at(n));
    lemma_step_behind_open_positions(
        attempt.engines[n],
        attempt.ts_now,
        attempt.stages[n],
        attempt.replies[n],
        attempt.engines[n + 1],
        attempt.stages[n + 1],
        attempt.events[n],
    );
    if is_past_deliveries(attempt.stages[n]) {
        lemma_inspected_stays(attempt, positions, positions.len() as int, n);
    } else {
        lemma_finished_stays(attempt, n, n + 1);
    }
}

/// An attempt inspects the closed positions that it was given in turn.
proof fn lemma_inspects(attempt: Attempt, given: int, positions: Seq<PositionView>, n: int)
    requires
        attempt.wf(),
        0 <= given < n <= attempt.replies.len(),
        attempt.stages[given] is AllPositions,
        attempt.replies[given] == ReplyView::Positions(positions),
    ensures
        inspects_in_turn(attempt, positions, n),
    decreases n,
{
    let before = n - 1;
    if given == before {
        assert(attempt.steps_at(before));
        assert(are_inspected(attempt, positions, 0, n)) by {
            reveal(are_inspected);
        }
        lemma_inspected_up_to_next(attempt, positions, 0, n);
    } else {
        lemma_inspects(attempt, given, positions, before);
        match attempt.stages[before] {
            StageView::PendingOrders { .. } => {
                lemma_inspects_orders(attempt, positions, before);
            },
            StageView::PendingInstrument { .. } => {
                lemma_inspects_instrument(attempt, positions, before);
            },
            _ => {
                lemma_inspects_past(attempt, positions, before);
            },
        }
    }
}

/// An attempt that was given all positions and comes to the open ones, so also one that is
/// complete, has asked for the settlement orders of every closed position on the way.
pub proof fn law_every_closed_position_was_inspected(
    attempt: Attempt,
    given: int,
    positions: Seq<PositionView>,
    n: int,
)
    requires
        attempt.wf(),
        0 <= given < n <= attempt.replies.len(),
        attempt.stages[given] is AllPositions,
        attempt.replies[given] == ReplyView::Positions(positions),
        is_past_deliveries(attempt.stages[n]),
    ensures
        are_inspected(attempt, positions, positions.len() as int, n),
{
    lemma_inspects(attempt, given, positions, n);
}

/// Where its host answers truly, an attempt gives out no fill of an order that is filled, be
/// it from before the attempt or by the attempt itself, and at most one fill at an answer.
pub proof fn law_an_attempt_fills_no_order_twice(attempt: Attempt, filled: Set<Text>, i: int)
    requires
        attempt.wf(),
        forall|j: int|
            0 <= j < attempt.replies.len() ==> #[trigger] attempt.is_true_at(filled, j),
        0 <= i < attempt.replies.len(),
    ensures
        forall|k: int|
            0 <= k < attempt.events[i].len() ==> ((#[trigger] attempt.events[i][k]) matches
                EventView::Filled(fill) ==> k == attempt.events[i].len() - 1
                && !attempt.filled_by(filled, i).contains(fill.client_order_id)),
        is_up_to_date(attempt.stages[i + 1], attempt.filled_by(filled, i + 1)),
    decreases i,
{
    if i > 0 {
        law_an_attempt_fills_no_order_twice(attempt, filled, i - 1);
    }
    assert(attempt.steps_at(i));
    assert(attempt.is_true_at(filled, i));
    law_no_order_is_filled_twice(
        attempt.filled_by(filled, i),
        attempt.engines[i],
        attempt.ts_now,
        attempt.stages[i],
        attempt.replies[i],
        attempt.engines[i + 1],
        attempt.stages[i + 1],
        attempt.events[i],
    );
}

/// An attempt ended before its plan was registered: to be repeated, with a fault, or because
/// the cache did not take an order or an identifier of the plan.
pub open spec fn ends_unregistered(outcome: OutcomeView) -> bool {
    match outcome {
        OutcomeView::Complete => false,
        OutcomeView::Failed(error) => error !is NotCached,
        OutcomeView::Retry | OutcomeView::Fault(_) => true,
    }
}

/// An attempt that has ended before its plan was registered was never past the registration.
proof fn lemma_never_registered(attempt: Attempt, i: int, n: int)
    requires
        attempt.wf(),
        0 <= i <= n <= attempt.replies.len(),
        attempt.stages[n] matches StageView::Finished(outcome) && ends_unregistered(outcome),
    ensures
        match attempt.stages[i] {
            StageView::Applying(run) => !is_registered(ApplyNextView::Running(run)),
            StageView::Finished(outcome) => ends_unregistered(outcome),
            _ => true,
        },
    decreases n - i,
{
    if i < n {
        lemma_never_registered(attempt, i + 1, n);
        assert(attempt.steps_at(i));
    }
}

/// From the open positions on, an attempt that ends before its plan is registered, for
/// whatever reason, gives out nothing and records no account.
pub proof fn law_an_unregistered_plan_has_no_effect(
    attempt: Attempt,
    outcome: OutcomeView,
    asked: int,
    i: int,
)
    requires
        attempt.wf(),
        attempt.stages.last() == StageView::Finished(outcome),
        ends_unregistered(outcome),
        0 <= asked <= i < attempt.replies.len(),
        attempt.stages[asked] is OpenPositions,
    ensures
        attempt.events[i].len() == 0,
        attempt.engines[i + 1].account_ids == attempt.engines[asked].account_ids,
        stage_rank(attempt.stages[i + 1]) >= 2,
    decreases i - asked,
{
    if asked < i {
        law_an_unregistered_plan_has_no_effect(attempt, outcome, asked, i - 1);
    }
    lemma_never_registered(attempt, i, attempt.replies.len() as int);
    lemma_never_registered(attempt, i + 1, attempt.replies.len() as int);
    assert(attempt.steps_at(i));
    lemma_step_behind_open_positions(
        attempt.engines[i],
        attempt.ts_now,
        attempt.stages[i],
        attempt.replies[i],
        attempt.engines[i + 1],
        attempt.stages[i + 1],
        attempt.events[i],
    );
}

/// A step changes the warnings only where it leads to a repetition, and then adds one at
/// most.
proof fn lemma_step_warns(
    engine: EngineView,
    ts_now: UnixNanos,
    stage: StageView,
    reply: ReplyView,
    engine_after: EngineView,
    stage_after: StageView,
    events: Seq<EventView>,
)
    requires
        expiry_step(engine, ts_now, stage, reply, engine_after, stage_after, events),
    ensures
        is_missing(engine, stage, reply) ==> engine_after.warnings.len() <= engine.warnings.len()
            + 1,
        !is_missing(engine, stage, reply) ==> engine_after.warnings == engine.warnings
            && engine_after.warning == engine.warning,
{
}

/// An attempt warns once at most, and only where it ends to be repeated.
pub proof fn law_an_attempt_warns_once_at_most(attempt: Attempt, n: int)
    requires
        attempt.wf(),
        0 <= n <= attempt.replies.len(),
    ensures
        attempt.engines[n].warnings.len() <= attempt.engines[0].warnings.len() + 1,
        attempt.stages[n] != StageView::Finished(OutcomeView::Retry) ==> attempt.engines[n].warnings
            == attempt.engines[0].warnings && attempt.engines[n].warning
            == attempt.engines[0].warning,
    decreases n,
{
    if n > 0 {
        let before = n - 1;
        law_an_attempt_warns_once_at_most(attempt, before);
        assert(attempt.steps_at(before));
        let engine = attempt.engines[before];
        let stage = attempt.stages[before];
        let reply = attempt.replies[before];
        let events = attempt.events[before];
        lemma_step_retries(
            engine,
            attempt.ts_now,
            stage,
            reply,
            attempt.engines[n],
            attempt.stages[n],
            events,
        );
        lemma_step_warns(
            engine,
            attempt.ts_now,
            stage,
            reply,
            attempt.engines[n],
            attempt.stages[n],
            events,
        );
    }
}

} // verus!
