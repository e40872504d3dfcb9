//! Applying a plan: its orders are registered with the cache, then published, then
//! accepted, then filled, each step for every leg before the next step begins.
//!
//! The cache may change between two answers, because the events that a run gives out are
//! applied to it, and it may hold orders from an earlier attempt. So every step looks at
//! the order as it is cached at that time.
use vstd::prelude::*;

use crate::accounts::AccountIds;
use crate::errors::SettlementError;
#[allow(unused_imports)]
use crate::errors::ErrorView;
use crate::model::{
    clone_optional_text, OptionSettlementLeg, OptionSettlementPlan, OrderAny, OrderStatus,
};
#[allow(unused_imports)]
use crate::model::{leg_views, LegView, OrderView, Text};
use crate::protocol::{Event, Outcome, Reply, Request};
#[allow(unused_imports)]
use crate::protocol::{event_views, EventView, OutcomeView, ReplyView, RequestView};

verus! {

/// What a run is doing with one leg.
#[derive(Clone, Copy, Debug, PartialEq, Eq, Structural)]
pub enum ApplyPhase {
    /// Looking for an order that was registered before.
    Register,
    /// Putting the order in the cache.
    Add,
    /// Recording the order's venue order identifier.
    Claim,
    /// Publishing the order's initialization.
    Publish,
    /// Accepting the order.
    Accept,
    /// Filling the order.
    Fill,
}

/// A run that applies a plan, at one leg in one phase.
#[derive(Debug)]
pub struct ApplyRun {
    legs: Vec<OptionSettlementLeg>,
    phase: ApplyPhase,
    index: usize,
}

/// The view of an [`ApplyRun`].
pub struct ApplyView {
    pub legs: Seq<LegView>,
    pub phase: ApplyPhase,
    pub index: int,
}

impl View for ApplyRun {
    type V = ApplyView;

    closed spec fn view(&self) -> ApplyView {
        ApplyView { legs: leg_views(self.legs@), phase: self.phase, index: self.index as int }
    }
}

/// A run, or how it ended.
#[derive(Debug)]
pub enum ApplyNext {
    Running(ApplyRun),
    Over(Outcome),
}

/// The view of an [`ApplyNext`].
pub enum ApplyNextView {
    Running(ApplyView),
    Over(OutcomeView),
}

impl View for ApplyNext {
    type V = ApplyNextView;

    open spec fn view(&self) -> ApplyNextView {
        match self {
            ApplyNext::Running(run) => ApplyNextView::Running(run@),
            ApplyNext::Over(outcome) => ApplyNextView::Over(outcome@),
        }
    }
}

/// A cached order has the terms of the planned one.
pub open spec fn same_terms(existing: OrderView, planned: OrderView) -> bool {
    &&& existing.instrument_id == planned.instrument_id
    &&& existing.order_side == planned.order_side
    &&& existing.quantity.same_as(planned.quantity)
    &&& existing.is_reduce_only == planned.is_reduce_only
}

/// What a run asks for.
pub open spec fn apply_request(run: ApplyView) -> RequestView {
    let leg = run.legs[run.index];
    match run.phase {
        ApplyPhase::Add => RequestView::AddOrder {
            order: leg.order,
            position_id: leg.fill.position_id,
        },
        ApplyPhase::Claim => RequestView::AddVenueOrderId {
            client_order_id: leg.order.client_order_id,
            venue_order_id: leg.fill.venue_order_id,
        },
        _ => RequestView::Order { client_order_id: leg.order.client_order_id },
    }
}

/// A run that has come to leg `index` in `phase`; behind the last leg, the next phase
/// begins, and behind the last phase everything is settled.
pub open spec fn apply_from(legs: Seq<LegView>, phase: ApplyPhase, index: int) -> ApplyNextView {
    if index < legs.len() {
        ApplyNextView::Running(ApplyView { legs, phase, index })
    } else if legs.len() == 0 {
        ApplyNextView::Over(OutcomeView::Complete)
    } else {
        match phase {
            ApplyPhase::Register | ApplyPhase::Add | ApplyPhase::Claim => ApplyNextView::Running(
                ApplyView { legs, phase: ApplyPhase::Publish, index: 0 },
            ),
            ApplyPhase::Publish => ApplyNextView::Running(
                ApplyView { legs, phase: ApplyPhase::Accept, index: 0 },
            ),
            ApplyPhase::Accept => ApplyNextView::Running(
                ApplyView { legs, phase: ApplyPhase::Fill, index: 0 },
            ),
            ApplyPhase::Fill => ApplyNextView::Over(OutcomeView::Complete),
        }
    }
}

/// The event that a run gives out when it finds a leg's order cached as `order`.
pub open spec fn apply_events(leg: LegView, phase: ApplyPhase, order: OrderView) -> Seq<EventView> {
    match phase {
        ApplyPhase::Publish => if order.status == OrderStatus::Initialized {
            seq![EventView::Initialized(order)]
        } else {
            seq![]
        },
        ApplyPhase::Accept => if order.status == OrderStatus::Initialized {
            seq![EventView::Accepted { order, venue_order_id: leg.fill.venue_order_id }]
        } else {
            seq![]
        },
        ApplyPhase::Fill => if order.status != OrderStatus::Filled {
            seq![EventView::Filled(leg.fill)]
        } else {
            seq![]
        },
        _ => seq![],
    }
}

/// What an answer makes of a run: where it goes on, and the events that it gives out.
pub open spec fn apply_step(run: ApplyView, reply: ReplyView) -> (ApplyNextView, Seq<EventView>) {
    let leg = run.legs[run.index];
    let client_order_id = leg.order.client_order_id;
    match (run.phase, reply) {
        (ApplyPhase::Register, ReplyView::Order(None)) => (
            ApplyNextView::Running(ApplyView { phase: ApplyPhase::Add, ..run }),
            seq![],
        ),
        (ApplyPhase::Register, ReplyView::Order(Some(existing))) => (
            if same_terms(existing, leg.order) {
                ApplyNextView::Running(ApplyView { phase: ApplyPhase::Claim, ..run })
            } else {
                ApplyNextView::Over(OutcomeView::Failed(ErrorView::Conflict { client_order_id }))
            },
            seq![],
        ),
        (ApplyPhase::Add, ReplyView::Stored(Ok(_))) => (
            ApplyNextView::Running(ApplyView { phase: ApplyPhase::Claim, ..run }),
            seq![],
        ),
        (ApplyPhase::Add, ReplyView::Stored(Err(cause))) => (
            ApplyNextView::Over(
                OutcomeView::Failed(ErrorView::CannotAdd { client_order_id, cause }),
            ),
            seq![],
        ),
        (ApplyPhase::Claim, ReplyView::Stored(Ok(_))) => (
            apply_from(run.legs, ApplyPhase::Register, run.index + 1),
            seq![],
        ),
        (ApplyPhase::Claim, ReplyView::Stored(Err(cause))) => (
            ApplyNextView::Over(
                OutcomeView::Failed(
                    ErrorView::CannotClaim {
                        client_order_id,
                        venue_order_id: leg.fill.venue_order_id,
                        cause,
                    },
                ),
            ),
            seq![],
        ),
        (ApplyPhase::Add, _) | (ApplyPhase::Claim, _) => (ApplyNextView::Running(run), seq![]),
        (phase, ReplyView::Order(None)) => (
            ApplyNextView::Over(OutcomeView::Failed(ErrorView::NotCached { client_order_id })),
            seq![],
        ),
        (phase, ReplyView::Order(Some(order))) => (
            apply_from(run.legs, phase, run.index + 1),
            apply_events(leg, phase, order),
        ),
        _ => (ApplyNextView::Running(run), seq![]),
    }
}

/// The accounts after those of the legs have been recorded, in order.
pub open spec fn with_accounts(accounts: Map<Text, Text>, legs: Seq<LegView>) -> Map<Text, Text>
    decreases legs.len(),
{
    if legs.len() == 0 {
        accounts
    } else {
        with_accounts(accounts, legs.drop_last()).insert(
            legs.last().fill.trader_id,
            legs.last().fill.account_id,
        )
    }
}

/// An answer completes the registration of every leg.
pub open spec fn completes_registration(run: ApplyView, reply: ReplyView) -> bool {
    &&& run.phase == ApplyPhase::Claim
    &&& run.index + 1 == run.legs.len()
    &&& reply matches ReplyView::Stored(Ok(_))
}

/// The accounts after an answer: recorded once every leg is registered.
pub open spec fn accounts_after(
    accounts: Map<Text, Text>,
    run: ApplyView,
    reply: ReplyView,
) -> Map<Text, Text> {
    if completes_registration(run, reply) {
        with_accounts(accounts, run.legs)
    } else {
        accounts
    }
}

/// A leg's order as it is cached, or the error that it is not.
pub fn option_cached_settlement_order(
    leg: &OptionSettlementLeg,
    cached: Option<OrderAny>,
) -> (order: Result<OrderAny, SettlementError>)
    ensures
        match (order, cached) {
            (Ok(order), Some(cached)) => order == cached,
            (Err(error), None) => error@ == (ErrorView::NotCached {
                client_order_id: leg@.order.client_order_id,
            }),
            _ => false,
        },
{
    match cached {
        Some(order) => Ok(order),
        None => Err(
            SettlementError::NotCached { client_order_id: leg.order.client_order_id.clone() },
        ),
    }
}

/// Whether a leg's order is still to be put in the cache, where `existing` is cached under
/// its identifier; or the error that another order is.
pub fn option_register_settlement_order(
    leg: &OptionSettlementLeg,
    existing: &Option<OrderAny>,
) -> (add: Result<bool, SettlementError>)
    ensures
        match add {
            Ok(add) => add == (*existing is None) && (*existing is Some ==> same_terms(
                existing->0@,
                leg@.order,
            )),
            Err(error) => *existing is Some && !same_terms(existing->0@, leg@.order) && error@ == (
            ErrorView::Conflict { client_order_id: leg@.order.client_order_id }),
        },
{
    match existing {
        None => Ok(true),
        Some(order) => if order.instrument_id == leg.order.instrument_id && order.order_side
            == leg.order.order_side && order.quantity.is_same_as(&leg.order.quantity)
            && order.is_reduce_only == leg.order.is_reduce_only {
            Ok(false)
        } else {
            Err(SettlementError::Conflict { client_order_id: leg.order.client_order_id.clone() })
        },
    }
}

impl ApplyRun {
    #[verifier::type_invariant]
    spec fn wf(self) -> bool {
        self.index < self.legs@.len()
    }

    /// A run that has come to leg `index` in `phase`.
    fn go_on(legs: Vec<OptionSettlementLeg>, phase: ApplyPhase, index: usize) -> (next: ApplyNext)
        ensures
            next@ == apply_from(leg_views(legs@), phase, index as int),
    {
        if index < legs.len() {
            return ApplyNext::Running(ApplyRun { legs, phase, index });
        }
        if legs.len() == 0 {
            return ApplyNext::Over(Outcome::Complete);
        }
        match phase {
            ApplyPhase::Register | ApplyPhase::Add | ApplyPhase::Claim => ApplyNext::Running(
                ApplyRun { legs, phase: ApplyPhase::Publish, index: 0 },
            ),
            ApplyPhase::Publish => ApplyNext::Running(
                ApplyRun { legs, phase: ApplyPhase::Accept, index: 0 },
            ),
            ApplyPhase::Accept => ApplyNext::Running(
                ApplyRun { legs, phase: ApplyPhase::Fill, index: 0 },
            ),
            ApplyPhase::Fill => ApplyNext::Over(Outcome::Complete),
        }
    }

    /// Begins to apply a plan.
    pub fn option_apply_settlement_plan(plan: OptionSettlementPlan) -> (next: ApplyNext)
        ensures
            next@ == apply_from(plan@, ApplyPhase::Register, 0),
    {
        Self::go_on(plan.legs, ApplyPhase::Register, 0)
    }

    /// What the run asks for.
    pub fn request(&self) -> (request: Request)
        ensures
            request@ == apply_request(self@),
            0 <= self@.index < self@.legs.len(),
    {
        proof {
            use_type_invariant(self);
        }
        let leg: &OptionSettlementLeg = &self.legs[self.index];
        match self.phase {
            ApplyPhase::Add => Request::AddOrder {
                order: leg.order.clone(),
                position_id: clone_optional_text(&leg.fill.position_id),
            },
            ApplyPhase::Claim => Request::AddVenueOrderId {
                client_order_id: leg.order.client_order_id.clone(),
                venue_order_id: leg.fill.venue_order_id.clone(),
            },
            _ => Request::Order { client_order_id: leg.order.client_order_id.clone() },
        }
    }

    /// Records the accounts of all legs.
    fn record_accounts(legs: &Vec<OptionSettlementLeg>, account_ids: &mut AccountIds)
        ensures
            final(account_ids)@ == with_accounts(old(account_ids)@, leg_views(legs@)),
    {
        let ghost before = account_ids@;
        let ghost views = leg_views(legs@);
        let mut i: usize = 0;
        assert(views.take(0) =~= seq![]);
        while i < legs.len()
            invariant
                i <= legs@.len(),
                views == leg_views(legs@),
                account_ids@ == with_accounts(before, views.take(i as int)),
            decreases legs@.len() - i,
        {
            assert(views.take(i + 1).drop_last() =~= views.take(i as int));
            assert(views.take(i + 1).last() == legs@[i as int]@);
            let leg: &OptionSettlementLeg = &legs[i];
            account_ids.insert(leg.fill.trader_id.clone(), leg.fill.account_id.clone());
            i += 1;
        }
        assert(views.take(i as int) =~= views);
    }

    /// Takes in an answer. The accounts of the legs are recorded once every leg is
    /// registered. An answer to something else changes nothing.
    pub fn advance(self, account_ids: &mut AccountIds, reply: Reply) -> (result: (
        ApplyNext,
        Vec<Event>,
    ))
        ensures
            (result.0@, event_views(result.1@)) == apply_step(self@, reply@),
            final(account_ids)@ == accounts_after(old(account_ids)@, self@, reply@),
            0 <= self@.index < self@.legs.len(),
    {
        proof {
            use_type_invariant(&self);
        }
        let ghost run = self@;
        let ApplyRun { legs, phase, index } = self;
        let mut events: Vec<Event> = Vec::new();
        assert(event_views(events@) =~= seq![]);
        assert(index < legs.len());
        assert(run.legs[run.index] == legs@[index as int]@);
        let next: ApplyNext = match (phase, reply) {
            (ApplyPhase::Register, Reply::Order(existing)) => {
                match option_register_settlement_order(&legs[index], &existing) {
                    Ok(add) => {
                        let phase: ApplyPhase = if add {
                            ApplyPhase::Add
                        } else {
                            ApplyPhase::Claim
                        };
                        ApplyNext::Running(ApplyRun { legs, phase, index })
                    },
                    Err(error) => ApplyNext::Over(Outcome::Failed(error)),
                }
            },
            (ApplyPhase::Add, Reply::Stored(Ok(_))) => ApplyNext::Running(
                ApplyRun { legs, phase: ApplyPhase::Claim, index },
            ),
            (ApplyPhase::Add, Reply::Stored(Err(cause))) => {
                let client_order_id: String = legs[index].order.client_order_id.clone();
                ApplyNext::Over(
                    Outcome::Failed(SettlementError::CannotAdd { client_order_id, cause }),
                )
            },
            (ApplyPhase::Claim, Reply::Stored(Ok(_))) => {
                if index + 1 == legs.len() {
                    Self::record_accounts(&legs, account_ids);
                }
                Self::go_on(legs, ApplyPhase::Register, index + 1)
            },
            (ApplyPhase::Claim, Reply::Stored(Err(cause))) => {
                let client_order_id: String = legs[index].order.client_order_id.clone();
                let venue_order_id: String = legs[index].fill.venue_order_id.clone();
                ApplyNext::Over(
                    Outcome::Failed(
                        SettlementError::CannotClaim { client_order_id, venue_order_id, cause },
                    ),
                )
            },
            (ApplyPhase::Publish, Reply::Order(cached)) => {
                match option_cached_settlement_order(&legs[index], cached) {
                    Ok(order) => {
                        if order.status == OrderStatus::Initialized {
                            events.push(Event::Initialized(order));
                        }
                        Self::go_on(legs, ApplyPhase::Publish, index + 1)
                    },
                    Err(error) => ApplyNext::Over(Outcome::Failed(error)),
                }
            },
            (ApplyPhase::Accept, Reply::Order(cached)) => {
                match option_cached_settlement_order(&legs[index], cached) {
                    Ok(order) => {
                        if order.status == OrderStatus::Initialized {
                            let venue_order_id: String = legs[index].fill.venue_order_id.clone();
                            events.push(Event::Accepted { order, venue_order_id });
                        }
                        Self::go_on(legs, ApplyPhase::Accept, index + 1)
                    },
                    Err(error) => ApplyNext::Over(Outcome::Failed(error)),
                }
            },
            (ApplyPhase::Fill, Reply::Order(cached)) => {
                match option_cached_settlement_order(&legs[index], cached) {
                    Ok(order) => {
                        if order.status != OrderStatus::Filled {
                            events.push(Event::Filled(legs[index].fill.clone()));
                        }
                        Self::go_on(legs, ApplyPhase::Fill, index + 1)
                    },
                    Err(error) => ApplyNext::Over(Outcome::Failed(error)),
                }
            },
            _ => ApplyNext::Running(ApplyRun { legs, phase, index }),
        };
        assert(event_views(events@) =~= apply_step(run, reply@).1);
        (next, events)
    }
}

} // verus!
