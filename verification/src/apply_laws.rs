//! What a run that applies a plan does at each leg, answer by answer, and what it has done
//! for every leg that it is past.
#[allow(unused_imports)]
use vstd::arithmetic::power::pow;
use vstd::prelude::*;

#[allow(unused_imports)]
use crate::apply::{
    accounts_after, apply_from, apply_request, apply_step, with_accounts, ApplyNextView, ApplyPhase,
    ApplyView,
};
#[allow(unused_imports)]
use crate::errors::ErrorView;
#[allow(unused_imports)]
use crate::model::{LegView, OrderStatus, OrderView, Text};
#[allow(unused_imports)]
use crate::protocol::{EventView, OutcomeView, ReplyView, RequestView};
#[allow(unused_imports)]
use crate::trace::{
    emissions_after, emissions_of, law_run_stays_in_plan, state_after, Emission,
};

verus! {

/// Applying a plan begins with the registration of its first leg; a plan without legs is
/// complete.
pub proof fn law_a_run_begins_at_the_first_leg(legs: Seq<LegView>)
    ensures
        legs.len() > 0 ==> apply_from(legs, ApplyPhase::Register, 0) == ApplyNextView::Running(
            ApplyView { legs, phase: ApplyPhase::Register, index: 0 },
        ),
        legs.len() == 0 ==> apply_from(legs, ApplyPhase::Register, 0) == ApplyNextView::Over(
            OutcomeView::Complete,
        ),
{
}

/// A run asks for the order of the leg that it is at under its client order identifier. To
/// add it, it hands in the order with its fill's position; to claim it, its two identifiers.
pub proof fn law_a_run_asks_about_its_leg(run: ApplyView)
    ensures
        ({
            let leg = run.legs[run.index];
            match apply_request(run) {
                RequestView::AddOrder { order, position_id } => {
                    &&& run.phase == ApplyPhase::Add
                    &&& order == leg.order
                    &&& position_id == leg.fill.position_id
                },
                RequestView::AddVenueOrderId { client_order_id, venue_order_id } => {
                    &&& run.phase == ApplyPhase::Claim
                    &&& client_order_id == leg.order.client_order_id
                    &&& venue_order_id == leg.fill.venue_order_id
                },
                RequestView::Order { client_order_id } => {
                    &&& run.phase != ApplyPhase::Add
                    &&& run.phase != ApplyPhase::Claim
                    &&& client_order_id == leg.order.client_order_id
                },
                _ => false,
            }
        }),
{
}

/// A leg whose order is not cached is to be added. A cached order is claimed where it has
/// the leg's instrument, side, amount and reduce-only flag, whatever else it has, and is a
/// conflict where one of these differs. Nothing is given out.
pub proof fn law_registering_a_leg(legs: Seq<LegView>, k: int, reply: ReplyView)
    requires
        0 <= k < legs.len(),
    ensures
        ({
            let run = ApplyView { legs, phase: ApplyPhase::Register, index: k };
            let planned = legs[k].order;
            let (next, events) = apply_step(run, reply);
            &&& events.len() == 0
            &&& match reply {
                ReplyView::Order(None) => next == ApplyNextView::Running(
                    ApplyView { legs, phase: ApplyPhase::Add, index: k },
                ),
                ReplyView::Order(Some(order)) => {
                    let agrees = order.instrument_id == planned.instrument_id && order.order_side
                        == planned.order_side && order.quantity.mantissa * pow(
                        10,
                        planned.quantity.precision as nat,
                    ) == planned.quantity.mantissa * pow(10, order.quantity.precision as nat)
                        && order.is_reduce_only == planned.is_reduce_only;
                    &&& agrees ==> next == ApplyNextView::Running(
                        ApplyView { legs, phase: ApplyPhase::Claim, index: k },
                    )
                    &&& !agrees ==> next == ApplyNextView::Over(
                        OutcomeView::Failed(
                            ErrorView::Conflict { client_order_id: planned.client_order_id },
                        ),
                    )
                },
                _ => next == ApplyNextView::Running(run),
            }
        }),
{
}

/// A leg whose order the cache took is claimed; otherwise the run fails with the cause.
/// Nothing is given out.
pub proof fn law_adding_a_leg(legs: Seq<LegView>, k: int, reply: ReplyView)
    requires
        0 <= k < legs.len(),
    ensures
        ({
            let run = ApplyView { legs, phase: ApplyPhase::Add, index: k };
            let (next, events) = apply_step(run, reply);
            &&& events.len() == 0
            &&& match reply {
                ReplyView::Stored(Ok(_)) => next == ApplyNextView::Running(
                    ApplyView { legs, phase: ApplyPhase::Claim, index: k },
                ),
                ReplyView::Stored(Err(cause)) => next == ApplyNextView::Over(
                    OutcomeView::Failed(
                        ErrorView::CannotAdd {
                            client_order_id: legs[k].order.client_order_id,
                            cause,
                        },
                    ),
                ),
                _ => next == ApplyNextView::Running(run),
            }
        }),
{
}

/// Behind a leg whose venue order identifier the cache took, the next leg is registered, or
/// behind the last one, the first is published; otherwise the run fails with the cause.
/// Nothing is given out.
pub proof fn law_claiming_a_leg(legs: Seq<LegView>, k: int, reply: ReplyView)
    requires
        0 <= k < legs.len(),
    ensures
        ({
            let run = ApplyView { legs, phase: ApplyPhase::Claim, index: k };
            let (next, events) = apply_step(run, reply);
            &&& events.len() == 0
            &&& match reply {
                ReplyView::Stored(Ok(_)) => next == ApplyNextView::Running(
                    if k + 1 < legs.len() {
                        ApplyView { legs, phase: ApplyPhase::Register, index: k + 1 }
                    } else {
                        ApplyView { legs, phase: ApplyPhase::Publish, index: 0 }
                    },
                ),
                ReplyView::Stored(Err(cause)) => next == ApplyNextView::Over(
                    OutcomeView::Failed(
                        ErrorView::CannotClaim {
                            client_order_id: legs[k].order.client_order_id,
                            venue_order_id: legs[k].fill.venue_order_id,
                            cause,
                        },
                    ),
                ),
                _ => next == ApplyNextView::Running(run),
            }
        }),
{
}

/// The initialization of an order that is cached as initialized is published, whatever the
/// order, and of no other. Then the next leg is published, or behind the last one, the first
/// is accepted. A leg whose order is not cached ends the run.
pub proof fn law_publishing_a_leg(legs: Seq<LegView>, k: int, reply: ReplyView)
    requires
        0 <= k < legs.len(),
    ensures
        ({
            let run = ApplyView { legs, phase: ApplyPhase::Publish, index: k };
            let (next, events) = apply_step(run, reply);
            match reply {
                ReplyView::Order(Some(order)) => {
                    &&& order.status == OrderStatus::Initialized ==> events.len() == 1 && events[0]
                        == EventView::Initialized(order)
                    &&& order.status != OrderStatus::Initialized ==> events.len() == 0
                    &&& next == ApplyNextView::Running(
                        if k + 1 < legs.len() {
                            ApplyView { legs, phase: ApplyPhase::Publish, index: k + 1 }
                        } else {
                            ApplyView { legs, phase: ApplyPhase::Accept, index: 0 }
                        },
                    )
                },
                ReplyView::Order(None) => {
                    &&& events.len() == 0
                    &&& next == ApplyNextView::Over(
                        OutcomeView::Failed(
                            ErrorView::NotCached {
                                client_order_id: legs[k].order.client_order_id,
                            },
                        ),
                    )
                },
                _ => events.len() == 0 && next == ApplyNextView::Running(run),
            }
        }),
{
}

/// An order that is cached as initialized is accepted under the venue order identifier of
/// its leg, whatever the order, and no other is. Then the next leg is accepted, or behind the
/// last one, the first is filled. A leg whose order is not cached ends the run.
pub proof fn law_accepting_a_leg(legs: Seq<LegView>, k: int, reply: ReplyView)
    requires
        0 <= k < legs.len(),
    ensures
        ({
            let run = ApplyView { legs, phase: ApplyPhase::Accept, index: k };
            let (next, events) = apply_step(run, reply);
            match reply {
                ReplyView::Order(Some(order)) => {
                    &&& order.status == OrderStatus::Initialized ==> events.len() == 1 && events[0]
                        == (EventView::Accepted {
                        order,
                        venue_order_id: legs[k].fill.venue_order_id,
                    })
                    &&& order.status != OrderStatus::Initialized ==> events.len() == 0
                    &&& next == ApplyNextView::Running(
                        if k + 1 < legs.len() {
                            ApplyView { legs, phase: ApplyPhase::Accept, index: k + 1 }
                        } else {
                            ApplyView { legs, phase: ApplyPhase::Fill, index: 0 }
                        },
                    )
                },
                ReplyView::Order(None) => {
                    &&& events.len() == 0
                    &&& next == ApplyNextView::Over(
                        OutcomeView::Failed(
                            ErrorView::NotCached {
                                client_order_id: legs[k].order.client_order_id,
                            },
                        ),
                    )
                },
                _ => events.len() == 0 && next == ApplyNextView::Running(run),
            }
        }),
{
}

/// The planned fill of a leg is given out exactly where its cached order is not filled,
/// whatever the order. Then the next leg is filled, or behind the last one, the run is
/// complete. A leg whose order is not cached ends the run.
pub proof fn law_filling_a_leg(legs: Seq<LegView>, k: int, reply: ReplyView)
    requires
        0 <= k < legs.len(),
    ensures
        ({
            let run = ApplyView { legs, phase: ApplyPhase::Fill, index: k };
            let (next, events) = apply_step(run, reply);
            match reply {
                ReplyView::Order(Some(order)) => {
                    &&& order.status != OrderStatus::Filled ==> events.len() == 1 && events[0]
                        == EventView::Filled(legs[k].fill)
                    &&& order.status == OrderStatus::Filled ==> events.len() == 0
                    &&& next == if k + 1 < legs.len() {
                        ApplyNextView::Running(
                            ApplyView { legs, phase: ApplyPhase::Fill, index: k + 1 },
                        )
                    } else {
                        ApplyNextView::Over(OutcomeView::Complete)
                    }
                },
                ReplyView::Order(None) => {
                    &&& events.len() == 0
                    &&& next == ApplyNextView::Over(
                        OutcomeView::Failed(
                            ErrorView::NotCached {
                                client_order_id: legs[k].order.client_order_id,
                            },
                        ),
                    )
                },
                _ => events.len() == 0 && next == ApplyNextView::Running(run),
            }
        }),
{
}

/// Recording the accounts of legs gives each trader of a leg the account of the trader's last
/// leg, and leaves every other trader's account alone.
pub proof fn law_accounts_of_legs(accounts: Map<Text, Text>, legs: Seq<LegView>, trader: Text)
    ensures
        ({
            let after = with_accounts(accounts, legs);
            ||| {
                &&& forall|k: int| 0 <= k < legs.len() ==> (#[trigger] legs[k]).fill.trader_id
                    != trader
                &&& after.contains_key(trader) == accounts.contains_key(trader)
                &&& after.contains_key(trader) ==> after[trader] == accounts[trader]
            }
            ||| exists|k: int|
                {
                    &&& 0 <= k < legs.len()
                    &&& (#[trigger] legs[k]).fill.trader_id == trader
                    &&& after.contains_key(trader)
                    &&& after[trader] == legs[k].fill.account_id
                    &&& forall|later: int|
                        k < later < legs.len() ==> (#[trigger] legs[later]).fill.trader_id != trader
                }
        }),
    decreases legs.len(),
{
    if legs.len() > 0 {
        let front = legs.drop_last();
        let n = legs.len() - 1;
        let after = with_accounts(accounts, legs);
        law_accounts_of_legs(accounts, front, trader);
        assert forall|k: int| 0 <= k < n implies front[k] == #[trigger] legs[k] by {}
        assert forall|k: int| 0 <= k < n implies #[trigger] front[k] == legs[k] by {}
        if legs[n].fill.trader_id == trader {
            assert(after[trader] == legs[n].fill.account_id);
        } else {
            let before = with_accounts(accounts, front);
            assert(after.contains_key(trader) == before.contains_key(trader));
            if exists|k: int| 0 <= k < n && (#[trigger] front[k]).fill.trader_id == trader {
                let k = choose|k: int|
                    {
                        &&& 0 <= k < front.len()
                        &&& (#[trigger] front[k]).fill.trader_id == trader
                        &&& before.contains_key(trader)
                        &&& before[trader] == front[k].fill.account_id
                        &&& forall|later: int|
                            k < later < front.len() ==> (#[trigger] front[later]).fill.trader_id
                                != trader
                    };
                assert(legs[k].fill.trader_id == trader);
                assert(after[trader] == legs[k].fill.account_id);
                assert forall|later: int| k < later < legs.len() implies (
                #[trigger] legs[later]).fill.trader_id != trader by {
                    if later < n {
                        assert(front[later] == legs[later]);
                    }
                }
            } else {
                assert forall|k: int| 0 <= k < legs.len() implies (
                #[trigger] legs[k]).fill.trader_id != trader by {
                    if k < n {
                        assert(front[k] == legs[k]);
                    }
                }
            }
        }
    }
}

/// The accounts of the legs are recorded when the cache has taken the venue order identifier
/// of the last leg, and at no other answer.
pub proof fn law_accounts_are_recorded_behind_the_last_claim(
    accounts: Map<Text, Text>,
    run: ApplyView,
    reply: ReplyView,
)
    ensures
        accounts_after(accounts, run, reply) == if run.phase == ApplyPhase::Claim && run.index + 1
            == run.legs.len() && reply is Stored && reply->Stored_0 is Ok {
            with_accounts(accounts, run.legs)
        } else {
            accounts
        },
{
}

/// How many legs a run is past in the phase number `rank`: 1 for publishing, 2 for accepting,
/// 3 for filling. Where a run has failed, none is counted.
pub open spec fn legs_past(legs: Seq<LegView>, state: ApplyNextView, rank: int) -> int {
    match state {
        ApplyNextView::Running(run) => {
            let at: int = match run.phase {
                ApplyPhase::Publish => 1,
                ApplyPhase::Accept => 2,
                ApplyPhase::Fill => 3,
                _ => 0,
            };
            if at > rank {
                legs.len() as int
            } else if at == rank {
                run.index
            } else {
                0
            }
        },
        ApplyNextView::Over(OutcomeView::Complete) => legs.len() as int,
        ApplyNextView::Over(_) => 0,
    }
}

/// The answer number `j` was `order`, the cached order of leg `k`, to be published.
pub open spec fn shown_to_publish(
    legs: Seq<LegView>,
    replies: Seq<ReplyView>,
    k: int,
    j: int,
    order: OrderView,
) -> bool {
    &&& 0 <= j < replies.len()
    &&& state_after(legs, replies.take(j)) == ApplyNextView::Running(
        ApplyView { legs, phase: ApplyPhase::Publish, index: k },
    )
    &&& replies[j] == ReplyView::Order(Some(order))
}

/// The answer number `j` was `order`, the cached order of leg `k`, to be accepted.
pub open spec fn shown_to_accept(
    legs: Seq<LegView>,
    replies: Seq<ReplyView>,
    k: int,
    j: int,
    order: OrderView,
) -> bool {
    &&& 0 <= j < replies.len()
    &&& state_after(legs, replies.take(j)) == ApplyNextView::Running(
        ApplyView { legs, phase: ApplyPhase::Accept, index: k },
    )
    &&& replies[j] == ReplyView::Order(Some(order))
}

/// What was given out stays given out.
proof fn lemma_emissions_stay(
    legs: Seq<LegView>,
    replies: Seq<ReplyView>,
    emission: Emission,
)
    requires
        replies.len() > 0,
        emissions_after(legs, replies.drop_last()).contains(emission) || emissions_of(
            state_after(legs, replies.drop_last()),
            replies.last(),
        ).contains(emission),
    ensures
        emissions_after(legs, replies).contains(emission),
{
    let before = emissions_after(legs, replies.drop_last());
    let new = emissions_of(state_after(legs, replies.drop_last()), replies.last());
    let now = emissions_after(legs, replies);
    if before.contains(emission) {
        let i = choose|i: int| 0 <= i < before.len() && before[i] == emission;
        assert(now[i] == emission);
    } else {
        let i = choose|i: int| 0 <= i < new.len() && new[i] == emission;
        assert(now[before.len() + i] == emission);
    }
}

/// The initialization of leg `k` was published, or its order was found not to be initialized.
pub open spec fn is_published(legs: Seq<LegView>, replies: Seq<ReplyView>, k: int) -> bool {
    exists|j: int, order: OrderView| #[trigger]
        shown_to_publish(legs, replies, k, j, order) && (order.status != OrderStatus::Initialized
            || emissions_after(legs, replies).contains(
            Emission {
                phase: ApplyPhase::Publish,
                index: k,
                event: EventView::Initialized(order),
            },
        ))
}

/// Leg `k` was accepted under its venue order identifier, or its order was found not to be
/// initialized.
pub open spec fn is_accepted(legs: Seq<LegView>, replies: Seq<ReplyView>, k: int) -> bool {
    exists|j: int, order: OrderView| #[trigger]
        shown_to_accept(legs, replies, k, j, order) && (order.status != OrderStatus::Initialized
            || emissions_after(legs, replies).contains(
            Emission {
                phase: ApplyPhase::Accept,
                index: k,
                event: EventView::Accepted { order, venue_order_id: legs[k].fill.venue_order_id },
            },
        ))
}

/// Every leg that a run is past in the publishing phase was published, or its order was found
/// not to be initialized. So for every leg of a run that accepts, fills or is complete.
pub proof fn law_every_leg_is_published(legs: Seq<LegView>, replies: Seq<ReplyView>)
    ensures
        forall|k: int|
            0 <= k < legs_past(legs, state_after(legs, replies), 1) ==> #[trigger] is_published(
                legs,
                replies,
                k,
            ),
    decreases replies.len(),
{
    if replies.len() > 0 {
        let earlier = replies.drop_last();
        let n = earlier.len() as int;
        let before = state_after(legs, earlier);
        law_every_leg_is_published(legs, earlier);
        law_run_stays_in_plan(legs, earlier);
        assert(replies.take(n) =~= earlier);
        assert forall|k: int|
            0 <= k < legs_past(legs, state_after(legs, replies), 1) implies #[trigger] is_published(
            legs,
            replies,
            k,
        ) by {
            if k < legs_past(legs, before, 1) {
                assert(is_published(legs, earlier, k));
                let (j, order) = choose|j: int, order: OrderView| #[trigger]
                    shown_to_publish(legs, earlier, k, j, order) && (order.status
                        != OrderStatus::Initialized || emissions_after(legs, earlier).contains(
                        Emission {
                            phase: ApplyPhase::Publish,
                            index: k,
                            event: EventView::Initialized(order),
                        },
                    ));
                let emission = Emission {
                    phase: ApplyPhase::Publish,
                    index: k,
                    event: EventView::Initialized(order),
                };
                if order.status == OrderStatus::Initialized {
                    lemma_emissions_stay(legs, replies, emission);
                }
                assert(replies.take(j) =~= earlier.take(j));
                assert(shown_to_publish(legs, replies, k, j, order));
            } else {
                let order = replies[n]->Order_0->0;
                law_publishing_a_leg(legs, k, replies[n]);
                let emission = Emission {
                    phase: ApplyPhase::Publish,
                    index: k,
                    event: EventView::Initialized(order),
                };
                if order.status == OrderStatus::Initialized {
                    assert(emissions_of(before, replies.last())[0] == emission);
                    lemma_emissions_stay(legs, replies, emission);
                }
                assert(shown_to_publish(legs, replies, k, n, order));
            }
        }
    }
}

/// Every leg that a run is past in the accepting phase was accepted, or its order was found
/// not to be initialized. So for every leg of a run that fills or is complete.
pub proof fn law_every_leg_is_accepted(legs: Seq<LegView>, replies: Seq<ReplyView>)
    ensures
        forall|k: int|
            0 <= k < legs_past(legs, state_after(legs, replies), 2) ==> #[trigger] is_accepted(
                legs,
                replies,
                k,
            ),
    decreases replies.len(),
{
    if replies.len() > 0 {
        let earlier = replies.drop_last();
        let n = earlier.len() as int;
        let before = state_after(legs, earlier);
        law_every_leg_is_accepted(legs, earlier);
        law_run_stays_in_plan(legs, earlier);
        assert(replies.take(n) =~= earlier);
        assert forall|k: int|
            0 <= k < legs_past(legs, state_after(legs, replies), 2) implies #[trigger] is_accepted(
            legs,
            replies,
            k,
        ) by {
            if k < legs_past(legs, before, 2) {
                assert(is_accepted(legs, earlier, k));
                let (j, order) = choose|j: int, order: OrderView| #[trigger]
                    shown_to_accept(legs, earlier, k, j, order) && (order.status
                        != OrderStatus::Initialized || emissions_after(legs, earlier).contains(
                        Emission {
                            phase: ApplyPhase::Accept,
                            index: k,
                            event: EventView::Accepted {
                                order,
                                venue_order_id: legs[k].fill.venue_order_id,
                            },
                        },
                    ));
                let emission = Emission {
                    phase: ApplyPhase::Accept,
                    index: k,
                    event: EventView::Accepted {
                        order,
                        venue_order_id: legs[k].fill.venue_order_id,
                    },
                };
                if order.status == OrderStatus::Initialized {
                    lemma_emissions_stay(legs, replies, emission);
                }
                assert(replies.take(j) =~= earlier.take(j));
                assert(shown_to_accept(legs, replies, k, j, order));
            } else {
                let order = replies[n]->Order_0->0;
                law_accepting_a_leg(legs, k, replies[n]);
                let emission = Emission {
                    phase: ApplyPhase::Accept,
                    index: k,
                    event: EventView::Accepted {
                        order,
                        venue_order_id: legs[k].fill.venue_order_id,
                    },
                };
                if order.status == OrderStatus::Initialized {
                    assert(emissions_of(before, replies.last())[0] == emission);
                    lemma_emissions_stay(legs, replies, emission);
                }
                assert(shown_to_accept(legs, replies, k, n, order));
            }
        }
    }
}

} // verus!
