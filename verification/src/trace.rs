//! What holds of applying a plan as a whole, whatever the cache answers on the way.
use vstd::prelude::*;

#[allow(unused_imports)]
use crate::apply::{
    accounts_after, apply_from, apply_request, apply_step, same_terms, with_accounts, ApplyNextView,
    ApplyPhase, ApplyView,
};
#[allow(unused_imports)]
use crate::model::{LegView, OrderStatus, Text};
#[allow(unused_imports)]
use crate::protocol::{answers, EventView, OutcomeView, ReplyView};

verus! {

/// An event that a run gave out, with the leg and the phase that it was at.
pub struct Emission {
    pub phase: ApplyPhase,
    pub index: int,
    pub event: EventView,
}

/// Where a plan's run stands after a list of answers.
pub open spec fn state_after(legs: Seq<LegView>, replies: Seq<ReplyView>) -> ApplyNextView
    decreases replies.len(),
{
    if replies.len() == 0 {
        apply_from(legs, ApplyPhase::Register, 0)
    } else {
        match state_after(legs, replies.drop_last()) {
            ApplyNextView::Running(run) => apply_step(run, replies.last()).0,
            ApplyNextView::Over(outcome) => ApplyNextView::Over(outcome),
        }
    }
}

/// What one answer makes a run give out.
pub open spec fn emissions_of(state: ApplyNextView, reply: ReplyView) -> Seq<Emission> {
    match state {
        ApplyNextView::Running(run) => apply_step(run, reply).1.map_values(
            |event: EventView| Emission { phase: run.phase, index: run.index, event },
        ),
        ApplyNextView::Over(_) => seq![],
    }
}

/// Everything that a plan's run has given out after a list of answers.
pub open spec fn emissions_after(legs: Seq<LegView>, replies: Seq<ReplyView>) -> Seq<Emission>
    decreases replies.len(),
{
    if replies.len() == 0 {
        seq![]
    } else {
        emissions_after(legs, replies.drop_last()) + emissions_of(
            state_after(legs, replies.drop_last()),
            replies.last(),
        )
    }
}

/// The recorded accounts after a list of answers.
pub open spec fn recorded_after(
    accounts: Map<Text, Text>,
    legs: Seq<LegView>,
    replies: Seq<ReplyView>,
) -> Map<Text, Text>
    decreases replies.len(),
{
    if replies.len() == 0 {
        accounts
    } else {
        let before = recorded_after(accounts, legs, replies.drop_last());
        match state_after(legs, replies.drop_last()) {
            ApplyNextView::Running(run) => accounts_after(before, run, replies.last()),
            ApplyNextView::Over(_) => before,
        }
    }
}

/// Every leg of the plan has been registered.
pub open spec fn is_registered(state: ApplyNextView) -> bool {
    match state {
        ApplyNextView::Running(run) => run.phase == ApplyPhase::Publish || run.phase
            == ApplyPhase::Accept || run.phase == ApplyPhase::Fill,
        ApplyNextView::Over(OutcomeView::Complete) => true,
        ApplyNextView::Over(OutcomeView::Failed(error)) => error is NotCached,
        ApplyNextView::Over(_) => false,
    }
}

/// How far a phase is: phases that follow each other for all legs have rising numbers.
pub open spec fn phase_rank(phase: ApplyPhase) -> int {
    match phase {
        ApplyPhase::Register | ApplyPhase::Add | ApplyPhase::Claim => 0,
        ApplyPhase::Publish => 1,
        ApplyPhase::Accept => 2,
        ApplyPhase::Fill => 3,
    }
}

/// How many steps a run has behind it: at most three to register each leg, and one in each
/// of the phases after that.
pub open spec fn progress(legs: Seq<LegView>, run: ApplyView) -> int {
    match run.phase {
        ApplyPhase::Register => 3 * run.index,
        ApplyPhase::Add => 3 * run.index + 1,
        ApplyPhase::Claim => 3 * run.index + 2,
        ApplyPhase::Publish => 3 * legs.len() + run.index,
        ApplyPhase::Accept => 4 * legs.len() + run.index,
        ApplyPhase::Fill => 5 * legs.len() + run.index,
    }
}

/// A run works on the legs of its plan, and on one of them at a time.
pub proof fn law_run_stays_in_plan(legs: Seq<LegView>, replies: Seq<ReplyView>)
    ensures
        state_after(legs, replies) matches ApplyNextView::Running(run) ==> run.legs == legs && 0
            <= run.index < legs.len(),
    decreases replies.len(),
{
    if replies.len() > 0 {
        law_run_stays_in_plan(legs, replies.drop_last());
    }
}

/// Every answer of the kind that was asked for brings a run forward.
pub proof fn law_answers_bring_a_run_forward(
    legs: Seq<LegView>,
    replies: Seq<ReplyView>,
    reply: ReplyView,
)
    ensures
        state_after(legs, replies) matches ApplyNextView::Running(run) ==> {
            &&& 0 <= progress(legs, run) < 6 * legs.len()
            &&& answers(apply_request(run), reply) ==> match state_after(
                legs,
                replies.push(reply),
            ) {
                ApplyNextView::Running(next) => progress(legs, next) > progress(legs, run),
                ApplyNextView::Over(_) => true,
            }
        },
{
    law_run_stays_in_plan(legs, replies);
    assert(replies.push(reply).drop_last() =~= replies);
}

/// Every answer so far was of the kind that was asked for.
pub open spec fn all_answered(legs: Seq<LegView>, replies: Seq<ReplyView>) -> bool {
    forall|j: int|
        #![trigger replies[j]]
        0 <= j < replies.len() ==> (state_after(legs, replies.take(j)) matches
            ApplyNextView::Running(run) ==> answers(apply_request(run), replies[j]))
}

/// A run has at least as many steps behind it as it was given answers.
proof fn lemma_progress(legs: Seq<LegView>, replies: Seq<ReplyView>)
    requires
        all_answered(legs, replies),
    ensures
        state_after(legs, replies) matches ApplyNextView::Running(run) ==> progress(legs, run)
            >= replies.len(),
    decreases replies.len(),
{
    if replies.len() > 0 {
        let earlier = replies.drop_last();
        assert forall|j: int|
            #![trigger earlier[j]]
            0 <= j < earlier.len() implies (state_after(legs, earlier.take(j)) matches
            ApplyNextView::Running(run) ==> answers(apply_request(run), earlier[j])) by {
            assert(earlier[j] == replies[j]);
            assert(earlier.take(j) =~= replies.take(j));
        }
        lemma_progress(legs, earlier);
        law_answers_bring_a_run_forward(legs, earlier, replies.last());
        assert(earlier.push(replies.last()) =~= replies);
        assert(replies.last() == replies[earlier.len() as int]);
        assert(replies.take(earlier.len() as int) =~= earlier);
    }
}

/// A run of `n` legs that gets the answers it asks for is over after `6 * n` of them at the
/// latest.
pub proof fn law_run_ends(legs: Seq<LegView>, replies: Seq<ReplyView>)
    requires
        all_answered(legs, replies),
        replies.len() >= 6 * legs.len(),
    ensures
        state_after(legs, replies) is Over,
{
    lemma_progress(legs, replies);
    if state_after(legs, replies) is Running {
        law_answers_bring_a_run_forward(legs, replies, ReplyView::Order(None));
    }
}

/// Nothing is given out and no account is recorded before every leg of the plan has been
/// registered, so also where a registration fails; then the accounts of all legs are
/// recorded, and no others.
pub proof fn law_registration_is_all_or_nothing(
    accounts: Map<Text, Text>,
    legs: Seq<LegView>,
    replies: Seq<ReplyView>,
)
    ensures
        !is_registered(state_after(legs, replies)) ==> emissions_after(legs, replies).len() == 0,
        recorded_after(accounts, legs, replies) == if is_registered(state_after(legs, replies)) {
            with_accounts(accounts, legs)
        } else {
            accounts
        },
    decreases replies.len(),
{
    if replies.len() > 0 {
        law_registration_is_all_or_nothing(accounts, legs, replies.drop_last());
        law_run_stays_in_plan(legs, replies.drop_last());
    }
}

/// The answer number `j` was given at leg `k` in `phase`.
pub open spec fn is_at(
    legs: Seq<LegView>,
    replies: Seq<ReplyView>,
    phase: ApplyPhase,
    k: int,
    j: int,
) -> bool {
    &&& 0 <= j < replies.len()
    &&& state_after(legs, replies.take(j)) == ApplyNextView::Running(
        ApplyView { legs, phase, index: k },
    )
}

/// The answer number `j` was an order with the terms of leg `k`, cached under its
/// identifier.
pub open spec fn found_at(legs: Seq<LegView>, replies: Seq<ReplyView>, k: int, j: int) -> bool {
    &&& is_at(legs, replies, ApplyPhase::Register, k, j)
    &&& replies[j] matches ReplyView::Order(Some(order)) && same_terms(order, legs[k].order)
}

/// The answer number `j` was that no order is cached under the identifier of leg `k`.
pub open spec fn missed_at(legs: Seq<LegView>, replies: Seq<ReplyView>, k: int, j: int) -> bool {
    is_at(legs, replies, ApplyPhase::Register, k, j) && replies[j] == ReplyView::Order(None)
}

/// The answer number `j` was that the cache took the order of leg `k`.
pub open spec fn added_at(legs: Seq<LegView>, replies: Seq<ReplyView>, k: int, j: int) -> bool {
    is_at(legs, replies, ApplyPhase::Add, k, j) && replies[j] matches ReplyView::Stored(Ok(_))
}

/// Before the answer number `until`, the order of leg `k` was found with its terms, or it
/// was missed and then added.
pub open spec fn is_held(
    legs: Seq<LegView>,
    replies: Seq<ReplyView>,
    k: int,
    until: int,
) -> bool {
    ||| exists|j: int| j < until && #[trigger] found_at(legs, replies, k, j)
    ||| exists|i: int, j: int|
        i < j < until && #[trigger] missed_at(legs, replies, k, i) && #[trigger] added_at(
            legs,
            replies,
            k,
            j,
        )
}

/// The answer number `j` was that the cache took the venue order identifier of leg `k`,
/// whose order it held by then.
pub open spec fn claimed_at(legs: Seq<LegView>, replies: Seq<ReplyView>, k: int, j: int) -> bool {
    &&& is_at(legs, replies, ApplyPhase::Claim, k, j)
    &&& replies[j] matches ReplyView::Stored(Ok(_))
    &&& is_held(legs, replies, k, j)
}

/// Leg `k` was registered: its order was found with its terms or added, and then its venue
/// order identifier was recorded.
pub open spec fn is_leg_registered(legs: Seq<LegView>, replies: Seq<ReplyView>, k: int) -> bool {
    exists|j: int| #[trigger] claimed_at(legs, replies, k, j)
}

/// How many legs a run has registered.
pub open spec fn registered_legs(legs: Seq<LegView>, state: ApplyNextView) -> int {
    if is_registered(state) {
        legs.len() as int
    } else {
        match state {
            ApplyNextView::Running(run) => run.index,
            ApplyNextView::Over(_) => 0,
        }
    }
}

/// What was answered stays answered.
proof fn lemma_held_stays_held(
    legs: Seq<LegView>,
    earlier: Seq<ReplyView>,
    reply: ReplyView,
    k: int,
    until: int,
)
    requires
        is_held(legs, earlier, k, until),
    ensures
        is_held(legs, earlier.push(reply), k, until),
{
    let replies = earlier.push(reply);
    assert forall|j: int| 0 <= j < earlier.len() implies #[trigger] replies.take(j) == earlier.take(
        j,
    ) by {
        assert(replies.take(j) =~= earlier.take(j));
    }
    if exists|j: int| j < until && #[trigger] found_at(legs, earlier, k, j) {
        let j = choose|j: int| j < until && #[trigger] found_at(legs, earlier, k, j);
        assert(replies.take(j) == earlier.take(j));
        assert(found_at(legs, replies, k, j));
    } else {
        let (i, j) = choose|i: int, j: int|
            i < j < until && #[trigger] missed_at(legs, earlier, k, i) && #[trigger] added_at(
                legs,
                earlier,
                k,
                j,
            );
        assert(replies.take(i) == earlier.take(i));
        assert(replies.take(j) == earlier.take(j));
        assert(missed_at(legs, replies, k, i));
        assert(added_at(legs, replies, k, j));
    }
}

/// A run that puts an order in the cache has missed it; one that records a venue order
/// identifier has the order in the cache.
proof fn lemma_claims_what_is_held(legs: Seq<LegView>, replies: Seq<ReplyView>)
    ensures
        state_after(legs, replies) matches ApplyNextView::Running(run) ==> {
            &&& run.phase == ApplyPhase::Add ==> exists|i: int|
                #[trigger] missed_at(legs, replies, run.index, i)
            &&& run.phase == ApplyPhase::Claim ==> is_held(
                legs,
                replies,
                run.index,
                replies.len() as int,
            )
        },
    decreases replies.len(),
{
    if replies.len() > 0 {
        let earlier = replies.drop_last();
        let reply = replies.last();
        let n = earlier.len() as int;
        assert(earlier.push(reply) =~= replies);
        assert(replies.take(n) =~= earlier);
        lemma_claims_what_is_held(legs, earlier);
        law_run_stays_in_plan(legs, earlier);
        if let ApplyNextView::Running(before) = state_after(legs, earlier) {
            if let ApplyNextView::Running(run) = state_after(legs, replies) {
                let k = run.index;
                if run.phase == ApplyPhase::Add {
                    if before.phase == ApplyPhase::Register {
                        assert(missed_at(legs, replies, k, n));
                    } else {
                        let i = choose|i: int| #[trigger] missed_at(legs, earlier, k, i);
                        assert(replies.take(i) =~= earlier.take(i));
                        assert(missed_at(legs, replies, k, i));
                    }
                }
                if run.phase == ApplyPhase::Claim {
                    if before.phase == ApplyPhase::Register {
                        assert(found_at(legs, replies, k, n));
                    } else if before.phase == ApplyPhase::Add {
                        let i = choose|i: int| #[trigger] missed_at(legs, earlier, k, i);
                        assert(replies.take(i) =~= earlier.take(i));
                        assert(missed_at(legs, replies, k, i));
                        assert(added_at(legs, replies, k, n));
                    } else {
                        lemma_held_stays_held(legs, earlier, reply, k, n);
                    }
                }
            }
        }
    }
}

/// Every leg that a run has registered was either found in the cache with the same terms or
/// added to it, and then claimed. So where a plan is registered, that holds of every leg.
pub proof fn law_registered_legs_are_found_or_added_and_claimed(
    legs: Seq<LegView>,
    replies: Seq<ReplyView>,
)
    ensures
        forall|k: int|
            0 <= k < registered_legs(legs, state_after(legs, replies))
                ==> #[trigger] is_leg_registered(legs, replies, k),
    decreases replies.len(),
{
    if replies.len() > 0 {
        let earlier = replies.drop_last();
        let reply = replies.last();
        let n = earlier.len() as int;
        let before = state_after(legs, earlier);
        assert(earlier.push(reply) =~= replies);
        assert(replies.take(n) =~= earlier);
        law_registered_legs_are_found_or_added_and_claimed(legs, earlier);
        law_run_stays_in_plan(legs, earlier);
        lemma_claims_what_is_held(legs, earlier);
        assert forall|k: int|
            0 <= k < registered_legs(legs, state_after(legs, replies)) implies
            #[trigger] is_leg_registered(legs, replies, k) by {
            if k < registered_legs(legs, before) {
                assert(is_leg_registered(legs, earlier, k));
                let j = choose|j: int| #[trigger] claimed_at(legs, earlier, k, j);
                assert(replies.take(j) =~= earlier.take(j));
                lemma_held_stays_held(legs, earlier, reply, k, j);
                assert(claimed_at(legs, replies, k, j));
            } else {
                lemma_held_stays_held(legs, earlier, reply, k, n);
                assert(claimed_at(legs, replies, k, n));
            }
        }
    }
}

/// The event at a leg in a phase: the order's initialization is published, the order is
/// accepted under the planned venue order identifier, or the planned fill is dispatched.
pub open spec fn is_emission_of(leg: LegView, emission: Emission) -> bool {
    match emission.phase {
        ApplyPhase::Publish => emission.event matches EventView::Initialized(order) && order.status
            == OrderStatus::Initialized,
        ApplyPhase::Accept => emission.event matches EventView::Accepted { order, venue_order_id }
            && order.status == OrderStatus::Initialized && venue_order_id
            == leg.fill.venue_order_id,
        ApplyPhase::Fill => emission.event == EventView::Filled(leg.fill),
        _ => false,
    }
}

/// One emission comes before another: in an earlier phase, or in the same phase at an
/// earlier leg.
pub open spec fn comes_before(earlier: Emission, later: Emission) -> bool {
    phase_rank(earlier.phase) < phase_rank(later.phase) || (earlier.phase == later.phase
        && earlier.index < later.index)
}

/// What a run gives out belongs to its plan.
pub proof fn law_events_belong_to_the_plan(legs: Seq<LegView>, replies: Seq<ReplyView>)
    ensures
        forall|i: int|
            #![trigger emissions_after(legs, replies)[i]]
            0 <= i < emissions_after(legs, replies).len() ==> {
                let emission = emissions_after(legs, replies)[i];
                0 <= emission.index < legs.len() && is_emission_of(legs[emission.index], emission)
            },
    decreases replies.len(),
{
    if replies.len() > 0 {
        law_events_belong_to_the_plan(legs, replies.drop_last());
        law_run_stays_in_plan(legs, replies.drop_last());
        let before = emissions_after(legs, replies.drop_last());
        assert forall|i: int|
            #![trigger emissions_after(legs, replies)[i]]
            0 <= i < emissions_after(legs, replies).len() implies {
            let emission = emissions_after(legs, replies)[i];
            0 <= emission.index < legs.len() && is_emission_of(legs[emission.index], emission)
        } by {
            if i < before.len() {
                assert(emissions_after(legs, replies)[i] == before[i]);
            }
        }
    }
}

/// Everything that was given out is behind the leg and the phase that a run is at.
proof fn lemma_emissions_are_behind(legs: Seq<LegView>, replies: Seq<ReplyView>)
    ensures
        state_after(legs, replies) matches ApplyNextView::Running(run) ==> forall|i: int|
            #![trigger emissions_after(legs, replies)[i]]
            0 <= i < emissions_after(legs, replies).len() ==> {
                let emission = emissions_after(legs, replies)[i];
                phase_rank(emission.phase) < phase_rank(run.phase) || (emission.phase == run.phase
                    && emission.index < run.index)
            },
    decreases replies.len(),
{
    if replies.len() > 0 {
        lemma_emissions_are_behind(legs, replies.drop_last());
        law_run_stays_in_plan(legs, replies.drop_last());
        law_registration_is_all_or_nothing(Map::empty(), legs, replies.drop_last());
        let before = emissions_after(legs, replies.drop_last());
        let now = emissions_after(legs, replies);
        assert forall|i: int| 0 <= i < before.len() implies #[trigger] now[i] == before[i] by {}
    }
}

/// Events come phase by phase, and in each phase in the order of the legs: all orders are
/// published before one is accepted, all are accepted before one is filled, and no event of
/// a leg is given out twice.
pub proof fn law_events_come_in_order(legs: Seq<LegView>, replies: Seq<ReplyView>)
    ensures
        forall|i: int, j: int|
            #![trigger emissions_after(legs, replies)[i], emissions_after(legs, replies)[j]]
            0 <= i < j < emissions_after(legs, replies).len() ==> comes_before(
                emissions_after(legs, replies)[i],
                emissions_after(legs, replies)[j],
            ),
    decreases replies.len(),
{
    if replies.len() > 0 {
        law_events_come_in_order(legs, replies.drop_last());
        lemma_emissions_are_behind(legs, replies.drop_last());
        let before = emissions_after(legs, replies.drop_last());
        let now = emissions_after(legs, replies);
        assert forall|i: int, j: int|
            #![trigger now[i], now[j]]
            0 <= i < j < now.len() implies comes_before(now[i], now[j]) by {
            assert(now[i] == before[i]);
            if j < before.len() {
                assert(now[j] == before[j]);
            }
        }
    }
}

/// The fill of an earlier leg is given out before that of a later leg: where a position
/// settles by delivery, the option is closed before the underlying is opened.
pub proof fn law_earlier_legs_are_filled_first(
    legs: Seq<LegView>,
    replies: Seq<ReplyView>,
    i: int,
    j: int,
)
    requires
        0 <= i < emissions_after(legs, replies).len(),
        0 <= j < emissions_after(legs, replies).len(),
        emissions_after(legs, replies)[i].phase == ApplyPhase::Fill,
        emissions_after(legs, replies)[j].phase == ApplyPhase::Fill,
        emissions_after(legs, replies)[i].index < emissions_after(legs, replies)[j].index,
    ensures
        i < j,
{
    law_events_come_in_order(legs, replies);
}

/// The answer number `j` was the cached order of leg `k`, to be filled unless it was.
pub open spec fn is_filled_by(
    legs: Seq<LegView>,
    replies: Seq<ReplyView>,
    k: int,
    j: int,
) -> bool {
    &&& 0 <= j < replies.len()
    &&& state_after(legs, replies.take(j)) == ApplyNextView::Running(
        ApplyView { legs, phase: ApplyPhase::Fill, index: k },
    )
    &&& replies[j] matches ReplyView::Order(Some(order)) && (order.status == OrderStatus::Filled
        || emissions_after(legs, replies).contains(
        Emission { phase: ApplyPhase::Fill, index: k, event: EventView::Filled(legs[k].fill) },
    ))
}

/// Leg `k` was found filled, or its fill was given out.
pub open spec fn is_filled(legs: Seq<LegView>, replies: Seq<ReplyView>, k: int) -> bool {
    exists|j: int| #[trigger] is_filled_by(legs, replies, k, j)
}

/// How many legs a run has seen filled.
pub open spec fn filled_legs(legs: Seq<LegView>, state: ApplyNextView) -> int {
    match state {
        ApplyNextView::Running(run) => if run.phase == ApplyPhase::Fill {
            run.index
        } else {
            0
        },
        ApplyNextView::Over(OutcomeView::Complete) => legs.len() as int,
        ApplyNextView::Over(_) => 0,
    }
}

/// Every leg that a run is past in its last phase was found filled, or its fill was given
/// out. So where a run ends complete, that holds of every leg.
pub proof fn law_complete_means_every_leg_is_filled(legs: Seq<LegView>, replies: Seq<ReplyView>)
    ensures
        forall|k: int|
            0 <= k < filled_legs(legs, state_after(legs, replies)) ==> #[trigger] is_filled(
                legs,
                replies,
                k,
            ),
    decreases replies.len(),
{
    if replies.len() > 0 {
        let earlier = replies.drop_last();
        let n = earlier.len() as int;
        law_complete_means_every_leg_is_filled(legs, earlier);
        law_run_stays_in_plan(legs, earlier);
        let before = state_after(legs, earlier);
        assert(replies.take(n) =~= earlier);
        assert forall|k: int| 0 <= k < filled_legs(legs, state_after(legs, replies)) implies
            #[trigger] is_filled(legs, replies, k) by {
            if k < filled_legs(legs, before) {
                assert(is_filled(legs, earlier, k));
                let j = choose|j: int| #[trigger] is_filled_by(legs, earlier, k, j);
                assert(replies.take(j) =~= earlier.take(j));
                let emission = Emission {
                    phase: ApplyPhase::Fill,
                    index: k,
                    event: EventView::Filled(legs[k].fill),
                };
                if emissions_after(legs, earlier).contains(emission) {
                    let i = choose|i: int|
                        0 <= i < emissions_after(legs, earlier).len() && emissions_after(
                            legs,
                            earlier,
                        )[i] == emission;
                    assert(emissions_after(legs, replies)[i] == emission);
                }
                assert(is_filled_by(legs, replies, k, j));
            } else {
                let run = before->Running_0;
                let new = emissions_of(before, replies.last());
                assert(replies.last() == replies[n]);
                let order = replies[n]->Order_0->0;
                if order.status != OrderStatus::Filled {
                    assert(apply_step(run, replies[n]).1 == seq![EventView::Filled(legs[k].fill)]);
                    assert(new.len() == 1);
                    let at = emissions_after(legs, earlier).len() as int;
                    assert(emissions_after(legs, replies)[at] == new[0]);
                }
                assert(is_filled_by(legs, replies, k, n));
            }
        }
    }
}

/// A plan whose orders are all found filled gives out nothing.
pub proof fn law_filled_orders_give_out_nothing(legs: Seq<LegView>, replies: Seq<ReplyView>)
    requires
        forall|j: int|
            0 <= j < replies.len() ==> ((#[trigger] replies[j]) matches ReplyView::Order(
                Some(order),
            ) ==> order.status == OrderStatus::Filled),
    ensures
        emissions_after(legs, replies).len() == 0,
    decreases replies.len(),
{
    if replies.len() > 0 {
        assert forall|j: int| 0 <= j < replies.drop_last().len() implies ((
        #[trigger] replies.drop_last()[j]) matches ReplyView::Order(Some(order)) ==> order.status
            == OrderStatus::Filled) by {
            assert(replies.drop_last()[j] == replies[j]);
        }
        law_filled_orders_give_out_nothing(legs, replies.drop_last());
        assert(replies.last() == replies[replies.len() - 1]);
    }
}

} // verus!
