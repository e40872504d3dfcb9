//! Planning: the legs that settle a list of positions.
use vstd::prelude::*;

use crate::amounts::{Price, Quantity};
use crate::engine::{make_expiration_tag, OrderMatchingEngine};
use crate::faults::SettlementFault;
#[allow(unused_imports)]
use crate::faults::{
    can_identify, cash_fault, close_fault, exercise_fault, lemma_no_fault, otm_fault,
    physical_fault, position_fault, positions_fault,
};
#[allow(unused_imports)]
use crate::model::{leg_views, position_views, InstrumentView, LegView, PositionView};
use crate::model::{
    closing_side, InstrumentAny, OptionKind, OptionSettlementLeg, OptionSettlementPlan, OrderAny,
    OrderFilled, OrderSide, Position, PositionSide, UnixNanos,
};
#[allow(unused_imports)]
use crate::terms::{
    is_cash_leg, is_opening_leg, is_otm_leg, is_physical_close_leg, is_plan, legs_per_position,
    settles_position, EngineView,
};

verus! {

/// What keeps a position from being closed.
fn option_close_fault(position: &Position) -> (fault: Option<SettlementFault>)
    ensures
        fault == close_fault(position@),
{
    if position.side == PositionSide::Flat {
        Some(SettlementFault::FlatPosition)
    } else if position.quantity.mantissa == 0 {
        Some(SettlementFault::NonPositiveQuantity)
    } else {
        None
    }
}

/// The legs settle the first `count` positions.
spec fn settles_first(
    engine: EngineView,
    positions: Seq<PositionView>,
    underlying: InstrumentView,
    underlying_price: Price,
    exercise: bool,
    ts_now: UnixNanos,
    close: Option<Price>,
    clock: Seq<UnixNanos>,
    legs: Seq<LegView>,
    count: int,
) -> bool {
    forall|k: int|
        #![trigger positions[k]]
        0 <= k < count ==> settles_position(
            engine,
            positions[k],
            underlying,
            underlying_price,
            exercise,
            ts_now,
            close,
            clock,
            legs,
            legs_per_position(exercise, underlying) * k,
        )
}

/// Legs that are added behind those of the first `count` positions leave them settled; with
/// the legs of the next position, that is settled too.
proof fn lemma_earlier_legs_stay(
    engine: EngineView,
    positions: Seq<PositionView>,
    underlying: InstrumentView,
    underlying_price: Price,
    exercise: bool,
    ts_now: UnixNanos,
    close: Option<Price>,
    clock: Seq<UnixNanos>,
    before: Seq<OptionSettlementLeg>,
    legs: Seq<OptionSettlementLeg>,
    count: int,
)
    requires
        0 <= count < positions.len(),
        before.len() == legs_per_position(exercise, underlying) * count,
        before.len() <= legs.len(),
        legs.take(before.len() as int) == before,
        settles_first(
            engine,
            positions,
            underlying,
            underlying_price,
            exercise,
            ts_now,
            close,
            clock,
            leg_views(before),
            count,
        ),
        settles_position(
            engine,
            positions[count],
            underlying,
            underlying_price,
            exercise,
            ts_now,
            close,
            clock,
            leg_views(legs),
            before.len() as int,
        ),
    ensures
        settles_first(
            engine,
            positions,
            underlying,
            underlying_price,
            exercise,
            ts_now,
            close,
            clock,
            leg_views(legs),
            count + 1,
        ),
{
    let each = legs_per_position(exercise, underlying);
    let was = leg_views(before);
    let now = leg_views(legs);
    assert forall|k: int| 0 <= k < was.len() implies was[k] == #[trigger] now[k] by {
        assert(legs.take(before.len() as int)[k] == legs[k]);
    }
    assert forall|k: int|
        #![trigger positions[k]]
        0 <= k < count + 1 implies settles_position(
        engine,
        positions[k],
        underlying,
        underlying_price,
        exercise,
        ts_now,
        close,
        clock,
        now,
        each * k,
    ) by {
        if k < count {
            assert(was[each * k] == now[each * k]);
            if each == 2 {
                assert(was[each * k + 1] == now[each * k + 1]);
            }
        }
    }
}

impl OrderMatchingEngine {
    /// Plans the settlement of an exercised position in cash. The order is initialized at
    /// `ts_init`.
    pub fn option_plan_cash_settlement(
        &self,
        position: &Position,
        underlying_price: Price,
        ts_now: UnixNanos,
        option_close_price: Option<Price>,
        ts_init: UnixNanos,
    ) -> (leg: OptionSettlementLeg)
        requires
            cash_fault(self@, position@, underlying_price, option_close_price) is None,
        ensures
            is_cash_leg(
                self@,
                position@,
                underlying_price,
                option_close_price,
                ts_init,
                ts_now,
                leg@,
            ),
    {
        let ids: (String, String, String) = self.option_settlement_ids(position, "cash");
        let close_px: Price = match option_close_price {
            Some(price) => price,
            None => self.option_settlement_price(underlying_price, true),
        };
        let close_side: OrderSide = closing_side(position.side).unwrap();
        let tag: String = make_expiration_tag(self.venue.as_str(), "_CASH");
        let order: OrderAny = self.option_create_settlement_order(
            position,
            self.instrument.id.clone(),
            close_side,
            position.quantity,
            ids.0.clone(),
            true,
            tag.as_str(),
            ts_init,
        );
        let fill: OrderFilled = self.option_create_close_fill(
            position,
            close_px,
            ids.0,
            ids.1,
            ids.2,
            ts_now,
        );
        OptionSettlementLeg { order, fill }
    }

    /// Plans the closing of a position that expires out of the money. The order is
    /// initialized at `ts_init`.
    pub fn option_plan_otm_expiry(
        &self,
        position: &Position,
        ts_now: UnixNanos,
        option_close_price: Option<Price>,
        ts_init: UnixNanos,
    ) -> (leg: OptionSettlementLeg)
        requires
            otm_fault(self@, position@) is None,
        ensures
            is_otm_leg(self@, position@, option_close_price, ts_init, ts_now, leg@),
    {
        let ids: (String, String, String) = self.option_settlement_ids(position, "otm");
        let close_px: Price = match option_close_price {
            Some(price) => price,
            None => Price::zero(self.instrument.price_precision),
        };
        let close_side: OrderSide = closing_side(position.side).unwrap();
        let tag: String = make_expiration_tag(self.venue.as_str(), "_OTM");
        let order: OrderAny = self.option_create_settlement_order(
            position,
            self.instrument.id.clone(),
            close_side,
            position.quantity,
            ids.0.clone(),
            true,
            tag.as_str(),
            ts_init,
        );
        let fill: OrderFilled = self.option_create_close_fill(
            position,
            close_px,
            ids.0,
            ids.1,
            ids.2,
            ts_now,
        );
        OptionSettlementLeg { order, fill }
    }

    /// Plans the settlement of an exercised position by delivery: first the option is
    /// closed, then the underlying is opened at the strike. The two orders are initialized
    /// at the two times in `ts_init`.
    pub fn option_plan_physical_settlement(
        &self,
        position: &Position,
        underlying_instrument: &InstrumentAny,
        underlying_price: Price,
        ts_now: UnixNanos,
        option_close_price: Option<Price>,
        ts_init: (UnixNanos, UnixNanos),
    ) -> (legs: (OptionSettlementLeg, OptionSettlementLeg))
        requires
            physical_fault(self@, position@, underlying_instrument@) is None,
        ensures
            is_physical_close_leg(
                self@,
                position@,
                option_close_price,
                ts_init.0,
                ts_now,
                legs.0@,
            ),
            is_opening_leg(
                self@,
                position@,
                underlying_instrument@,
                ts_init.1,
                ts_now,
                legs.1@,
            ),
    {
        let underlying_qty: Quantity = match self.option_delivered_quantity(
            position,
            underlying_instrument,
        ) {
            Ok(quantity) => quantity,
            Err(_) => vstd::pervasive::unreached(),
        };
        let is_call: bool = match self.instrument.option_kind {
            Some(OptionKind::Call) => true,
            _ => false,
        };
        let underlying_side: PositionSide = if is_call {
            position.side
        } else {
            match position.side {
                PositionSide::Long => PositionSide::Short,
                PositionSide::Short => PositionSide::Long,
                PositionSide::Flat => PositionSide::Flat,
            }
        };
        let close_ids: (String, String, String) = self.option_settlement_ids(
            position,
            "physical-close",
        );
        let open_ids: (String, String, String) = self.option_settlement_ids(
            position,
            "physical-open",
        );
        let settlement_px: Price = self.option_settlement_price(underlying_price, false);
        let option_close_px: Price = match option_close_price {
            Some(price) => price,
            None => Price::zero(self.instrument.price_precision),
        };
        let close_side: OrderSide = closing_side(position.side).unwrap();
        let underlying_order_side: OrderSide = match underlying_side {
            PositionSide::Long => OrderSide::Buy,
            _ => OrderSide::Sell,
        };
        let close_tag: String = make_expiration_tag(self.venue.as_str(), "_PHYSICAL_CLOSE");
        let close_order: OrderAny = self.option_create_settlement_order(
            position,
            self.instrument.id.clone(),
            close_side,
            position.quantity,
            close_ids.0.clone(),
            true,
            close_tag.as_str(),
            ts_init.0,
        );
        let open_tag: String = make_expiration_tag(self.venue.as_str(), "_PHYSICAL_OPEN");
        let open_order: OrderAny = self.option_create_settlement_order(
            position,
            underlying_instrument.id.clone(),
            underlying_order_side,
            underlying_qty,
            open_ids.0.clone(),
            false,
            open_tag.as_str(),
            ts_init.1,
        );
        let option_fill: OrderFilled = self.option_create_close_fill(
            position,
            option_close_px,
            close_ids.0,
            close_ids.1,
            close_ids.2,
            ts_now,
        );
        let delivery: OrderFilled = self.option_create_underlying_fill(
            position,
            underlying_instrument,
            underlying_qty,
            underlying_side,
            settlement_px,
            open_ids.0,
            open_ids.1,
            open_ids.2,
            ts_now,
        );
        (
            OptionSettlementLeg { order: close_order, fill: option_fill },
            OptionSettlementLeg { order: open_order, fill: delivery },
        )
    }

    /// Adds the legs of an exercised position to the plan: in cash where the underlying is
    /// an index, by delivery where it trades. `clock` holds a reading for each leg of the
    /// whole plan.
    pub fn option_plan_exercise_position(
        &self,
        legs: &mut Vec<OptionSettlementLeg>,
        position: &Position,
        underlying_instrument: &InstrumentAny,
        underlying_price: Price,
        ts_now: UnixNanos,
        option_close_price: Option<Price>,
        clock: &Vec<UnixNanos>,
    )
        requires
            position_fault(
                self@,
                position@,
                underlying_instrument@,
                underlying_price,
                true,
                option_close_price,
            ) is None,
            old(legs)@.len() + legs_per_position(true, underlying_instrument@) <= clock@.len(),
        ensures
            final(legs)@.len() == old(legs)@.len() + legs_per_position(
                true,
                underlying_instrument@,
            ),
            final(legs)@.take(old(legs)@.len() as int) == old(legs)@,
            settles_position(
                self@,
                position@,
                underlying_instrument@,
                underlying_price,
                true,
                ts_now,
                option_close_price,
                clock@,
                leg_views(final(legs)@),
                old(legs)@.len() as int,
            ),
    {
        let first: usize = legs.len();
        if underlying_instrument.is_index {
            let leg: OptionSettlementLeg = self.option_plan_cash_settlement(
                position,
                underlying_price,
                ts_now,
                option_close_price,
                clock[first],
            );
            legs.push(leg);
        } else {
            assert(first + 1 < clock.len());
            let (close, open): (OptionSettlementLeg, OptionSettlementLeg) =
                self.option_plan_physical_settlement(
                position,
                underlying_instrument,
                underlying_price,
                ts_now,
                option_close_price,
                (clock[first], clock[first + 1]),
            );
            legs.push(close);
            legs.push(open);
        }
        assert(legs@.take(first as int) =~= old(legs)@);
    }

    /// What keeps the exercise decision from being taken at this price.
    pub fn option_exercise_fault(&self, underlying_price: Price) -> (fault: Option<SettlementFault>)
        ensures
            fault == exercise_fault(self@.instrument, underlying_price),
    {
        match self.instrument.strike_price {
            Some(strike) if !(strike.is_valid() && underlying_price.is_valid()) => Some(
                SettlementFault::AmountOutOfRange,
            ),
            _ => None,
        }
    }

    /// Whether the engine can make identifiers.
    pub fn option_can_identify(&self) -> (able: bool)
        ensures
            able == can_identify(self@),
    {
        self.config.use_random_ids || self.instrument.expiration_ns.is_some()
    }

    /// What keeps an exercised position from being settled by delivery.
    fn option_physical_fault(&self, position: &Position, underlying_instrument: &InstrumentAny) -> (fault:
        Option<SettlementFault>)
        ensures
            fault == physical_fault(self@, position@, underlying_instrument@),
    {
        let quantity: Quantity = match self.option_delivered_quantity(
            position,
            underlying_instrument,
        ) {
            Ok(quantity) => quantity,
            Err(fault) => return Some(fault),
        };
        if !self.option_can_identify() {
            return Some(SettlementFault::MissingExpiration);
        }
        if self.instrument.strike_price.is_none() {
            return Some(SettlementFault::MissingStrike);
        }
        match option_close_fault(position) {
            Some(fault) => Some(fault),
            None => if quantity.mantissa == 0 {
                Some(SettlementFault::NonPositiveQuantity)
            } else {
                None
            },
        }
    }

    /// What keeps a position from being settled.
    fn option_position_fault(
        &self,
        position: &Position,
        underlying_instrument: &InstrumentAny,
        underlying_price: Price,
        should_exercise: bool,
        option_close_price: Option<Price>,
    ) -> (fault: Option<SettlementFault>)
        ensures
            fault == position_fault(
                self@,
                position@,
                underlying_instrument@,
                underlying_price,
                should_exercise,
                option_close_price,
            ),
    {
        if should_exercise && !underlying_instrument.is_index {
            return self.option_physical_fault(position, underlying_instrument);
        }
        if !self.option_can_identify() {
            return Some(SettlementFault::MissingExpiration);
        }
        if should_exercise && option_close_price.is_none() {
            match self.option_cash_price(underlying_price) {
                Ok(_) => {},
                Err(fault) => return Some(fault),
            }
        }
        option_close_fault(position)
    }

    /// What keeps `positions` from being settled: the fault of the first that has one.
    pub fn option_settlement_fault(
        &self,
        positions: &Vec<Position>,
        underlying_instrument: &InstrumentAny,
        underlying_price: Price,
        should_exercise: bool,
        option_close_price: Option<Price>,
    ) -> (fault: Option<SettlementFault>)
        ensures
            fault == positions_fault(
                self@,
                position_views(positions@),
                underlying_instrument@,
                underlying_price,
                should_exercise,
                option_close_price,
            ),
    {
        let ghost views = position_views(positions@);
        let mut i: usize = 0;
        let mut fault: Option<SettlementFault> = None;
        assert(views.take(0) =~= seq![]);
        while i < positions.len()
            invariant
                i <= positions@.len(),
                views == position_views(positions@),
                fault == positions_fault(
                    self@,
                    views.take(i as int),
                    underlying_instrument@,
                    underlying_price,
                    should_exercise,
                    option_close_price,
                ),
            decreases positions@.len() - i,
        {
            assert(views.take(i + 1).drop_last() =~= views.take(i as int));
            if fault.is_none() {
                fault =
                self.option_position_fault(
                    &positions[i],
                    underlying_instrument,
                    underlying_price,
                    should_exercise,
                    option_close_price,
                );
            }
            i += 1;
        }
        assert(views.take(i as int) =~= views);
        fault
    }

    /// How many legs settle `positions`.
    pub fn option_settlement_leg_count(
        positions: &Vec<Position>,
        underlying_instrument: &InstrumentAny,
        should_exercise: bool,
    ) -> (count: u128)
        ensures
            count == legs_per_position(should_exercise, underlying_instrument@) * positions@.len(),
    {
        let each: u128 = if should_exercise && !underlying_instrument.is_index {
            2
        } else {
            1
        };
        each * (positions.len() as u128)
    }

    /// The plan that settles `positions`. `clock` holds a reading of the engine's clock for
    /// each leg: the time at which its order is initialized.
    pub fn option_create_settlement_plan(
        &self,
        positions: &Vec<Position>,
        underlying_instrument: &InstrumentAny,
        underlying_price: Price,
        should_exercise: bool,
        ts_now: UnixNanos,
        option_close_price: Option<Price>,
        clock: &Vec<UnixNanos>,
    ) -> (plan: OptionSettlementPlan)
        requires
            positions_fault(
                self@,
                position_views(positions@),
                underlying_instrument@,
                underlying_price,
                should_exercise,
                option_close_price,
            ) is None,
            clock@.len() == legs_per_position(should_exercise, underlying_instrument@)
                * positions@.len(),
        ensures
            is_plan(
                self@,
                position_views(positions@),
                underlying_instrument@,
                underlying_price,
                should_exercise,
                ts_now,
                option_close_price,
                clock@,
                plan@,
            ),
    {
        let mut legs: Vec<OptionSettlementLeg> = Vec::new();
        let ghost views = position_views(positions@);
        let ghost each = legs_per_position(should_exercise, underlying_instrument@);
        proof {
            lemma_no_fault(
                self@,
                views,
                underlying_instrument@,
                underlying_price,
                should_exercise,
                option_close_price,
            );
        }
        let mut i: usize = 0;
        while i < positions.len()
            invariant
                i <= positions@.len(),
                views == position_views(positions@),
                each == legs_per_position(should_exercise, underlying_instrument@),
                clock@.len() == each * positions@.len(),
                legs@.len() == each * i,
                forall|k: int|
                    #![trigger views[k]]
                    0 <= k < views.len() ==> position_fault(
                        self@,
                        views[k],
                        underlying_instrument@,
                        underlying_price,
                        should_exercise,
                        option_close_price,
                    ) is None,
                settles_first(
                    self@,
                    views,
                    underlying_instrument@,
                    underlying_price,
                    should_exercise,
                    ts_now,
                    option_close_price,
                    clock@,
                    leg_views(legs@),
                    i as int,
                ),
            decreases positions@.len() - i,
        {
            let ghost before = legs@;
            let position: &Position = &positions[i];
            assert(views[i as int] == position@);
            if should_exercise {
                self.option_plan_exercise_position(
                    &mut legs,
                    position,
                    underlying_instrument,
                    underlying_price,
                    ts_now,
                    option_close_price,
                    clock,
                );
            } else {
                let leg: OptionSettlementLeg = self.option_plan_otm_expiry(
                    position,
                    ts_now,
                    option_close_price,
                    clock[legs.len()],
                );
                legs.push(leg);
                assert(legs@.take(before.len() as int) =~= before);
            }
            proof {
                lemma_earlier_legs_stay(
                    self@,
                    views,
                    underlying_instrument@,
                    underlying_price,
                    should_exercise,
                    ts_now,
                    option_close_price,
                    clock@,
                    before,
                    legs@,
                    i as int,
                );
            }
            i += 1;
        }
        OptionSettlementPlan { legs }
    }
}

} // verus!
