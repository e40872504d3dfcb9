//! The reasons for which positions cannot be settled at all. They are mistakes in the data
//! that the engine was given, not conditions that pass: nothing is planned and nothing is
//! retried.
use vstd::prelude::*;

use crate::amounts::Price;
#[allow(unused_imports)]
use crate::decimal::product;
use crate::model::{InstrumentView, PositionSide, PositionView};
#[allow(unused_imports)]
use crate::terms::{delivered_quantity, intrinsic_value, settlement_price, EngineView};

verus! {

/// Why positions cannot be settled.
#[derive(Clone, Copy, Debug, PartialEq, Eq, Structural)]
pub enum SettlementFault {
    /// The option has no expiration timestamp to derive identifiers from.
    MissingExpiration,
    /// The option has no strike price.
    MissingStrike,
    /// The option of a pending delivery has no strike price.
    MissingDeliveryStrike,
    /// The position is neither long nor short.
    FlatPosition,
    /// A settlement order would have no quantity.
    NonPositiveQuantity,
    /// An amount is out of the range of decimal arithmetic.
    AmountOutOfRange,
    /// The settlement price is no valid price.
    InvalidSettlementPrice,
    /// The quantity of the underlying to deliver is no valid quantity.
    InvalidUnderlyingQuantity,
}

impl SettlementFault {
    /// The fault in words.
    pub open spec fn spec_message(self) -> Seq<char> {
        match self {
            SettlementFault::MissingExpiration =>
                "option settlement requires an expiration timestamp"@,
            SettlementFault::MissingStrike => "option must have strike"@,
            SettlementFault::MissingDeliveryStrike =>
                "physical option settlement requires a strike price"@,
            SettlementFault::FlatPosition => "Settlement position must be Long or Short"@,
            SettlementFault::NonPositiveQuantity => "Settlement quantity must be positive"@,
            SettlementFault::AmountOutOfRange => "Amount exceeds the range of decimal numbers"@,
            SettlementFault::InvalidSettlementPrice => "Invalid option settlement price"@,
            SettlementFault::InvalidUnderlyingQuantity =>
                "Invalid underlying settlement quantity"@,
        }
    }

    /// The fault in words.
    pub fn message(&self) -> (message: &'static str)
        ensures
            message@ == self.spec_message(),
    {
        match self {
            SettlementFault::MissingExpiration =>
                "option settlement requires an expiration timestamp",
            SettlementFault::MissingStrike => "option must have strike",
            SettlementFault::MissingDeliveryStrike =>
                "physical option settlement requires a strike price",
            SettlementFault::FlatPosition => "Settlement position must be Long or Short",
            SettlementFault::NonPositiveQuantity => "Settlement quantity must be positive",
            SettlementFault::AmountOutOfRange => "Amount exceeds the range of decimal numbers",
            SettlementFault::InvalidSettlementPrice => "Invalid option settlement price",
            SettlementFault::InvalidUnderlyingQuantity => "Invalid underlying settlement quantity",
        }
    }
}

/// The engine can make identifiers.
pub open spec fn can_identify(engine: EngineView) -> bool {
    engine.use_random_ids || engine.instrument.expiration_ns is Some
}

/// What keeps the exercise decision from being taken at this price.
pub open spec fn exercise_fault(
    instrument: InstrumentView,
    underlying_price: Price,
) -> Option<SettlementFault> {
    if instrument.strike_price is Some && !(instrument.strike_price->0.wf()
        && underlying_price.wf()) {
        Some(SettlementFault::AmountOutOfRange)
    } else {
        None
    }
}

/// What keeps a position from being closed.
pub open spec fn close_fault(position: PositionView) -> Option<SettlementFault> {
    if position.side == PositionSide::Flat {
        Some(SettlementFault::FlatPosition)
    } else if position.quantity.mantissa == 0 {
        Some(SettlementFault::NonPositiveQuantity)
    } else {
        None
    }
}

/// What keeps a position from expiring out of the money.
pub open spec fn otm_fault(engine: EngineView, position: PositionView) -> Option<SettlementFault> {
    if !can_identify(engine) {
        Some(SettlementFault::MissingExpiration)
    } else {
        close_fault(position)
    }
}

/// What keeps the settlement price in cash from being computed.
pub open spec fn cash_price_fault(
    instrument: InstrumentView,
    underlying_price: Price,
) -> Option<SettlementFault> {
    if instrument.strike_price is None {
        Some(SettlementFault::MissingStrike)
    } else if !instrument.strike_price->0.wf() || !underlying_price.wf() {
        Some(SettlementFault::AmountOutOfRange)
    } else if intrinsic_value(instrument, instrument.strike_price->0, underlying_price) is None {
        Some(SettlementFault::AmountOutOfRange)
    } else if settlement_price(instrument, underlying_price, true) is None {
        Some(SettlementFault::InvalidSettlementPrice)
    } else {
        None
    }
}

/// What keeps an exercised position from being settled in cash.
pub open spec fn cash_fault(
    engine: EngineView,
    position: PositionView,
    underlying_price: Price,
    close: Option<Price>,
) -> Option<SettlementFault> {
    if !can_identify(engine) {
        Some(SettlementFault::MissingExpiration)
    } else if close is None && cash_price_fault(engine.instrument, underlying_price) is Some {
        cash_price_fault(engine.instrument, underlying_price)
    } else {
        close_fault(position)
    }
}

/// What keeps the quantity to deliver from being computed.
pub open spec fn delivery_fault(
    instrument: InstrumentView,
    underlying: InstrumentView,
    position: PositionView,
) -> Option<SettlementFault> {
    if !position.quantity.wf() || !instrument.multiplier.wf() {
        Some(SettlementFault::AmountOutOfRange)
    } else if product(position.quantity.amount(), instrument.multiplier.amount()) is None {
        Some(SettlementFault::AmountOutOfRange)
    } else if delivered_quantity(instrument, underlying, position.quantity) is None {
        Some(SettlementFault::InvalidUnderlyingQuantity)
    } else {
        None
    }
}

/// What keeps an exercised position from being settled by delivery.
pub open spec fn physical_fault(
    engine: EngineView,
    position: PositionView,
    underlying: InstrumentView,
) -> Option<SettlementFault> {
    if delivery_fault(engine.instrument, underlying, position) is Some {
        delivery_fault(engine.instrument, underlying, position)
    } else if !can_identify(engine) {
        Some(SettlementFault::MissingExpiration)
    } else if engine.instrument.strike_price is None {
        Some(SettlementFault::MissingStrike)
    } else if close_fault(position) is Some {
        close_fault(position)
    } else if delivered_quantity(engine.instrument, underlying, position.quantity)->0.mantissa
        == 0 {
        Some(SettlementFault::NonPositiveQuantity)
    } else {
        None
    }
}

/// What keeps a position from being settled.
pub open spec fn position_fault(
    engine: EngineView,
    position: PositionView,
    underlying: InstrumentView,
    underlying_price: Price,
    exercise: bool,
    close: Option<Price>,
) -> Option<SettlementFault> {
    if !exercise {
        otm_fault(engine, position)
    } else if underlying.is_index {
        cash_fault(engine, position, underlying_price, close)
    } else {
        physical_fault(engine, position, underlying)
    }
}

/// What keeps a list of positions from being settled: the fault of the first that has one.
pub open spec fn positions_fault(
    engine: EngineView,
    positions: Seq<PositionView>,
    underlying: InstrumentView,
    underlying_price: Price,
    exercise: bool,
    close: Option<Price>,
) -> Option<SettlementFault>
    decreases positions.len(),
{
    if positions.len() == 0 {
        None
    } else {
        let earlier = positions_fault(
            engine,
            positions.drop_last(),
            underlying,
            underlying_price,
            exercise,
            close,
        );
        if earlier is Some {
            earlier
        } else {
            position_fault(
                engine,
                positions.last(),
                underlying,
                underlying_price,
                exercise,
                close,
            )
        }
    }
}

/// Where a list of positions has no fault, none of them has.
pub proof fn lemma_no_fault(
    engine: EngineView,
    positions: Seq<PositionView>,
    underlying: InstrumentView,
    underlying_price: Price,
    exercise: bool,
    close: Option<Price>,
)
    requires
        positions_fault(engine, positions, underlying, underlying_price, exercise, close) is None,
    ensures
        forall|i: int|
            #![trigger positions[i]]
            0 <= i < positions.len() ==> position_fault(
                engine,
                positions[i],
                underlying,
                underlying_price,
                exercise,
                close,
            ) is None,
    decreases positions.len(),
{
    if positions.len() > 0 {
        let front = positions.drop_last();
        lemma_no_fault(engine, front, underlying, underlying_price, exercise, close);
        assert forall|i: int|
            #![trigger positions[i]]
            0 <= i < positions.len() implies position_fault(
            engine,
            positions[i],
            underlying,
            underlying_price,
            exercise,
            close,
        ) is None by {
            if i < front.len() {
                assert(front[i] == positions[i]);
            }
        }
    }
}

} // verus!
