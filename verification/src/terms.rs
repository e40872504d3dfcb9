//! What a settlement consists of: the mathematical statement of identifiers, prices,
//! quantities, orders, fills and legs.
use vstd::prelude::*;

use crate::amounts::{price_of, quantity_of, Price, Quantity};
use crate::decimal::{
    common_scale, difference, maximum, product, Amount, MAX_MANTISSA, MAX_SCALE,
};
use crate::model::{
    closing_side_of, opening_side_of, FillView, InstrumentView, LegView, LiquiditySide, MoneyView,
    OptionKind, OrderSide, OrderStatus, OrderType, OrderView, PositionSide, PositionView, Text,
    TimeInForce, UnixNanos,
};
use crate::uuids::{is_random_uuid_text, settlement_uuid};

verus! {

/// What settlement reads and keeps of a matching engine.
pub struct EngineView {
    pub venue: Text,
    pub instrument: InstrumentView,
    pub use_random_ids: bool,
    pub instrument_close: Option<Price>,
    pub warning: Option<Text>,
    pub warnings: Seq<Text>,
    pub account_ids: Map<Text, Text>,
}

/// The identifiers of one leg.
pub struct IdsView {
    pub client_order_id: Text,
    pub venue_order_id: Text,
    pub trade_id: Text,
}

/// The client order, venue order and trade identifiers in a triple of texts.
pub open spec fn ids_view(ids: (String, String, String)) -> IdsView {
    IdsView { client_order_id: ids.0@, venue_order_id: ids.1@, trade_id: ids.2@ }
}

/// The bytes of a text.
pub open spec fn utf8(text: Text) -> Seq<u8> {
    vstd::utf8::encode_utf8(text)
}

/// The eight bytes of a timestamp, the least significant first.
pub open spec fn little_endian(value: u64) -> Seq<u8> {
    vstd::bytes::spec_u64_to_le_bytes(value)
}

/// What identifies a position and its leg for good: nothing in it changes when the
/// position's fills are applied.
pub open spec fn identity_parts(
    engine: EngineView,
    position: PositionView,
    leg_role: Text,
    id_role: Text,
) -> Seq<Seq<u8>> {
    seq![
        utf8(position.account_id),
        utf8(position.trader_id),
        utf8(position.strategy_id),
        utf8(engine.instrument.id),
        utf8(position.id),
        utf8(position.opening_order_id),
        little_endian(position.ts_opened),
        little_endian(engine.instrument.expiration_ns->0),
        utf8(leg_role),
        utf8(id_role),
    ]
}

/// The UUID text of one identifier of a leg.
pub open spec fn identity_uuid(
    engine: EngineView,
    position: PositionView,
    leg_role: Text,
    id_role: Text,
) -> Text {
    settlement_uuid(identity_parts(engine, position, leg_role, id_role))
}

/// An order identifier at `venue` that is built on `uuid`.
pub open spec fn expiration_id(venue: Text, uuid: Text) -> Text {
    "EXPIRATION-"@ + venue + "-"@ + uuid
}

/// The tag of a settlement order at `venue`.
pub open spec fn expiration_tag(venue: Text, suffix: Text) -> Text {
    "EXPIRATION_"@ + venue + suffix
}

/// The identifiers of a leg that follow from its identity.
pub open spec fn deterministic_ids(
    engine: EngineView,
    position: PositionView,
    leg_role: Text,
) -> IdsView {
    IdsView {
        client_order_id: expiration_id(
            engine.venue,
            identity_uuid(engine, position, leg_role, "client-order"@),
        ),
        venue_order_id: expiration_id(
            engine.venue,
            identity_uuid(engine, position, leg_role, "venue-order"@),
        ),
        trade_id: identity_uuid(engine, position, leg_role, "trade"@),
    }
}

/// An order identifier at `venue` that is built on a random UUID.
pub open spec fn is_random_id(venue: Text, id: Text) -> bool {
    exists|uuid: Text|
        #![trigger expiration_id(venue, uuid)]
        is_random_uuid_text(uuid) && id == expiration_id(venue, uuid)
}

/// The identifiers that a leg may have: those that follow from its identity, or, where the
/// engine is set to random identifiers, any.
pub open spec fn ids_allowed(
    engine: EngineView,
    position: PositionView,
    leg_role: Text,
    ids: IdsView,
) -> bool {
    if engine.use_random_ids {
        &&& is_random_id(engine.venue, ids.client_order_id)
        &&& is_random_id(engine.venue, ids.venue_order_id)
        &&& is_random_uuid_text(ids.trade_id)
    } else {
        ids == deterministic_ids(engine, position, leg_role)
    }
}

/// The option is in the money: exercise pays.
pub open spec fn in_the_money(instrument: InstrumentView, underlying_price: Price) -> bool {
    match (instrument.strike_price, instrument.option_kind) {
        (Some(strike), Some(OptionKind::Call)) => strike.amount().less_than(
            underlying_price.amount(),
        ),
        (Some(strike), Some(OptionKind::Put)) => underlying_price.amount().less_than(
            strike.amount(),
        ),
        _ => false,
    }
}

/// What one unit of the option pays at expiry: for a call, by how much the underlying is
/// above the strike, for a put, by how much it is below; at least zero.
pub open spec fn intrinsic_value(
    instrument: InstrumentView,
    strike: Price,
    underlying_price: Price,
) -> Option<Amount> {
    let gain = if instrument.option_kind == Some(OptionKind::Call) {
        difference(underlying_price.amount(), strike.amount())
    } else {
        difference(strike.amount(), underlying_price.amount())
    };
    match gain {
        Some(value) => Some(maximum(value, Amount::zero())),
        None => None,
    }
}

/// By how much exercise gains, in units of the last decimal place of the finer of the two
/// prices.
pub open spec fn exact_gain(
    instrument: InstrumentView,
    strike: Price,
    underlying_price: Price,
) -> int {
    let scale = common_scale(underlying_price.amount(), strike.amount());
    let above = underlying_price.amount().at_scale(scale) - strike.amount().at_scale(scale);
    if instrument.option_kind == Some(OptionKind::Call) {
        above
    } else {
        -above
    }
}

/// Decimal arithmetic gives up no decimal place of the gain.
pub open spec fn gain_fits(
    instrument: InstrumentView,
    strike: Price,
    underlying_price: Price,
) -> bool {
    &&& strike.wf()
    &&& underlying_price.wf()
    &&& -MAX_MANTISSA <= exact_gain(instrument, strike, underlying_price) <= MAX_MANTISSA
}

/// The exact gain of exercise, or zero where there is none, in the units of
/// [`exact_gain`].
pub open spec fn exact_payoff(
    instrument: InstrumentView,
    strike: Price,
    underlying_price: Price,
) -> int {
    let gain = exact_gain(instrument, strike, underlying_price);
    if gain < 0 {
        0
    } else {
        gain
    }
}

/// The exact gain of exercise, or zero where there is none.
pub open spec fn exact_intrinsic_value(
    instrument: InstrumentView,
    strike: Price,
    underlying_price: Price,
) -> Amount {
    Amount {
        mantissa: exact_payoff(instrument, strike, underlying_price) as i128,
        scale: common_scale(underlying_price.amount(), strike.amount()) as u32,
    }
}

/// What holds of every settlement price in cash. Where the underlying's price is not finer
/// than the strike, nothing is rounded: the price is the exact gain of exercise, or zero.
/// Where it is finer, the price is the rounded gain, as far as decimal arithmetic gives up
/// no decimal place of it. A positive price goes with exercise, always; and exercise with a
/// positive price where nothing is rounded.
pub open spec fn is_cash_price(
    instrument: InstrumentView,
    underlying_price: Price,
    price: Price,
) -> bool {
    let strike = instrument.strike_price->0;
    &&& price.precision == strike.precision
    &&& price.mantissa >= 0
    &&& underlying_price.precision <= strike.precision ==> price.mantissa == exact_payoff(
        instrument,
        strike,
        underlying_price,
    )
    &&& gain_fits(instrument, strike, underlying_price) ==> Some(price) == price_of(
        exact_intrinsic_value(instrument, strike, underlying_price),
        strike.precision as int,
    )
    &&& instrument.option_kind is Some ==> {
        &&& price.mantissa > 0 ==> in_the_money(instrument, underlying_price)
        &&& underlying_price.precision <= strike.precision ==> (price.mantissa > 0
            <==> in_the_money(instrument, underlying_price))
    }
}

/// The price at which an exercised option settles: in cash, its intrinsic value at the
/// strike's precision; by delivery, the strike.
pub open spec fn settlement_price(
    instrument: InstrumentView,
    underlying_price: Price,
    cash_settled: bool,
) -> Option<Price> {
    match instrument.strike_price {
        None => None,
        Some(strike) => if !cash_settled {
            Some(strike)
        } else {
            match intrinsic_value(instrument, strike, underlying_price) {
                Some(value) => price_of(value, strike.precision as int),
                None => None,
            }
        },
    }
}

/// How much of the underlying a position delivers: its quantity times the contract
/// multiplier, at the underlying's size precision.
pub open spec fn delivered_quantity(
    instrument: InstrumentView,
    underlying: InstrumentView,
    quantity: Quantity,
) -> Option<Quantity> {
    match product(quantity.amount(), instrument.multiplier.amount()) {
        Some(value) => quantity_of(value, underlying.size_precision as int),
        None => None,
    }
}

/// Decimal arithmetic gives up no decimal place of a position's quantity times the contract
/// multiplier.
pub open spec fn delivery_fits(instrument: InstrumentView, quantity: Quantity) -> bool {
    &&& quantity.wf()
    &&& instrument.multiplier.wf()
    &&& quantity.precision + instrument.multiplier.precision <= MAX_SCALE
    &&& quantity.mantissa * instrument.multiplier.mantissa <= MAX_MANTISSA
}

/// A position's quantity times the contract multiplier.
pub open spec fn exact_delivery(instrument: InstrumentView, quantity: Quantity) -> Amount {
    Amount {
        mantissa: (quantity.mantissa * instrument.multiplier.mantissa) as i128,
        scale: (quantity.precision + instrument.multiplier.precision) as u32,
    }
}

/// What holds of every quantity that is delivered: where decimal arithmetic gives up no
/// decimal place, it is the rounded product.
pub open spec fn is_delivery(
    instrument: InstrumentView,
    underlying: InstrumentView,
    quantity: Quantity,
    delivered: Quantity,
) -> bool {
    &&& delivered.precision == underlying.size_precision
    &&& delivery_fits(instrument, quantity) ==> Some(delivered) == quantity_of(
        exact_delivery(instrument, quantity),
        underlying.size_precision as int,
    )
}

/// The side of the underlying position that delivery opens: a call's holder receives, a
/// put's holder delivers.
pub open spec fn delivered_side(instrument: InstrumentView, side: PositionSide) -> PositionSide {
    if instrument.option_kind == Some(OptionKind::Call) {
        side
    } else {
        match side {
            PositionSide::Long => PositionSide::Short,
            PositionSide::Short => PositionSide::Long,
            PositionSide::Flat => PositionSide::Flat,
        }
    }
}

/// The market order of a leg.
pub open spec fn settlement_order(
    position: PositionView,
    instrument_id: Text,
    order_side: OrderSide,
    quantity: Quantity,
    client_order_id: Text,
    reduce_only: bool,
    tag: Text,
    init_id: Text,
    ts_init: UnixNanos,
) -> OrderView {
    OrderView {
        trader_id: position.trader_id,
        strategy_id: position.strategy_id,
        instrument_id,
        client_order_id,
        venue_order_id: None,
        order_side,
        order_type: OrderType::Market,
        quantity,
        time_in_force: TimeInForce::Gtc,
        status: OrderStatus::Initialized,
        is_reduce_only: reduce_only,
        is_quote_quantity: false,
        init_id,
        ts_init,
        tags: Some(seq![tag]),
    }
}

/// The fill that closes an option position at `price`, free of commission.
pub open spec fn close_fill(
    engine: EngineView,
    position: PositionView,
    price: Price,
    ids: IdsView,
    event_id: Text,
    ts_now: UnixNanos,
) -> FillView {
    FillView {
        trader_id: position.trader_id,
        strategy_id: position.strategy_id,
        instrument_id: engine.instrument.id,
        client_order_id: ids.client_order_id,
        venue_order_id: ids.venue_order_id,
        account_id: position.account_id,
        trade_id: ids.trade_id,
        order_side: closing_side_of(position.side)->0,
        order_type: OrderType::Market,
        last_qty: position.quantity,
        last_px: price,
        currency: engine.instrument.quote_currency,
        liquidity_side: LiquiditySide::Taker,
        event_id,
        ts_event: ts_now,
        ts_init: ts_now,
        reconciliation: false,
        position_id: Some(position.id),
        commission: Some(MoneyView { units: 0, currency: engine.instrument.quote_currency }),
    }
}

/// The fill that opens a position in the underlying at `price`, free of commission.
pub open spec fn underlying_fill(
    position: PositionView,
    underlying: InstrumentView,
    quantity: Quantity,
    side: PositionSide,
    price: Price,
    ids: IdsView,
    event_id: Text,
    ts_now: UnixNanos,
) -> FillView {
    FillView {
        trader_id: position.trader_id,
        strategy_id: position.strategy_id,
        instrument_id: underlying.id,
        client_order_id: ids.client_order_id,
        venue_order_id: ids.venue_order_id,
        account_id: position.account_id,
        trade_id: ids.trade_id,
        order_side: opening_side_of(side)->0,
        order_type: OrderType::Market,
        last_qty: quantity,
        last_px: price,
        currency: underlying.quote_currency,
        liquidity_side: LiquiditySide::Taker,
        event_id,
        ts_event: ts_now,
        ts_init: ts_now,
        reconciliation: false,
        position_id: None,
        commission: Some(MoneyView { units: 0, currency: underlying.quote_currency }),
    }
}

/// The identifiers that a leg carries.
pub open spec fn ids_of(leg: LegView) -> IdsView {
    IdsView {
        client_order_id: leg.order.client_order_id,
        venue_order_id: leg.fill.venue_order_id,
        trade_id: leg.fill.trade_id,
    }
}

/// A leg that closes the option position at `price`: a reduce-only market order for the
/// whole position on its closing side, and the fill of that order.
pub open spec fn is_closing_leg(
    engine: EngineView,
    position: PositionView,
    leg_role: Text,
    tag_suffix: Text,
    price: Price,
    ts_init: UnixNanos,
    ts_now: UnixNanos,
    leg: LegView,
) -> bool {
    &&& ids_allowed(engine, position, leg_role, ids_of(leg))
    &&& is_random_uuid_text(leg.order.init_id)
    &&& is_random_uuid_text(leg.fill.event_id)
    &&& leg.order == settlement_order(
        position,
        engine.instrument.id,
        closing_side_of(position.side)->0,
        position.quantity,
        leg.order.client_order_id,
        true,
        expiration_tag(engine.venue, tag_suffix),
        leg.order.init_id,
        ts_init,
    )
    &&& leg.fill == close_fill(engine, position, price, ids_of(leg), leg.fill.event_id, ts_now)
}

/// A leg that opens the underlying position of a delivery at the strike.
pub open spec fn is_opening_leg(
    engine: EngineView,
    position: PositionView,
    underlying: InstrumentView,
    ts_init: UnixNanos,
    ts_now: UnixNanos,
    leg: LegView,
) -> bool {
    let side = delivered_side(engine.instrument, position.side);
    let quantity = delivered_quantity(engine.instrument, underlying, position.quantity)->0;
    &&& ids_allowed(engine, position, "physical-open"@, ids_of(leg))
    &&& is_delivery(engine.instrument, underlying, position.quantity, leg.order.quantity)
    &&& is_random_uuid_text(leg.order.init_id)
    &&& is_random_uuid_text(leg.fill.event_id)
    &&& leg.order == settlement_order(
        position,
        underlying.id,
        opening_side_of(side)->0,
        quantity,
        leg.order.client_order_id,
        false,
        expiration_tag(engine.venue, "_PHYSICAL_OPEN"@),
        leg.order.init_id,
        ts_init,
    )
    &&& leg.fill == underlying_fill(
        position,
        underlying,
        quantity,
        side,
        engine.instrument.strike_price->0,
        ids_of(leg),
        leg.fill.event_id,
        ts_now,
    )
}

/// The price at which an option that expires worthless, or is delivered, is closed: the
/// close price where there is one, else zero.
pub open spec fn close_price_or_zero(engine: EngineView, close: Option<Price>) -> Price {
    match close {
        Some(price) => price,
        None => Price { mantissa: 0, precision: engine.instrument.price_precision },
    }
}

/// The price at which a cash-settled option is closed: the close price where there is one,
/// else the settlement price.
pub open spec fn close_price_or_intrinsic(
    engine: EngineView,
    underlying_price: Price,
    close: Option<Price>,
) -> Price {
    match close {
        Some(price) => price,
        None => settlement_price(engine.instrument, underlying_price, true)->0,
    }
}

/// The leg of a position that expires out of the money.
pub open spec fn is_otm_leg(
    engine: EngineView,
    position: PositionView,
    close: Option<Price>,
    ts_init: UnixNanos,
    ts_now: UnixNanos,
    leg: LegView,
) -> bool {
    is_closing_leg(
        engine,
        position,
        "otm"@,
        "_OTM"@,
        close_price_or_zero(engine, close),
        ts_init,
        ts_now,
        leg,
    )
}

/// The leg of an exercised position that settles in cash.
pub open spec fn is_cash_leg(
    engine: EngineView,
    position: PositionView,
    underlying_price: Price,
    close: Option<Price>,
    ts_init: UnixNanos,
    ts_now: UnixNanos,
    leg: LegView,
) -> bool {
    &&& is_closing_leg(
        engine,
        position,
        "cash"@,
        "_CASH"@,
        close_price_or_intrinsic(engine, underlying_price, close),
        ts_init,
        ts_now,
        leg,
    )
    &&& close is None ==> is_cash_price(engine.instrument, underlying_price, leg.fill.last_px)
}

/// The leg that closes the option of an exercised position that settles by delivery.
pub open spec fn is_physical_close_leg(
    engine: EngineView,
    position: PositionView,
    close: Option<Price>,
    ts_init: UnixNanos,
    ts_now: UnixNanos,
    leg: LegView,
) -> bool {
    is_closing_leg(
        engine,
        position,
        "physical-close"@,
        "_PHYSICAL_CLOSE"@,
        close_price_or_zero(engine, close),
        ts_init,
        ts_now,
        leg,
    )
}

/// How many legs settle one position.
pub open spec fn legs_per_position(exercise: bool, underlying: InstrumentView) -> int {
    if exercise && !underlying.is_index {
        2
    } else {
        1
    }
}

/// The legs that settle one position, the first of them with number `first`; `clock` holds
/// the reading of the clock for each leg's order.
pub open spec fn settles_position(
    engine: EngineView,
    position: PositionView,
    underlying: InstrumentView,
    underlying_price: Price,
    exercise: bool,
    ts_now: UnixNanos,
    close: Option<Price>,
    clock: Seq<UnixNanos>,
    legs: Seq<LegView>,
    first: int,
) -> bool {
    if !exercise {
        is_otm_leg(engine, position, close, clock[first], ts_now, legs[first])
    } else if underlying.is_index {
        is_cash_leg(engine, position, underlying_price, close, clock[first], ts_now, legs[first])
    } else {
        &&& is_physical_close_leg(engine, position, close, clock[first], ts_now, legs[first])
        &&& is_opening_leg(
            engine,
            position,
            underlying,
            clock[first + 1],
            ts_now,
            legs[first + 1],
        )
    }
}

/// The plan that settles `positions`: the legs of each position, in the order of the
/// positions, and nothing else.
pub open spec fn is_plan(
    engine: EngineView,
    positions: Seq<PositionView>,
    underlying: InstrumentView,
    underlying_price: Price,
    exercise: bool,
    ts_now: UnixNanos,
    close: Option<Price>,
    clock: Seq<UnixNanos>,
    legs: Seq<LegView>,
) -> bool {
    let each = legs_per_position(exercise, underlying);
    &&& legs.len() == each * positions.len()
    &&& forall|i: int|
        #![trigger positions[i]]
        0 <= i < positions.len() ==> settles_position(
            engine,
            positions[i],
            underlying,
            underlying_price,
            exercise,
            ts_now,
            close,
            clock,
            legs,
            each * i,
        )
}

} // verus!
