//! What the legs of a plan are, field by field.
use vstd::prelude::*;

#[allow(unused_imports)]
use crate::amounts::{Price, Quantity};
#[allow(unused_imports)]
use crate::model::{
    InstrumentView, LegView, LiquiditySide, MoneyView, OptionKind, OrderSide, OrderStatus,
    OrderType, PositionSide, PositionView, Text, TimeInForce, UnixNanos,
};
#[allow(unused_imports)]
use crate::terms::{
    close_fill, delivered_quantity, deterministic_ids, expiration_id, expiration_tag, identity_uuid,
    ids_allowed, is_cash_price, is_delivery, is_plan, is_random_id, legs_per_position,
    settlement_order, settlement_price, settles_position, underlying_fill, EngineView, IdsView,
};
#[allow(unused_imports)]
use crate::uuids::{is_random_uuid_text, settlement_uuid};

verus! {

/// The identifiers that follow from a leg's identity: a trade identifier is the UUID that is
/// hashed from the account, the trader, the strategy, the instrument, the position, its
/// opening order, the two timestamps, the leg's role and the identifier's; an order
/// identifier is such a UUID behind `EXPIRATION` and the venue.
pub proof fn law_identifiers_are_hashed_from_the_identity(
    engine: EngineView,
    position: PositionView,
    leg_role: Text,
    any_role: Text,
    expiration: UnixNanos,
)
    requires
        engine.instrument.expiration_ns == Some(expiration),
    ensures
        ({
            let uuid = |id_role: Text|
                settlement_uuid(
                    seq![
                        vstd::utf8::encode_utf8(position.account_id),
                        vstd::utf8::encode_utf8(position.trader_id),
                        vstd::utf8::encode_utf8(position.strategy_id),
                        vstd::utf8::encode_utf8(engine.instrument.id),
                        vstd::utf8::encode_utf8(position.id),
                        vstd::utf8::encode_utf8(position.opening_order_id),
                        vstd::bytes::spec_u64_to_le_bytes(position.ts_opened),
                        vstd::bytes::spec_u64_to_le_bytes(expiration),
                        vstd::utf8::encode_utf8(leg_role),
                        vstd::utf8::encode_utf8(id_role),
                    ],
                );
            let ids = deterministic_ids(engine, position, leg_role);
            &&& ids.client_order_id == "EXPIRATION-"@ + engine.venue + "-"@ + uuid(
                "client-order"@,
            )
            &&& ids.venue_order_id == "EXPIRATION-"@ + engine.venue + "-"@ + uuid("venue-order"@)
            &&& ids.trade_id == uuid("trade"@)
            &&& identity_uuid(engine, position, leg_role, any_role) == uuid(any_role)
        }),
{
}

/// The identifiers that a leg may have are those that follow from its identity or, where the
/// engine is set so, random ones: a trade identifier is a random UUID, and an order
/// identifier one behind `EXPIRATION` and the venue.
pub proof fn law_identifiers_of_a_leg(
    engine: EngineView,
    position: PositionView,
    leg_role: Text,
    ids: IdsView,
)
    requires
        ids_allowed(engine, position, leg_role, ids),
    ensures
        !engine.use_random_ids ==> ids == deterministic_ids(engine, position, leg_role),
        engine.use_random_ids ==> {
            &&& exists|uuid: Text|
                #[trigger] is_random_uuid_text(uuid) && ids.client_order_id == "EXPIRATION-"@
                    + engine.venue + "-"@ + uuid
            &&& exists|uuid: Text|
                #[trigger] is_random_uuid_text(uuid) && ids.venue_order_id == "EXPIRATION-"@
                    + engine.venue + "-"@ + uuid
            &&& is_random_uuid_text(ids.trade_id)
        },
{
    if engine.use_random_ids {
        lemma_random_ids(engine, ids.client_order_id);
        lemma_random_ids(engine, ids.venue_order_id);
    }
}

/// Identifiers that are built on given UUIDs carry the venue and the UUID, and tags the venue
/// and what they end in.
pub proof fn law_texts_of_identifiers_and_tags(venue: Text, uuid: Text, suffix: Text)
    ensures
        expiration_id(venue, uuid) == "EXPIRATION-"@ + venue + "-"@ + uuid,
        expiration_tag(venue, suffix) == "EXPIRATION_"@ + venue + suffix,
{
}

/// A settlement order is a market order of the position's trader and strategy, good till
/// canceled and initialized, with the instrument, side, quantity, identifier, reduce-only
/// flag and tag that it was asked for.
pub proof fn law_a_settlement_order(
    position: PositionView,
    instrument_id: Text,
    order_side: OrderSide,
    quantity: Quantity,
    client_order_id: Text,
    reduce_only: bool,
    tag: Text,
    init_id: Text,
    ts_init: UnixNanos,
)
    ensures
        ({
            let order = settlement_order(
                position,
                instrument_id,
                order_side,
                quantity,
                client_order_id,
                reduce_only,
                tag,
                init_id,
                ts_init,
            );
            &&& order.trader_id == position.trader_id
            &&& order.strategy_id == position.strategy_id
            &&& order.instrument_id == instrument_id
            &&& order.client_order_id == client_order_id
            &&& order.venue_order_id is None
            &&& order.order_side == order_side
            &&& order.order_type == OrderType::Market
            &&& order.quantity == quantity
            &&& order.time_in_force == TimeInForce::Gtc
            &&& order.status == OrderStatus::Initialized
            &&& order.is_reduce_only == reduce_only
            &&& !order.is_quote_quantity
            &&& order.init_id == init_id
            &&& order.ts_init == ts_init
            &&& order.tags == Some(seq![tag])
        }),
{
}

/// The fill that closes an option position sells all of a long one and buys back all of a
/// short one, at the given price, in the option's currency and without commission.
pub proof fn law_a_close_fill(
    engine: EngineView,
    position: PositionView,
    price: Price,
    ids: IdsView,
    event_id: Text,
    ts_now: UnixNanos,
)
    requires
        position.side != PositionSide::Flat,
    ensures
        ({
            let fill = close_fill(engine, position, price, ids, event_id, ts_now);
            &&& fill.trader_id == position.trader_id
            &&& fill.strategy_id == position.strategy_id
            &&& fill.instrument_id == engine.instrument.id
            &&& fill.client_order_id == ids.client_order_id
            &&& fill.venue_order_id == ids.venue_order_id
            &&& fill.account_id == position.account_id
            &&& fill.trade_id == ids.trade_id
            &&& fill.order_side == OrderSide::Sell <==> position.side == PositionSide::Long
            &&& fill.order_type == OrderType::Market
            &&& fill.last_qty == position.quantity
            &&& fill.last_px == price
            &&& fill.currency == engine.instrument.quote_currency
            &&& fill.liquidity_side == LiquiditySide::Taker
            &&& fill.event_id == event_id
            &&& fill.ts_event == ts_now
            &&& fill.ts_init == ts_now
            &&& !fill.reconciliation
            &&& fill.position_id == Some(position.id)
            &&& fill.commission == Some(
                MoneyView { units: 0, currency: engine.instrument.quote_currency },
            )
        }),
{
}

/// The fill that opens a position in the underlying buys for a long one and sells for a short
/// one, the given quantity at the given price, in the underlying's currency and without
/// commission.
pub proof fn law_an_underlying_fill(
    position: PositionView,
    underlying: InstrumentView,
    quantity: Quantity,
    side: PositionSide,
    price: Price,
    ids: IdsView,
    event_id: Text,
    ts_now: UnixNanos,
)
    requires
        side != PositionSide::Flat,
    ensures
        ({
            let fill = underlying_fill(
                position,
                underlying,
                quantity,
                side,
                price,
                ids,
                event_id,
                ts_now,
            );
            &&& fill.trader_id == position.trader_id
            &&& fill.strategy_id == position.strategy_id
            &&& fill.instrument_id == underlying.id
            &&& fill.client_order_id == ids.client_order_id
            &&& fill.venue_order_id == ids.venue_order_id
            &&& fill.account_id == position.account_id
            &&& fill.trade_id == ids.trade_id
            &&& fill.order_side == OrderSide::Buy <==> side == PositionSide::Long
            &&& fill.order_type == OrderType::Market
            &&& fill.last_qty == quantity
            &&& fill.last_px == price
            &&& fill.currency == underlying.quote_currency
            &&& fill.liquidity_side == LiquiditySide::Taker
            &&& fill.event_id == event_id
            &&& fill.ts_event == ts_now
            &&& fill.ts_init == ts_now
            &&& !fill.reconciliation
            &&& fill.position_id is None
            &&& fill.commission == Some(
                MoneyView { units: 0, currency: underlying.quote_currency },
            )
        }),
{
}

/// A random order identifier is a random UUID behind `EXPIRATION` and the venue.
proof fn lemma_random_ids(engine: EngineView, id: Text)
    requires
        is_random_id(engine.venue, id),
    ensures
        exists|uuid: Text|
            #[trigger] is_random_uuid_text(uuid) && id == "EXPIRATION-"@ + engine.venue + "-"@
                + uuid,
{
    let uuid = choose|uuid: Text|
        #![trigger expiration_id(engine.venue, uuid)]
        is_random_uuid_text(uuid) && id == expiration_id(engine.venue, uuid);
    assert(is_random_uuid_text(uuid) && id == "EXPIRATION-"@ + engine.venue + "-"@ + uuid);
}

/// A plan for positions that expire out of the money has one leg for each: whatever its
/// side, the whole position is closed by a reduce-only market order at the close price or,
/// without one, at zero.
pub proof fn law_plan_out_of_the_money(
    engine: EngineView,
    positions: Seq<PositionView>,
    underlying: InstrumentView,
    price: Price,
    ts_now: UnixNanos,
    close: Option<Price>,
    clock: Seq<UnixNanos>,
    legs: Seq<LegView>,
    i: int,
)
    requires
        is_plan(engine, positions, underlying, price, false, ts_now, close, clock, legs),
        0 <= i < positions.len(),
        positions[i].side != PositionSide::Flat,
    ensures
        legs.len() == positions.len(),
        ({
            let position = positions[i];
            let leg = legs[i];
            let side = if position.side == PositionSide::Long {
                OrderSide::Sell
            } else {
                OrderSide::Buy
            };
            &&& leg.order.trader_id == position.trader_id
            &&& leg.order.strategy_id == position.strategy_id
            &&& leg.order.instrument_id == engine.instrument.id
            &&& leg.order.venue_order_id is None
            &&& leg.order.order_side == side
            &&& leg.order.order_type == OrderType::Market
            &&& leg.order.quantity == position.quantity
            &&& leg.order.time_in_force == TimeInForce::Gtc
            &&& leg.order.status == OrderStatus::Initialized
            &&& leg.order.is_reduce_only == true
            &&& !leg.order.is_quote_quantity
            &&& leg.order.ts_init == clock[i]
            &&& leg.order.tags == Some(seq!["EXPIRATION_"@ + engine.venue + "_OTM"@])
            &&& leg.fill.trader_id == position.trader_id
            &&& leg.fill.strategy_id == position.strategy_id
            &&& leg.fill.instrument_id == engine.instrument.id
            &&& leg.fill.account_id == position.account_id
            &&& leg.fill.order_side == side
            &&& leg.fill.order_type == OrderType::Market
            &&& leg.fill.last_qty == leg.order.quantity
            &&& close matches Some(known) ==> leg.fill.last_px == known
            &&& close is None ==> leg.fill.last_px.mantissa == 0 && leg.fill.last_px.precision
                == engine.instrument.price_precision
            &&& leg.fill.currency == engine.instrument.quote_currency
            &&& leg.fill.liquidity_side == LiquiditySide::Taker
            &&& leg.fill.ts_event == ts_now
            &&& leg.fill.ts_init == ts_now
            &&& !leg.fill.reconciliation
            &&& leg.fill.position_id == Some(position.id)
            &&& leg.fill.commission == Some(
                MoneyView { units: 0, currency: engine.instrument.quote_currency },
            )
            &&& leg.fill.client_order_id == leg.order.client_order_id
            &&& !engine.use_random_ids ==> {
                let ids = deterministic_ids(engine, position, "otm"@);
                &&& leg.order.client_order_id == ids.client_order_id
                &&& leg.fill.venue_order_id == ids.venue_order_id
                &&& leg.fill.trade_id == ids.trade_id
            }
            &&& engine.use_random_ids ==> {
                &&& exists|uuid: Text|
                    #[trigger] is_random_uuid_text(uuid) && leg.order.client_order_id
                        == "EXPIRATION-"@ + engine.venue + "-"@ + uuid
                &&& exists|uuid: Text|
                    #[trigger] is_random_uuid_text(uuid) && leg.fill.venue_order_id
                        == "EXPIRATION-"@ + engine.venue + "-"@ + uuid
                &&& is_random_uuid_text(leg.fill.trade_id)
            }
            &&& is_random_uuid_text(leg.order.init_id)
            &&& is_random_uuid_text(leg.fill.event_id)
        }),
{
    assert(legs_per_position(false, underlying) * i == i);
    assert(settles_position(
        engine,
        positions[i],
        underlying,
        price,
        false,
        ts_now,
        close,
        clock,
        legs,
        i,
    ));
    if engine.use_random_ids {
        lemma_random_ids(engine, legs[i].order.client_order_id);
        lemma_random_ids(engine, legs[i].fill.venue_order_id);
    }
}

/// A plan for exercised positions on an index has one leg for each: whatever its side, the
/// whole position is closed by a reduce-only market order at the close price or, without
/// one, at the settlement price in cash.
pub proof fn law_plan_in_cash(
    engine: EngineView,
    positions: Seq<PositionView>,
    underlying: InstrumentView,
    price: Price,
    ts_now: UnixNanos,
    close: Option<Price>,
    clock: Seq<UnixNanos>,
    legs: Seq<LegView>,
    i: int,
)
    requires
        is_plan(engine, positions, underlying, price, true, ts_now, close, clock, legs),
        underlying.is_index,
        0 <= i < positions.len(),
        positions[i].side != PositionSide::Flat,
    ensures
        legs.len() == positions.len(),
        ({
            let position = positions[i];
            let leg = legs[i];
            let side = if position.side == PositionSide::Long {
                OrderSide::Sell
            } else {
                OrderSide::Buy
            };
            &&& leg.order.trader_id == position.trader_id
            &&& leg.order.strategy_id == position.strategy_id
            &&& leg.order.instrument_id == engine.instrument.id
            &&& leg.order.venue_order_id is None
            &&& leg.order.order_side == side
            &&& leg.order.order_type == OrderType::Market
            &&& leg.order.quantity == position.quantity
            &&& leg.order.time_in_force == TimeInForce::Gtc
            &&& leg.order.status == OrderStatus::Initialized
            &&& leg.order.is_reduce_only == true
            &&& !leg.order.is_quote_quantity
            &&& leg.order.ts_init == clock[i]
            &&& leg.order.tags == Some(seq!["EXPIRATION_"@ + engine.venue + "_CASH"@])
            &&& leg.fill.trader_id == position.trader_id
            &&& leg.fill.strategy_id == position.strategy_id
            &&& leg.fill.instrument_id == engine.instrument.id
            &&& leg.fill.account_id == position.account_id
            &&& leg.fill.order_side == side
            &&& leg.fill.order_type == OrderType::Market
            &&& leg.fill.last_qty == leg.order.quantity
            &&& close matches Some(known) ==> leg.fill.last_px == known
            &&& close is None ==> is_cash_price(engine.instrument, price, leg.fill.last_px)
            &&& close is None && settlement_price(engine.instrument, price, true) is Some
                ==> settlement_price(engine.instrument, price, true) == Some(leg.fill.last_px)
            &&& leg.fill.currency == engine.instrument.quote_currency
            &&& leg.fill.liquidity_side == LiquiditySide::Taker
            &&& leg.fill.ts_event == ts_now
            &&& leg.fill.ts_init == ts_now
            &&& !leg.fill.reconciliation
            &&& leg.fill.position_id == Some(position.id)
            &&& leg.fill.commission == Some(
                MoneyView { units: 0, currency: engine.instrument.quote_currency },
            )
            &&& leg.fill.client_order_id == leg.order.client_order_id
            &&& !engine.use_random_ids ==> {
                let ids = deterministic_ids(engine, position, "cash"@);
                &&& leg.order.client_order_id == ids.client_order_id
                &&& leg.fill.venue_order_id == ids.venue_order_id
                &&& leg.fill.trade_id == ids.trade_id
            }
            &&& engine.use_random_ids ==> {
                &&& exists|uuid: Text|
                    #[trigger] is_random_uuid_text(uuid) && leg.order.client_order_id
                        == "EXPIRATION-"@ + engine.venue + "-"@ + uuid
                &&& exists|uuid: Text|
                    #[trigger] is_random_uuid_text(uuid) && leg.fill.venue_order_id
                        == "EXPIRATION-"@ + engine.venue + "-"@ + uuid
                &&& is_random_uuid_text(leg.fill.trade_id)
            }
            &&& is_random_uuid_text(leg.order.init_id)
            &&& is_random_uuid_text(leg.fill.event_id)
        }),
{
    assert(legs_per_position(true, underlying) * i == i);
    assert(settles_position(
        engine,
        positions[i],
        underlying,
        price,
        true,
        ts_now,
        close,
        clock,
        legs,
        i,
    ));
    if engine.use_random_ids {
        lemma_random_ids(engine, legs[i].order.client_order_id);
        lemma_random_ids(engine, legs[i].fill.venue_order_id);
    }
}

/// A plan for exercised positions on what trades has two legs for each. By the first,
/// whatever the position's side, the whole position is closed by a reduce-only market order
/// at the close price or, without one, at zero.
pub proof fn law_plan_closes_before_delivery(
    engine: EngineView,
    positions: Seq<PositionView>,
    underlying: InstrumentView,
    price: Price,
    ts_now: UnixNanos,
    close: Option<Price>,
    clock: Seq<UnixNanos>,
    legs: Seq<LegView>,
    i: int,
)
    requires
        is_plan(engine, positions, underlying, price, true, ts_now, close, clock, legs),
        !underlying.is_index,
        0 <= i < positions.len(),
        positions[i].side != PositionSide::Flat,
    ensures
        legs.len() == 2 * positions.len(),
        ({
            let position = positions[i];
            let leg = legs[2 * i];
            let side = if position.side == PositionSide::Long {
                OrderSide::Sell
            } else {
                OrderSide::Buy
            };
            &&& leg.order.trader_id == position.trader_id
            &&& leg.order.strategy_id == position.strategy_id
            &&& leg.order.instrument_id == engine.instrument.id
            &&& leg.order.venue_order_id is None
            &&& leg.order.order_side == side
            &&& leg.order.order_type == OrderType::Market
            &&& leg.order.quantity == position.quantity
            &&& leg.order.time_in_force == TimeInForce::Gtc
            &&& leg.order.status == OrderStatus::Initialized
            &&& leg.order.is_reduce_only == true
            &&& !leg.order.is_quote_quantity
            &&& leg.order.ts_init == clock[2 * i]
            &&& leg.order.tags == Some(seq!["EXPIRATION_"@ + engine.venue + "_PHYSICAL_CLOSE"@])
            &&& leg.fill.trader_id == position.trader_id
            &&& leg.fill.strategy_id == position.strategy_id
            &&& leg.fill.instrument_id == engine.instrument.id
            &&& leg.fill.account_id == position.account_id
            &&& leg.fill.order_side == side
            &&& leg.fill.order_type == OrderType::Market
            &&& leg.fill.last_qty == leg.order.quantity
            &&& close matches Some(known) ==> leg.fill.last_px == known
            &&& close is None ==> leg.fill.last_px.mantissa == 0 && leg.fill.last_px.precision
                == engine.instrument.price_precision
            &&& leg.fill.currency == engine.instrument.quote_currency
            &&& leg.fill.liquidity_side == LiquiditySide::Taker
            &&& leg.fill.ts_event == ts_now
            &&& leg.fill.ts_init == ts_now
            &&& !leg.fill.reconciliation
            &&& leg.fill.position_id == Some(position.id)
            &&& leg.fill.commission == Some(
                MoneyView { units: 0, currency: engine.instrument.quote_currency },
            )
            &&& leg.fill.client_order_id == leg.order.client_order_id
            &&& !engine.use_random_ids ==> {
                let ids = deterministic_ids(engine, position, "physical-close"@);
                &&& leg.order.client_order_id == ids.client_order_id
                &&& leg.fill.venue_order_id == ids.venue_order_id
                &&& leg.fill.trade_id == ids.trade_id
            }
            &&& engine.use_random_ids ==> {
                &&& exists|uuid: Text|
                    #[trigger] is_random_uuid_text(uuid) && leg.order.client_order_id
                        == "EXPIRATION-"@ + engine.venue + "-"@ + uuid
                &&& exists|uuid: Text|
                    #[trigger] is_random_uuid_text(uuid) && leg.fill.venue_order_id
                        == "EXPIRATION-"@ + engine.venue + "-"@ + uuid
                &&& is_random_uuid_text(leg.fill.trade_id)
            }
            &&& is_random_uuid_text(leg.order.init_id)
            &&& is_random_uuid_text(leg.fill.event_id)
        }),
{
    assert(legs_per_position(true, underlying) * i == 2 * i);
    assert(settles_position(
        engine,
        positions[i],
        underlying,
        price,
        true,
        ts_now,
        close,
        clock,
        legs,
        2 * i,
    ));
    if engine.use_random_ids {
        lemma_random_ids(engine, legs[2 * i].order.client_order_id);
        lemma_random_ids(engine, legs[2 * i].fill.venue_order_id);
    }
}

/// By the second of the two legs, the delivered quantity of the underlying is bought or sold
/// at the strike by a market order that opens a new position: bought for a long call and a
/// short put, sold for a short call and a long put.
pub proof fn law_plan_delivers_behind_the_close(
    engine: EngineView,
    positions: Seq<PositionView>,
    underlying: InstrumentView,
    price: Price,
    ts_now: UnixNanos,
    close: Option<Price>,
    clock: Seq<UnixNanos>,
    legs: Seq<LegView>,
    i: int,
)
    requires
        is_plan(engine, positions, underlying, price, true, ts_now, close, clock, legs),
        !underlying.is_index,
        engine.instrument.strike_price is Some,
        0 <= i < positions.len(),
        positions[i].side != PositionSide::Flat,
    ensures
        legs.len() == 2 * positions.len(),
        ({
            let position = positions[i];
            let leg = legs[2 * i + 1];
            let is_call = engine.instrument.option_kind == Some(OptionKind::Call);
            let side = if (position.side == PositionSide::Long) == is_call {
                OrderSide::Buy
            } else {
                OrderSide::Sell
            };
            &&& leg.order.trader_id == position.trader_id
            &&& leg.order.strategy_id == position.strategy_id
            &&& leg.order.instrument_id == underlying.id
            &&& leg.order.venue_order_id is None
            &&& leg.order.order_side == side
            &&& leg.order.order_type == OrderType::Market
            &&& is_delivery(
                engine.instrument,
                underlying,
                position.quantity,
                leg.order.quantity,
            )
            &&& delivered_quantity(engine.instrument, underlying, position.quantity) is Some
                ==> delivered_quantity(engine.instrument, underlying, position.quantity) == Some(
                leg.order.quantity,
            )
            &&& leg.order.time_in_force == TimeInForce::Gtc
            &&& leg.order.status == OrderStatus::Initialized
            &&& leg.order.is_reduce_only == false
            &&& !leg.order.is_quote_quantity
            &&& leg.order.ts_init == clock[2 * i + 1]
            &&& leg.order.tags == Some(seq!["EXPIRATION_"@ + engine.venue + "_PHYSICAL_OPEN"@])
            &&& leg.fill.trader_id == position.trader_id
            &&& leg.fill.strategy_id == position.strategy_id
            &&& leg.fill.instrument_id == underlying.id
            &&& leg.fill.account_id == position.account_id
            &&& leg.fill.order_side == side
            &&& leg.fill.order_type == OrderType::Market
            &&& leg.fill.last_qty == leg.order.quantity
            &&& Some(leg.fill.last_px) == engine.instrument.strike_price
            &&& leg.fill.currency == underlying.quote_currency
            &&& leg.fill.liquidity_side == LiquiditySide::Taker
            &&& leg.fill.ts_event == ts_now
            &&& leg.fill.ts_init == ts_now
            &&& !leg.fill.reconciliation
            &&& leg.fill.position_id == None::<Text>
            &&& leg.fill.commission == Some(
                MoneyView { units: 0, currency: underlying.quote_currency },
            )
            &&& leg.fill.client_order_id == leg.order.client_order_id
            &&& !engine.use_random_ids ==> {
                let ids = deterministic_ids(engine, position, "physical-open"@);
                &&& leg.order.client_order_id == ids.client_order_id
                &&& leg.fill.venue_order_id == ids.venue_order_id
                &&& leg.fill.trade_id == ids.trade_id
            }
            &&& engine.use_random_ids ==> {
                &&& exists|uuid: Text|
                    #[trigger] is_random_uuid_text(uuid) && leg.order.client_order_id
                        == "EXPIRATION-"@ + engine.venue + "-"@ + uuid
                &&& exists|uuid: Text|
                    #[trigger] is_random_uuid_text(uuid) && leg.fill.venue_order_id
                        == "EXPIRATION-"@ + engine.venue + "-"@ + uuid
                &&& is_random_uuid_text(leg.fill.trade_id)
            }
            &&& is_random_uuid_text(leg.order.init_id)
            &&& is_random_uuid_text(leg.fill.event_id)
        }),
{
    assert(legs_per_position(true, underlying) * i == 2 * i);
    assert(settles_position(
        engine,
        positions[i],
        underlying,
        price,
        true,
        ts_now,
        close,
        clock,
        legs,
        2 * i,
    ));
    if engine.use_random_ids {
        lemma_random_ids(engine, legs[2 * i + 1].order.client_order_id);
        lemma_random_ids(engine, legs[2 * i + 1].fill.venue_order_id);
    }
}

} // verus!
