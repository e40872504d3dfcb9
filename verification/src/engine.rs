//! The matching engine's part in settlement: deciding on exercise, pricing, naming and
//! planning the legs that settle a list of positions.
use vstd::arithmetic::power::lemma_pow_positive;
use vstd::prelude::*;
use vstd::string::StringExecFns;

use crate::accounts::AccountIds;
use crate::amounts::{Price, Quantity};
use crate::decimal::{
    decimal_checked_mul, decimal_checked_sub, decimal_greater, decimal_max, Amount,
};
#[allow(unused_imports)]
use crate::amounts::{
    lemma_less_than_at_common_scale, lemma_maximum_with_zero, lemma_rounded_is_by_value,
    lemma_rounded_keeps_sign, price_of, quantity_of, rounded,
};
#[allow(unused_imports)]
use crate::decimal::{common_scale, maximum, pow10, MAX_MANTISSA};
use crate::faults::SettlementFault;
#[allow(unused_imports)]
use crate::faults::{can_identify, cash_price_fault, delivery_fault, exercise_fault};
use crate::model::{
    closing_side, InstrumentAny, LiquiditySide, Money, OptionKind, OrderAny, OrderFilled, OrderSide,
    OrderStatus, OrderType, Position, PositionSide, TimeInForce, UnixNanos,
};
#[allow(unused_imports)]
use crate::model::{texts, InstrumentView, Text};
#[allow(unused_imports)]
use crate::terms::{
    close_fill, delivered_quantity, delivery_fits, deterministic_ids, exact_delivery, exact_gain,
    exact_intrinsic_value, expiration_id, expiration_tag, gain_fits, identity_parts, identity_uuid,
    ids_allowed, ids_view, in_the_money, is_cash_price, is_delivery, settlement_order,
    settlement_price, underlying_fill, EngineView, IdsView,
};
use crate::uuids::{deterministic_option_settlement_uuid, random_uuid};
#[allow(unused_imports)]
use crate::uuids::is_random_uuid_text;

verus! {

/// The settings of a matching engine that settlement reads.
#[derive(Debug)]
pub struct OrderMatchingEngineConfig {
    pub use_random_ids: bool,
}

/// The close of an instrument's market.
#[derive(Debug)]
pub struct InstrumentClose {
    pub close_price: Price,
}

/// What settlement reads and keeps of a matching engine for one instrument.
#[derive(Debug)]
pub struct OrderMatchingEngine {
    pub venue: String,
    pub instrument: InstrumentAny,
    pub config: OrderMatchingEngineConfig,
    pub instrument_close: Option<InstrumentClose>,
    /// The reason that was last warned about.
    pub option_settlement_warning: Option<&'static str>,
    /// The warnings that are yet to be logged.
    pub warnings: Vec<String>,
    /// The account of each trader.
    pub account_ids: AccountIds,
}

impl View for OrderMatchingEngine {
    type V = EngineView;

    open spec fn view(&self) -> EngineView {
        EngineView {
            venue: self.venue@,
            instrument: self.instrument@,
            use_random_ids: self.config.use_random_ids,
            instrument_close: match self.instrument_close {
                Some(close) => Some(close.close_price),
                None => None,
            },
            warning: match self.option_settlement_warning {
                Some(reason) => Some(reason@),
                None => None,
            },
            warnings: texts(self.warnings@),
            account_ids: self.account_ids@,
        }
    }
}

/// An engine after a settlement attempt that has to be repeated, for `reason`: a reason
/// that was not the last one to be warned about is warned about.
pub open spec fn after_retry(engine: EngineView, reason: Text, message: Text) -> EngineView {
    if engine.warning == Some(reason) {
        engine
    } else {
        EngineView {
            warning: Some(reason),
            warnings: engine.warnings.push(message + "; settlement will retry"@),
            ..engine
        }
    }
}

/// An order identifier at `venue`.
fn make_expiration_id(venue: &str, uuid: &str) -> (id: String)
    ensures
        id@ == expiration_id(venue@, uuid@),
{
    let mut id: String = "EXPIRATION-".to_owned();
    id.append(venue);
    id.append("-");
    id.append(uuid);
    id
}

/// The tag of a settlement order at `venue`.
pub(crate) fn make_expiration_tag(venue: &str, suffix: &str) -> (tag: String)
    ensures
        tag@ == expiration_tag(venue@, suffix@),
{
    let mut tag: String = "EXPIRATION_".to_owned();
    tag.append(venue);
    tag.append(suffix);
    tag
}

/// The settlement price in cash of an option whose exercise gains `gain` per unit: at least
/// zero, rounded half to even to the strike's precision.
pub fn cash_price_from_gain(gain: Amount, precision: u8) -> (price: Option<Price>)
    requires
        gain.wf(),
    ensures
        price == price_of(maximum(gain, Amount::zero()), precision as int),
{
    let value: Amount = decimal_max(gain, Amount { mantissa: 0, scale: 0 });
    Price::from_decimal_dp(value, precision)
}

/// Where no decimal place of the gain is given up, the settlement price in cash is the
/// exact one.
proof fn lemma_exact_intrinsic_value(
    instrument: InstrumentView,
    strike: Price,
    underlying_price: Price,
    gain: Amount,
)
    requires
        gain_fits(instrument, strike, underlying_price),
        gain.scale <= common_scale(underlying_price.amount(), strike.amount()),
        gain.at_scale(common_scale(underlying_price.amount(), strike.amount())) == exact_gain(
            instrument,
            strike,
            underlying_price,
        ),
    ensures
        price_of(maximum(gain, Amount::zero()), strike.precision as int) == price_of(
            exact_intrinsic_value(instrument, strike, underlying_price),
            strike.precision as int,
        ),
{
    let scale = common_scale(underlying_price.amount(), strike.amount());
    let precision = strike.precision as int;
    let value = maximum(gain, Amount::zero());
    let power = pow10(scale - gain.scale);
    lemma_pow_positive(10, (scale - gain.scale) as nat);
    assert(gain.mantissa < 0 <==> gain.mantissa * power < 0) by (nonlinear_arith)
        requires
            power >= 1,
    ;
    lemma_maximum_with_zero(gain);
    assert(Amount::zero().at_scale(scale) == 0);
    lemma_rounded_is_by_value(value, scale, precision);
}

/// A price that is the rounded gain of exercise, or zero, is a settlement price in cash.
proof fn lemma_cash_price(
    instrument: InstrumentView,
    strike: Price,
    underlying_price: Price,
    gain: Amount,
    price: Price,
)
    requires
        instrument.strike_price == Some(strike),
        strike.wf(),
        underlying_price.wf(),
        price_of(maximum(gain, Amount::zero()), strike.precision as int) == Some(price),
        gain.scale <= common_scale(underlying_price.amount(), strike.amount()),
        gain.mantissa > 0 <==> exact_gain(instrument, strike, underlying_price) > 0,
        ({
            let scale = common_scale(underlying_price.amount(), strike.amount());
            if gain_fits(instrument, strike, underlying_price) {
                gain.at_scale(scale) == exact_gain(instrument, strike, underlying_price)
            } else {
                !(-MAX_MANTISSA <= gain.at_scale(scale) <= MAX_MANTISSA)
            }
        }),
    ensures
        is_cash_price(instrument, underlying_price, price),
{
    let scale = common_scale(underlying_price.amount(), strike.amount());
    let precision = strike.precision as int;
    let value = maximum(gain, Amount::zero());
    if gain_fits(instrument, strike, underlying_price) {
        lemma_exact_intrinsic_value(instrument, strike, underlying_price, gain);
    }
    lemma_maximum_with_zero(gain);
    lemma_rounded_keeps_sign(value, precision);
    if underlying_price.precision <= strike.precision {
        assert(scale == precision);
        if gain.mantissa > 0 {
            assert(rounded(value, precision) == gain.at_scale(scale));
        }
    }
    lemma_less_than_at_common_scale(strike.amount(), underlying_price.amount());
    lemma_less_than_at_common_scale(underlying_price.amount(), strike.amount());
}

impl OrderMatchingEngine {
    /// Notes that settlement has to be tried again, for `reason`. The message is queued as
    /// a warning, unless the last warning was for the same reason. The result says that
    /// settlement is not complete.
    pub fn option_settlement_retry(&mut self, reason: &'static str, message: &str) -> (complete: bool)
        ensures
            !complete,
            final(self)@ == after_retry(old(self)@, reason@, message@),
    {
        let warned: bool = match self.option_settlement_warning {
            Some(last) => last.to_owned() == reason.to_owned(),
            None => false,
        };
        if !warned {
            let mut warning: String = message.to_owned();
            warning.append("; settlement will retry");
            let ghost before = self.warnings@;
            self.warnings.push(warning);
            self.option_settlement_warning = Some(reason);
            assert(texts(self.warnings@) =~= texts(before).push(warning@));
        }
        false
    }

    /// Whether the option is exercised when the underlying is at this price: a call above
    /// its strike, a put below it.
    pub fn option_should_exercise(&self, underlying_price: Price) -> (exercise: bool)
        requires
            exercise_fault(self@.instrument, underlying_price) is None,
        ensures
            exercise == in_the_money(self@.instrument, underlying_price),
    {
        let strike: Amount = match self.instrument.strike_price {
            Some(price) => price.as_decimal(),
            None => return false,
        };
        let spot: Amount = underlying_price.as_decimal();
        match self.instrument.option_kind {
            Some(OptionKind::Call) => decimal_greater(spot, strike),
            Some(OptionKind::Put) => decimal_greater(strike, spot),
            None => false,
        }
    }

    /// The price at which an exercised option settles: in cash, its intrinsic value,
    /// rounded to the strike's precision; by delivery, the strike.
    pub fn option_settlement_price(&self, underlying_price: Price, cash_settled: bool) -> (price: Price)
        requires
            if cash_settled {
                cash_price_fault(self@.instrument, underlying_price) is None
            } else {
                self@.instrument.strike_price is Some
            },
        ensures
            settlement_price(self@.instrument, underlying_price, cash_settled) == Some(price),
            cash_settled ==> is_cash_price(self@.instrument, underlying_price, price),
    {
        let strike: Price = self.instrument.strike_price.unwrap();
        if !cash_settled {
            return strike;
        }
        match self.option_cash_price(underlying_price) {
            Ok(price) => price,
            Err(_) => vstd::pervasive::unreached(),
        }
    }

    /// The settlement price in cash, or what keeps it from being computed.
    pub fn option_cash_price(&self, underlying_price: Price) -> (price: Result<
        Price,
        SettlementFault,
    >)
        ensures
            match price {
                Ok(price) => {
                    &&& cash_price_fault(self@.instrument, underlying_price) is None
                    &&& settlement_price(self@.instrument, underlying_price, true) == Some(price)
                    &&& is_cash_price(self@.instrument, underlying_price, price)
                },
                Err(fault) => cash_price_fault(self@.instrument, underlying_price) == Some(fault),
            },
            self@.instrument.strike_price matches Some(strike) ==> gain_fits(
                self@.instrument,
                strike,
                underlying_price,
            ) ==> price == match price_of(
                exact_intrinsic_value(self@.instrument, strike, underlying_price),
                strike.precision as int,
            ) {
                Some(price) => Ok::<Price, SettlementFault>(price),
                None => Err(SettlementFault::InvalidSettlementPrice),
            },
    {
        let strike: Price = match self.instrument.strike_price {
            Some(strike) => strike,
            None => return Err(SettlementFault::MissingStrike),
        };
        if !strike.is_valid() || !underlying_price.is_valid() {
            return Err(SettlementFault::AmountOutOfRange);
        }
        let spot: Amount = underlying_price.as_decimal();
        let strike_value: Amount = strike.as_decimal();
        let gain: Option<Amount> = match self.instrument.option_kind {
            Some(OptionKind::Call) => decimal_checked_sub(spot, strike_value),
            _ => decimal_checked_sub(strike_value, spot),
        };
        proof {
            lemma_less_than_at_common_scale(strike.amount(), underlying_price.amount());
            lemma_less_than_at_common_scale(underlying_price.amount(), strike.amount());
            if gain_fits(self@.instrument, strike, underlying_price) {
                lemma_exact_intrinsic_value(
                    self@.instrument,
                    strike,
                    underlying_price,
                    gain->0,
                );
            }
        }
        match gain {
            Some(gain) => match cash_price_from_gain(gain, strike.precision) {
                Some(price) => {
                    proof {
                        lemma_cash_price(self@.instrument, strike, underlying_price, gain, price);
                    }
                    Ok(price)
                },
                None => Err(SettlementFault::InvalidSettlementPrice),
            },
            None => Err(SettlementFault::AmountOutOfRange),
        }
    }

    /// How much of the underlying a position delivers, or what keeps it from being computed.
    pub fn option_delivered_quantity(
        &self,
        position: &Position,
        underlying_instrument: &InstrumentAny,
    ) -> (quantity: Result<Quantity, SettlementFault>)
        ensures
            match quantity {
                Ok(quantity) => {
                    &&& delivery_fault(self@.instrument, underlying_instrument@, position@) is None
                    &&& delivered_quantity(
                        self@.instrument,
                        underlying_instrument@,
                        position@.quantity,
                    ) == Some(quantity)
                    &&& is_delivery(
                        self@.instrument,
                        underlying_instrument@,
                        position@.quantity,
                        quantity,
                    )
                },
                Err(fault) => delivery_fault(
                    self@.instrument,
                    underlying_instrument@,
                    position@,
                ) == Some(fault),
            },
            delivery_fits(self@.instrument, position@.quantity) ==> quantity == match quantity_of(
                exact_delivery(self@.instrument, position@.quantity),
                underlying_instrument@.size_precision as int,
            ) {
                Some(quantity) => Ok::<Quantity, SettlementFault>(quantity),
                None => Err(SettlementFault::InvalidUnderlyingQuantity),
            },
    {
        let multiplier: Quantity = self.instrument.multiplier;
        if !position.quantity.is_valid() || !multiplier.is_valid() {
            return Err(SettlementFault::AmountOutOfRange);
        }
        let delivered: Option<Amount> = decimal_checked_mul(
            position.quantity.as_decimal(),
            multiplier.as_decimal(),
        );
        proof {
            if delivery_fits(self@.instrument, position@.quantity) {
                let exact = exact_delivery(self@.instrument, position@.quantity);
                assert(0 <= position.quantity.mantissa * multiplier.mantissa) by (nonlinear_arith);
                lemma_rounded_is_by_value(
                    delivered->0,
                    exact.scale as int,
                    underlying_instrument@.size_precision as int,
                );
            }
        }
        match delivered {
            Some(delivered) => match Quantity::from_decimal_dp(
                delivered,
                underlying_instrument.size_precision,
            ) {
                Some(quantity) => Ok(quantity),
                None => Err(SettlementFault::InvalidUnderlyingQuantity),
            },
            None => Err(SettlementFault::AmountOutOfRange),
        }
    }

    /// The UUID text that the leg's identity and the identifier's role give.
    pub fn option_settlement_uuid(&self, position: &Position, leg_role: &str, id_role: &str) -> (uuid:
        String)
        requires
            self@.instrument.expiration_ns is Some,
        ensures
            uuid@ == identity_uuid(self@, position@, leg_role@, id_role@),
    {
        let expiration_ns: Vec<u8> = vstd::bytes::u64_to_le_bytes(
            self.instrument.expiration_ns.unwrap(),
        );
        let ts_opened: Vec<u8> = vstd::bytes::u64_to_le_bytes(position.ts_opened);
        let mut parts: Vec<&[u8]> = Vec::new();
        parts.push(position.account_id.as_str().as_bytes());
        parts.push(position.trader_id.as_str().as_bytes());
        parts.push(position.strategy_id.as_str().as_bytes());
        parts.push(self.instrument.id.as_str().as_bytes());
        parts.push(position.id.as_str().as_bytes());
        parts.push(position.opening_order_id.as_str().as_bytes());
        parts.push(ts_opened.as_slice());
        parts.push(expiration_ns.as_slice());
        parts.push(leg_role.as_bytes());
        parts.push(id_role.as_bytes());
        assert(crate::hash::contents(parts@) =~= identity_parts(
            self@,
            position@,
            leg_role@,
            id_role@,
        ));
        deterministic_option_settlement_uuid(parts.as_slice())
    }

    /// The client order, venue order and trade identifiers of a leg. They follow from the
    /// leg's identity alone, unless the engine is set to random identifiers.
    pub fn option_settlement_ids(&self, position: &Position, leg_role: &str) -> (ids: (
        String,
        String,
        String,
    ))
        requires
            can_identify(self@),
        ensures
            ids_allowed(self@, position@, leg_role@, ids_view(ids)),
    {
        if self.config.use_random_ids {
            let client_uuid: String = random_uuid();
            let venue_uuid: String = random_uuid();
            let trade_uuid: String = random_uuid();
            return self.option_random_ids(client_uuid.as_str(), venue_uuid.as_str(), trade_uuid);
        }
        self.option_deterministic_ids(position, leg_role)
    }

    /// The identifiers of a leg that are built on three UUIDs that were drawn for them.
    pub fn option_random_ids(
        &self,
        client_uuid: &str,
        venue_uuid: &str,
        trade_uuid: String,
    ) -> (ids: (String, String, String))
        ensures
            ids_view(ids) == (IdsView {
                client_order_id: expiration_id(self@.venue, client_uuid@),
                venue_order_id: expiration_id(self@.venue, venue_uuid@),
                trade_id: trade_uuid@,
            }),
    {
        let venue: &str = self.venue.as_str();
        (
            make_expiration_id(venue, client_uuid),
            make_expiration_id(venue, venue_uuid),
            trade_uuid,
        )
    }

    /// The identifiers of a leg that follow from its identity.
    pub fn option_deterministic_ids(&self, position: &Position, leg_role: &str) -> (ids: (
        String,
        String,
        String,
    ))
        requires
            self@.instrument.expiration_ns is Some,
        ensures
            ids_view(ids) == deterministic_ids(self@, position@, leg_role@),
    {
        let venue: &str = self.venue.as_str();
        let client_uuid: String = self.option_settlement_uuid(position, leg_role, "client-order");
        let venue_uuid: String = self.option_settlement_uuid(position, leg_role, "venue-order");
        let trade_uuid: String = self.option_settlement_uuid(position, leg_role, "trade");
        (
            make_expiration_id(venue, client_uuid.as_str()),
            make_expiration_id(venue, venue_uuid.as_str()),
            trade_uuid,
        )
    }

    /// A market order of a leg, initialized at `ts_now`.
    pub fn option_create_settlement_order(
        &self,
        position: &Position,
        instrument_id: String,
        order_side: OrderSide,
        quantity: Quantity,
        client_order_id: String,
        reduce_only: bool,
        tag: &str,
        ts_now: UnixNanos,
    ) -> (order: OrderAny)
        requires
            quantity.mantissa > 0,
        ensures
            is_random_uuid_text(order@.init_id),
            order@ == settlement_order(
                position@,
                instrument_id@,
                order_side,
                quantity,
                client_order_id@,
                reduce_only,
                tag@,
                order@.init_id,
                ts_now,
            ),
    {
        let mut tags: Vec<String> = Vec::new();
        tags.push(tag.to_owned());
        assert(texts(tags@) =~= seq![tag@]);
        OrderAny {
            trader_id: position.trader_id.clone(),
            strategy_id: position.strategy_id.clone(),
            instrument_id,
            client_order_id,
            venue_order_id: None,
            order_side,
            order_type: OrderType::Market,
            quantity,
            time_in_force: TimeInForce::Gtc,
            status: OrderStatus::Initialized,
            is_reduce_only: reduce_only,
            is_quote_quantity: false,
            init_id: random_uuid(),
            ts_init: ts_now,
            tags: Some(tags),
        }
    }

    /// The fill that closes an option position at `price`.
    pub fn option_create_close_fill(
        &self,
        position: &Position,
        price: Price,
        client_order_id: String,
        venue_order_id: String,
        trade_id: String,
        ts_now: UnixNanos,
    ) -> (fill: OrderFilled)
        requires
            position@.side != PositionSide::Flat,
        ensures
            is_random_uuid_text(fill@.event_id),
            fill@ == close_fill(
                self@,
                position@,
                price,
                (IdsView {
                    client_order_id: client_order_id@,
                    venue_order_id: venue_order_id@,
                    trade_id: trade_id@,
                }),
                fill@.event_id,
                ts_now,
            ),
    {
        let close_side: OrderSide = closing_side(position.side).unwrap();
        OrderFilled {
            trader_id: position.trader_id.clone(),
            strategy_id: position.strategy_id.clone(),
            instrument_id: self.instrument.id.clone(),
            client_order_id,
            venue_order_id,
            account_id: position.account_id.clone(),
            trade_id,
            order_side: close_side,
            order_type: OrderType::Market,
            last_qty: position.quantity,
            last_px: price,
            currency: self.instrument.quote_currency.clone(),
            liquidity_side: LiquiditySide::Taker,
            event_id: random_uuid(),
            ts_event: ts_now,
            ts_init: ts_now,
            reconciliation: false,
            position_id: Some(position.id.clone()),
            commission: Some(Money::zero(self.instrument.quote_currency.clone())),
        }
    }

    /// The fill that opens a position in the underlying at `price`.
    pub fn option_create_underlying_fill(
        &self,
        position: &Position,
        underlying_instrument: &InstrumentAny,
        quantity: Quantity,
        side: PositionSide,
        price: Price,
        client_order_id: String,
        venue_order_id: String,
        trade_id: String,
        ts_now: UnixNanos,
    ) -> (fill: OrderFilled)
        requires
            side != PositionSide::Flat,
        ensures
            is_random_uuid_text(fill@.event_id),
            fill@ == underlying_fill(
                position@,
                underlying_instrument@,
                quantity,
                side,
                price,
                (IdsView {
                    client_order_id: client_order_id@,
                    venue_order_id: venue_order_id@,
                    trade_id: trade_id@,
                }),
                fill@.event_id,
                ts_now,
            ),
    {
        let order_side: OrderSide = match side {
            PositionSide::Long => OrderSide::Buy,
            _ => OrderSide::Sell,
        };
        OrderFilled {
            trader_id: position.trader_id.clone(),
            strategy_id: position.strategy_id.clone(),
            instrument_id: underlying_instrument.id.clone(),
            client_order_id,
            venue_order_id,
            account_id: position.account_id.clone(),
            trade_id,
            order_side,
            order_type: OrderType::Market,
            last_qty: quantity,
            last_px: price,
            currency: underlying_instrument.quote_currency.clone(),
            liquidity_side: LiquiditySide::Taker,
            event_id: random_uuid(),
            ts_event: ts_now,
            ts_init: ts_now,
            reconciliation: false,
            position_id: None,
            commission: Some(Money::zero(underlying_instrument.quote_currency.clone())),
        }
    }
}

} // verus!
