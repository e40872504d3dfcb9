//! The values that settlement works on: positions, instruments, orders and fills.
//!
//! Identifiers are texts. Each type has a view in which every text is a sequence of
//! characters; contracts speak of the views.
use vstd::prelude::*;

use crate::amounts::{Price, Quantity};

verus! {

/// The characters of an identifier or a label.
pub type Text = Seq<char>;

/// Nanoseconds since the UNIX epoch.
pub type UnixNanos = u64;

/// The characters of an optional text.
pub open spec fn optional_text(value: Option<String>) -> Option<Text> {
    match value {
        Some(text) => Some(text@),
        None => None,
    }
}

/// The characters of each text in a list.
pub open spec fn texts(values: Seq<String>) -> Seq<Text> {
    values.map_values(|value: String| value@)
}

/// The characters of each text in an optional list.
pub open spec fn optional_texts(values: Option<Vec<String>>) -> Option<Seq<Text>> {
    match values {
        Some(list) => Some(texts(list@)),
        None => None,
    }
}

/// A copy of an optional text.
pub fn clone_optional_text(value: &Option<String>) -> (copy: Option<String>)
    ensures
        optional_text(copy) == optional_text(*value),
{
    match value {
        Some(text) => Some(text.clone()),
        None => None,
    }
}

/// A copy of an optional list of texts.
fn clone_optional_texts(values: &Option<Vec<String>>) -> (copy: Option<Vec<String>>)
    ensures
        optional_texts(copy) == optional_texts(*values),
{
    match values {
        Some(list) => {
            let mut copies: Vec<String> = Vec::new();
            let mut i: usize = 0;
            while i < list.len()
                invariant
                    i <= list@.len(),
                    copies@ == list@.take(i as int),
                decreases list@.len() - i,
            {
                copies.push(list[i].clone());
                assert(list@.take(i + 1) =~= list@.take(i as int).push(list@[i as int]));
                i += 1;
            }
            assert(list@.take(i as int) =~= list@);
            Some(copies)
        },
        None => None,
    }
}

#[derive(Clone, Copy, Debug, PartialEq, Eq, Structural)]
pub enum OptionKind {
    Call,
    Put,
}

#[derive(Clone, Copy, Debug, PartialEq, Eq, Structural)]
pub enum PositionSide {
    Flat,
    Long,
    Short,
}

#[derive(Clone, Copy, Debug, PartialEq, Eq, Structural)]
pub enum OrderSide {
    Buy,
    Sell,
}

#[derive(Clone, Copy, Debug, PartialEq, Eq, Structural)]
pub enum OrderType {
    Market,
    Limit,
    StopMarket,
    StopLimit,
    MarketToLimit,
    MarketIfTouched,
    LimitIfTouched,
    TrailingStopMarket,
    TrailingStopLimit,
}

#[derive(Clone, Copy, Debug, PartialEq, Eq, Structural)]
pub enum OrderStatus {
    Initialized,
    Denied,
    Emulated,
    Released,
    Submitted,
    Accepted,
    Rejected,
    Canceled,
    Expired,
    Triggered,
    PendingUpdate,
    PendingCancel,
    PartiallyFilled,
    Filled,
}

#[derive(Clone, Copy, Debug, PartialEq, Eq, Structural)]
pub enum TimeInForce {
    Gtc,
    Ioc,
    Fok,
    Gtd,
    Day,
    AtTheOpen,
    AtTheClose,
}

#[derive(Clone, Copy, Debug, PartialEq, Eq, Structural)]
pub enum LiquiditySide {
    NoLiquiditySide,
    Maker,
    Taker,
}

/// The side of the order that closes a position; a flat position has none.
pub open spec fn closing_side_of(side: PositionSide) -> Option<OrderSide> {
    match side {
        PositionSide::Long => Some(OrderSide::Sell),
        PositionSide::Short => Some(OrderSide::Buy),
        PositionSide::Flat => None,
    }
}

/// The side of the order that opens a position; a flat position has none.
pub open spec fn opening_side_of(side: PositionSide) -> Option<OrderSide> {
    match side {
        PositionSide::Long => Some(OrderSide::Buy),
        PositionSide::Short => Some(OrderSide::Sell),
        PositionSide::Flat => None,
    }
}

/// The side of the order that closes a position on `side`.
pub fn closing_side(side: PositionSide) -> (order_side: Option<OrderSide>)
    ensures
        order_side == closing_side_of(side),
{
    match side {
        PositionSide::Long => Some(OrderSide::Sell),
        PositionSide::Short => Some(OrderSide::Buy),
        PositionSide::Flat => None,
    }
}

/// An amount of money, in the smallest unit that its currency is kept in.
#[derive(Debug)]
pub struct Money {
    pub units: i128,
    pub currency: String,
}

/// The view of [`Money`].
pub struct MoneyView {
    pub units: int,
    pub currency: Text,
}

impl View for Money {
    type V = MoneyView;

    open spec fn view(&self) -> MoneyView {
        MoneyView { units: self.units as int, currency: self.currency@ }
    }
}

impl Money {
    /// No money, in this currency.
    pub fn zero(currency: String) -> (money: Money)
        ensures
            money@ == (MoneyView { units: 0, currency: currency@ }),
    {
        Money { units: 0, currency }
    }
}

/// A position in an instrument.
#[derive(Debug)]
pub struct Position {
    pub id: String,
    pub trader_id: String,
    pub strategy_id: String,
    pub account_id: String,
    pub opening_order_id: String,
    pub ts_opened: UnixNanos,
    pub side: PositionSide,
    pub quantity: Quantity,
    pub closed: bool,
}

/// The view of a [`Position`].
pub struct PositionView {
    pub id: Text,
    pub trader_id: Text,
    pub strategy_id: Text,
    pub account_id: Text,
    pub opening_order_id: Text,
    pub ts_opened: UnixNanos,
    pub side: PositionSide,
    pub quantity: Quantity,
    pub closed: bool,
}

impl View for Position {
    type V = PositionView;

    open spec fn view(&self) -> PositionView {
        PositionView {
            id: self.id@,
            trader_id: self.trader_id@,
            strategy_id: self.strategy_id@,
            account_id: self.account_id@,
            opening_order_id: self.opening_order_id@,
            ts_opened: self.ts_opened,
            side: self.side,
            quantity: self.quantity,
            closed: self.closed,
        }
    }
}

impl Position {
    /// Whether the position has been closed.
    pub fn is_closed(&self) -> (closed: bool)
        ensures
            closed == self@.closed,
    {
        self.closed
    }
}

/// The views of a list of positions.
pub open spec fn position_views(positions: Seq<Position>) -> Seq<PositionView> {
    positions.map_values(|position: Position| position@)
}

/// What settlement reads of an instrument.
#[derive(Debug)]
pub struct InstrumentAny {
    pub id: String,
    pub is_index: bool,
    pub underlying: Option<String>,
    pub strike_price: Option<Price>,
    pub option_kind: Option<OptionKind>,
    pub expiration_ns: Option<UnixNanos>,
    pub multiplier: Quantity,
    pub price_precision: u8,
    pub size_precision: u8,
    pub quote_currency: String,
}

/// The view of an [`InstrumentAny`].
pub struct InstrumentView {
    pub id: Text,
    pub is_index: bool,
    pub underlying: Option<Text>,
    pub strike_price: Option<Price>,
    pub option_kind: Option<OptionKind>,
    pub expiration_ns: Option<UnixNanos>,
    pub multiplier: Quantity,
    pub price_precision: u8,
    pub size_precision: u8,
    pub quote_currency: Text,
}

impl View for InstrumentAny {
    type V = InstrumentView;

    open spec fn view(&self) -> InstrumentView {
        InstrumentView {
            id: self.id@,
            is_index: self.is_index,
            underlying: optional_text(self.underlying),
            strike_price: self.strike_price,
            option_kind: self.option_kind,
            expiration_ns: self.expiration_ns,
            multiplier: self.multiplier,
            price_precision: self.price_precision,
            size_precision: self.size_precision,
            quote_currency: self.quote_currency@,
        }
    }
}

/// What settlement reads and writes of an order. A settlement order stands alone: it is in
/// no order list, has no contingency and no execution algorithm.
#[derive(Debug)]
pub struct OrderAny {
    pub trader_id: String,
    pub strategy_id: String,
    pub instrument_id: String,
    pub client_order_id: String,
    pub venue_order_id: Option<String>,
    pub order_side: OrderSide,
    pub order_type: OrderType,
    pub quantity: Quantity,
    pub time_in_force: TimeInForce,
    pub status: OrderStatus,
    pub is_reduce_only: bool,
    pub is_quote_quantity: bool,
    pub init_id: String,
    pub ts_init: UnixNanos,
    pub tags: Option<Vec<String>>,
}

/// The view of an [`OrderAny`].
pub struct OrderView {
    pub trader_id: Text,
    pub strategy_id: Text,
    pub instrument_id: Text,
    pub client_order_id: Text,
    pub venue_order_id: Option<Text>,
    pub order_side: OrderSide,
    pub order_type: OrderType,
    pub quantity: Quantity,
    pub time_in_force: TimeInForce,
    pub status: OrderStatus,
    pub is_reduce_only: bool,
    pub is_quote_quantity: bool,
    pub init_id: Text,
    pub ts_init: UnixNanos,
    pub tags: Option<Seq<Text>>,
}

impl View for OrderAny {
    type V = OrderView;

    open spec fn view(&self) -> OrderView {
        OrderView {
            trader_id: self.trader_id@,
            strategy_id: self.strategy_id@,
            instrument_id: self.instrument_id@,
            client_order_id: self.client_order_id@,
            venue_order_id: optional_text(self.venue_order_id),
            order_side: self.order_side,
            order_type: self.order_type,
            quantity: self.quantity,
            time_in_force: self.time_in_force,
            status: self.status,
            is_reduce_only: self.is_reduce_only,
            is_quote_quantity: self.is_quote_quantity,
            init_id: self.init_id@,
            ts_init: self.ts_init,
            tags: optional_texts(self.tags),
        }
    }
}

impl Clone for OrderAny {
    fn clone(&self) -> (copy: OrderAny)
        ensures
            copy@ == self@,
    {
        OrderAny {
            trader_id: self.trader_id.clone(),
            strategy_id: self.strategy_id.clone(),
            instrument_id: self.instrument_id.clone(),
            client_order_id: self.client_order_id.clone(),
            venue_order_id: clone_optional_text(&self.venue_order_id),
            order_side: self.order_side,
            order_type: self.order_type,
            quantity: self.quantity,
            time_in_force: self.time_in_force,
            status: self.status,
            is_reduce_only: self.is_reduce_only,
            is_quote_quantity: self.is_quote_quantity,
            init_id: self.init_id.clone(),
            ts_init: self.ts_init,
            tags: clone_optional_texts(&self.tags),
        }
    }
}

/// The view of an optional order.
pub open spec fn order_view(order: Option<OrderAny>) -> Option<OrderView> {
    match order {
        Some(order) => Some(order@),
        None => None,
    }
}

/// The event that an order was filled.
#[derive(Debug)]
pub struct OrderFilled {
    pub trader_id: String,
    pub strategy_id: String,
    pub instrument_id: String,
    pub client_order_id: String,
    pub venue_order_id: String,
    pub account_id: String,
    pub trade_id: String,
    pub order_side: OrderSide,
    pub order_type: OrderType,
    pub last_qty: Quantity,
    pub last_px: Price,
    pub currency: String,
    pub liquidity_side: LiquiditySide,
    pub event_id: String,
    pub ts_event: UnixNanos,
    pub ts_init: UnixNanos,
    pub reconciliation: bool,
    pub position_id: Option<String>,
    pub commission: Option<Money>,
}

/// The view of an [`OrderFilled`].
pub struct FillView {
    pub trader_id: Text,
    pub strategy_id: Text,
    pub instrument_id: Text,
    pub client_order_id: Text,
    pub venue_order_id: Text,
    pub account_id: Text,
    pub trade_id: Text,
    pub order_side: OrderSide,
    pub order_type: OrderType,
    pub last_qty: Quantity,
    pub last_px: Price,
    pub currency: Text,
    pub liquidity_side: LiquiditySide,
    pub event_id: Text,
    pub ts_event: UnixNanos,
    pub ts_init: UnixNanos,
    pub reconciliation: bool,
    pub position_id: Option<Text>,
    pub commission: Option<MoneyView>,
}

impl View for OrderFilled {
    type V = FillView;

    open spec fn view(&self) -> FillView {
        FillView {
            trader_id: self.trader_id@,
            strategy_id: self.strategy_id@,
            instrument_id: self.instrument_id@,
            client_order_id: self.client_order_id@,
            venue_order_id: self.venue_order_id@,
            account_id: self.account_id@,
            trade_id: self.trade_id@,
            order_side: self.order_side,
            order_type: self.order_type,
            last_qty: self.last_qty,
            last_px: self.last_px,
            currency: self.currency@,
            liquidity_side: self.liquidity_side,
            event_id: self.event_id@,
            ts_event: self.ts_event,
            ts_init: self.ts_init,
            reconciliation: self.reconciliation,
            position_id: optional_text(self.position_id),
            commission: match self.commission {
                Some(money) => Some(money@),
                None => None,
            },
        }
    }
}

impl Clone for OrderFilled {
    fn clone(&self) -> (copy: OrderFilled)
        ensures
            copy@ == self@,
    {
        OrderFilled {
            trader_id: self.trader_id.clone(),
            strategy_id: self.strategy_id.clone(),
            instrument_id: self.instrument_id.clone(),
            client_order_id: self.client_order_id.clone(),
            venue_order_id: self.venue_order_id.clone(),
            account_id: self.account_id.clone(),
            trade_id: self.trade_id.clone(),
            order_side: self.order_side,
            order_type: self.order_type,
            last_qty: self.last_qty,
            last_px: self.last_px,
            currency: self.currency.clone(),
            liquidity_side: self.liquidity_side,
            event_id: self.event_id.clone(),
            ts_event: self.ts_event,
            ts_init: self.ts_init,
            reconciliation: self.reconciliation,
            position_id: clone_optional_text(&self.position_id),
            commission: match &self.commission {
                Some(money) => Some(Money { units: money.units, currency: money.currency.clone() }),
                None => None,
            },
        }
    }
}

/// One leg of a settlement: an order and the fill that completes it.
#[derive(Debug)]
pub struct OptionSettlementLeg {
    pub order: OrderAny,
    pub fill: OrderFilled,
}

/// The view of an [`OptionSettlementLeg`].
pub struct LegView {
    pub order: OrderView,
    pub fill: FillView,
}

impl View for OptionSettlementLeg {
    type V = LegView;

    open spec fn view(&self) -> LegView {
        LegView { order: self.order@, fill: self.fill@ }
    }
}

/// The views of a list of legs.
pub open spec fn leg_views(legs: Seq<OptionSettlementLeg>) -> Seq<LegView> {
    legs.map_values(|leg: OptionSettlementLeg| leg@)
}

/// The legs that settle a list of positions, in the order in which they are to be applied.
#[derive(Debug)]
pub struct OptionSettlementPlan {
    pub legs: Vec<OptionSettlementLeg>,
}

impl View for OptionSettlementPlan {
    type V = Seq<LegView>;

    open spec fn view(&self) -> Seq<LegView> {
        leg_views(self.legs@)
    }
}

} // verus!
