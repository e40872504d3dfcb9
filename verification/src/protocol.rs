//! What a settlement run asks of its host, what the host answers, and the order events
//! that the run gives out on the way.
use vstd::prelude::*;

use crate::amounts::Price;
use crate::errors::SettlementError;
use crate::faults::SettlementFault;
use crate::model::{InstrumentAny, OrderAny, OrderFilled, Position, UnixNanos};
#[allow(unused_imports)]
use crate::errors::ErrorView;
#[allow(unused_imports)]
use crate::model::{
    optional_text, order_view, position_views, FillView, InstrumentView, OrderView, PositionView,
    Text,
};

verus! {

/// What a run needs next.
#[derive(Debug)]
pub enum Request {
    /// Every position in an instrument, open or closed.
    Positions { instrument_id: String },
    /// The open positions in an instrument.
    OpenPositions { instrument_id: String },
    /// Two orders, as the cache holds them at one time.
    SettlementOrders { close_id: String, open_id: String },
    /// An instrument.
    Instrument { instrument_id: String },
    /// The last level of an index.
    IndexPrice { instrument_id: String },
    /// The last traded price of an instrument.
    LastPrice { instrument_id: String },
    /// This many readings of the engine's clock.
    Clock { readings: u128 },
    /// An order.
    Order { client_order_id: String },
    /// The order to be put in the cache, under the position, in place of no other.
    AddOrder { order: OrderAny, position_id: Option<String> },
    /// The venue order identifier to be recorded for the order, in place of no other.
    AddVenueOrderId { client_order_id: String, venue_order_id: String },
    /// Nothing: the run is over.
    Nothing,
}

/// The view of a [`Request`].
pub enum RequestView {
    Positions { instrument_id: Text },
    OpenPositions { instrument_id: Text },
    SettlementOrders { close_id: Text, open_id: Text },
    Instrument { instrument_id: Text },
    IndexPrice { instrument_id: Text },
    LastPrice { instrument_id: Text },
    Clock { readings: int },
    Order { client_order_id: Text },
    AddOrder { order: OrderView, position_id: Option<Text> },
    AddVenueOrderId { client_order_id: Text, venue_order_id: Text },
    Nothing,
}

impl View for Request {
    type V = RequestView;

    open spec fn view(&self) -> RequestView {
        match self {
            Request::Positions { instrument_id } => RequestView::Positions {
                instrument_id: instrument_id@,
            },
            Request::OpenPositions { instrument_id } => RequestView::OpenPositions {
                instrument_id: instrument_id@,
            },
            Request::SettlementOrders { close_id, open_id } => RequestView::SettlementOrders {
                close_id: close_id@,
                open_id: open_id@,
            },
            Request::Instrument { instrument_id } => RequestView::Instrument {
                instrument_id: instrument_id@,
            },
            Request::IndexPrice { instrument_id } => RequestView::IndexPrice {
                instrument_id: instrument_id@,
            },
            Request::LastPrice { instrument_id } => RequestView::LastPrice {
                instrument_id: instrument_id@,
            },
            Request::Clock { readings } => RequestView::Clock { readings: *readings as int },
            Request::Order { client_order_id } => RequestView::Order {
                client_order_id: client_order_id@,
            },
            Request::AddOrder { order, position_id } => RequestView::AddOrder {
                order: order@,
                position_id: optional_text(*position_id),
            },
            Request::AddVenueOrderId { client_order_id, venue_order_id } =>
                RequestView::AddVenueOrderId {
                client_order_id: client_order_id@,
                venue_order_id: venue_order_id@,
            },
            Request::Nothing => RequestView::Nothing,
        }
    }
}

/// What the host answers.
#[derive(Debug)]
pub enum Reply {
    Positions(Vec<Position>),
    SettlementOrders { close: Option<OrderAny>, open: Option<OrderAny> },
    Instrument(Option<InstrumentAny>),
    Price(Option<Price>),
    Clock(Vec<UnixNanos>),
    Order(Option<OrderAny>),
    /// Whether something was taken into the cache; if not, why.
    Stored(Result<(), String>),
}

/// The view of a [`Reply`].
pub enum ReplyView {
    Positions(Seq<PositionView>),
    SettlementOrders { close: Option<OrderView>, open: Option<OrderView> },
    Instrument(Option<InstrumentView>),
    Price(Option<Price>),
    Clock(Seq<UnixNanos>),
    Order(Option<OrderView>),
    Stored(Result<(), Text>),
}

impl View for Reply {
    type V = ReplyView;

    open spec fn view(&self) -> ReplyView {
        match self {
            Reply::Positions(positions) => ReplyView::Positions(position_views(positions@)),
            Reply::SettlementOrders { close, open } => ReplyView::SettlementOrders {
                close: order_view(*close),
                open: order_view(*open),
            },
            Reply::Instrument(instrument) => ReplyView::Instrument(
                match instrument {
                    Some(instrument) => Some(instrument@),
                    None => None,
                },
            ),
            Reply::Price(price) => ReplyView::Price(*price),
            Reply::Clock(readings) => ReplyView::Clock(readings@),
            Reply::Order(order) => ReplyView::Order(order_view(*order)),
            Reply::Stored(stored) => ReplyView::Stored(
                match stored {
                    Ok(_) => Ok(()),
                    Err(cause) => Err(cause@),
                },
            ),
        }
    }
}

/// The answer is of the kind that was asked for.
pub open spec fn answers(request: RequestView, reply: ReplyView) -> bool {
    match request {
        RequestView::Positions { .. } | RequestView::OpenPositions { .. } => reply is Positions,
        RequestView::SettlementOrders { .. } => reply is SettlementOrders,
        RequestView::Instrument { .. } => reply is Instrument,
        RequestView::IndexPrice { .. } | RequestView::LastPrice { .. } => reply is Price,
        RequestView::Clock { readings } => reply matches ReplyView::Clock(clock) && clock.len()
            == readings,
        RequestView::Order { .. } => reply is Order,
        RequestView::AddOrder { .. } | RequestView::AddVenueOrderId { .. } => reply is Stored,
        RequestView::Nothing => false,
    }
}

/// An order event that the run gives out.
#[derive(Debug)]
pub enum Event {
    /// The order's initialization is to be published.
    Initialized(OrderAny),
    /// The order is accepted under the venue order identifier.
    Accepted { order: OrderAny, venue_order_id: String },
    /// The fill is to be dispatched.
    Filled(OrderFilled),
}

/// The view of an [`Event`].
pub enum EventView {
    Initialized(OrderView),
    Accepted { order: OrderView, venue_order_id: Text },
    Filled(FillView),
}

impl View for Event {
    type V = EventView;

    open spec fn view(&self) -> EventView {
        match self {
            Event::Initialized(order) => EventView::Initialized(order@),
            Event::Accepted { order, venue_order_id } => EventView::Accepted {
                order: order@,
                venue_order_id: venue_order_id@,
            },
            Event::Filled(fill) => EventView::Filled(fill@),
        }
    }
}

/// The views of a list of events.
pub open spec fn event_views(events: Seq<Event>) -> Seq<EventView> {
    events.map_values(|event: Event| event@)
}

/// How a run ended.
#[derive(Debug)]
pub enum Outcome {
    /// Everything is settled.
    Complete,
    /// Something that settlement needs is not known yet.
    Retry,
    /// The attempt failed.
    Failed(SettlementError),
    /// The data that the engine was given cannot be settled.
    Fault(SettlementFault),
}

/// The view of an [`Outcome`].
pub enum OutcomeView {
    Complete,
    Retry,
    Failed(ErrorView),
    Fault(SettlementFault),
}

impl View for Outcome {
    type V = OutcomeView;

    open spec fn view(&self) -> OutcomeView {
        match self {
            Outcome::Complete => OutcomeView::Complete,
            Outcome::Retry => OutcomeView::Retry,
            Outcome::Failed(error) => OutcomeView::Failed(error@),
            Outcome::Fault(fault) => OutcomeView::Fault(*fault),
        }
    }
}

} // verus!
