//! That the views show what the values hold, and the texts of errors and warnings.
use vstd::prelude::*;

#[allow(unused_imports)]
use crate::engine::{after_retry, OrderMatchingEngine};
#[allow(unused_imports)]
use crate::errors::{error_message, status_text, ErrorView, SettlementError};
#[allow(unused_imports)]
use crate::faults::SettlementFault;
#[allow(unused_imports)]
use crate::model::{
    optional_text, order_view, position_views, texts, InstrumentAny, OptionSettlementLeg,
    OptionSettlementPlan, OrderAny, OrderFilled, OrderStatus, Position, Text,
};
#[allow(unused_imports)]
use crate::protocol::{
    event_views, Event, EventView, Outcome, OutcomeView, Reply, ReplyView, Request, RequestView,
};
#[allow(unused_imports)]
use crate::terms::{ids_view, EngineView};

verus! {

/// The view of a position shows every field as it is, each text by its characters.
pub proof fn law_view_of_a_position(position: Position)
    ensures
        position@.id == position.id@,
        position@.trader_id == position.trader_id@,
        position@.strategy_id == position.strategy_id@,
        position@.account_id == position.account_id@,
        position@.opening_order_id == position.opening_order_id@,
        position@.ts_opened == position.ts_opened,
        position@.side == position.side,
        position@.quantity == position.quantity,
        position@.closed == position.closed,
{
}

/// The view of an instrument shows every field as it is, each text by its characters.
pub proof fn law_view_of_an_instrument(instrument: InstrumentAny)
    ensures
        instrument@.id == instrument.id@,
        instrument@.is_index == instrument.is_index,
        instrument@.underlying is Some <==> instrument.underlying is Some,
        instrument.underlying is Some ==> instrument@.underlying->0 == instrument.underlying->0@,
        instrument@.strike_price == instrument.strike_price,
        instrument@.option_kind == instrument.option_kind,
        instrument@.expiration_ns == instrument.expiration_ns,
        instrument@.multiplier == instrument.multiplier,
        instrument@.price_precision == instrument.price_precision,
        instrument@.size_precision == instrument.size_precision,
        instrument@.quote_currency == instrument.quote_currency@,
{
}

/// The view of an order shows every field as it is, each text by its characters.
pub proof fn law_view_of_an_order(order: OrderAny)
    ensures
        order@.trader_id == order.trader_id@,
        order@.strategy_id == order.strategy_id@,
        order@.instrument_id == order.instrument_id@,
        order@.client_order_id == order.client_order_id@,
        order@.venue_order_id is Some <==> order.venue_order_id is Some,
        order.venue_order_id is Some ==> order@.venue_order_id->0 == order.venue_order_id->0@,
        order@.order_side == order.order_side,
        order@.order_type == order.order_type,
        order@.quantity == order.quantity,
        order@.time_in_force == order.time_in_force,
        order@.status == order.status,
        order@.is_reduce_only == order.is_reduce_only,
        order@.is_quote_quantity == order.is_quote_quantity,
        order@.init_id == order.init_id@,
        order@.ts_init == order.ts_init,
        order@.tags is Some <==> order.tags is Some,
        order.tags is Some ==> order@.tags->0.len() == order.tags->0@.len(),
        order.tags is Some ==> forall|i: int|
            0 <= i < order.tags->0@.len() ==> #[trigger] order@.tags->0[i] == order.tags->0@[i]@,
{
}

/// The view of a fill shows every field as it is, each text by its characters.
pub proof fn law_view_of_a_fill(fill: OrderFilled)
    ensures
        fill@.trader_id == fill.trader_id@,
        fill@.strategy_id == fill.strategy_id@,
        fill@.instrument_id == fill.instrument_id@,
        fill@.client_order_id == fill.client_order_id@,
        fill@.venue_order_id == fill.venue_order_id@,
        fill@.account_id == fill.account_id@,
        fill@.trade_id == fill.trade_id@,
        fill@.order_side == fill.order_side,
        fill@.order_type == fill.order_type,
        fill@.last_qty == fill.last_qty,
        fill@.last_px == fill.last_px,
        fill@.currency == fill.currency@,
        fill@.liquidity_side == fill.liquidity_side,
        fill@.event_id == fill.event_id@,
        fill@.ts_event == fill.ts_event,
        fill@.ts_init == fill.ts_init,
        fill@.reconciliation == fill.reconciliation,
        fill@.position_id is Some <==> fill.position_id is Some,
        fill.position_id is Some ==> fill@.position_id->0 == fill.position_id->0@,
        fill@.commission is Some <==> fill.commission is Some,
        fill.commission is Some ==> fill@.commission->0.units == fill.commission->0.units,
        fill.commission is Some ==> fill@.commission->0.currency == fill.commission->0.currency@,
{
}

/// The view of a leg is that of its order and that of its fill; a list of legs, positions,
/// events or texts is shown one for one.
pub proof fn law_views_of_lists(
    leg: OptionSettlementLeg,
    plan: OptionSettlementPlan,
    positions: Seq<Position>,
    events: Seq<Event>,
    values: Seq<String>,
    i: int,
)
    ensures
        leg@.order == leg.order@,
        leg@.fill == leg.fill@,
        plan@.len() == plan.legs@.len(),
        0 <= i < plan.legs@.len() ==> plan@[i] == plan.legs@[i]@,
        position_views(positions).len() == positions.len(),
        0 <= i < positions.len() ==> position_views(positions)[i] == positions[i]@,
        event_views(events).len() == events.len(),
        0 <= i < events.len() ==> event_views(events)[i] == events[i]@,
        texts(values).len() == values.len(),
        0 <= i < values.len() ==> texts(values)[i] == values[i]@,
{
}

/// An order that is there is shown by its view, and one that is not as none; three
/// identifiers are shown in the order client order, venue order, trade.
pub proof fn law_views_of_orders_and_identifiers(
    order: Option<OrderAny>,
    ids: (String, String, String),
)
    ensures
        order_view(order) is Some <==> order is Some,
        order is Some ==> order_view(order)->0 == order->0@,
        ids_view(ids).client_order_id == ids.0@,
        ids_view(ids).venue_order_id == ids.1@,
        ids_view(ids).trade_id == ids.2@,
{
}

/// The view of an engine shows its fields as they are.
pub proof fn law_view_of_an_engine(engine: OrderMatchingEngine)
    ensures
        engine@.venue == engine.venue@,
        engine@.instrument == engine.instrument@,
        engine@.use_random_ids == engine.config.use_random_ids,
        engine@.instrument_close is Some <==> engine.instrument_close is Some,
        engine.instrument_close is Some ==> engine@.instrument_close->0
            == engine.instrument_close->0.close_price,
        engine@.warning is Some <==> engine.option_settlement_warning is Some,
        engine.option_settlement_warning is Some ==> engine@.warning->0
            == engine.option_settlement_warning->0@,
        engine@.warnings == texts(engine.warnings@),
        engine@.account_ids == engine.account_ids@,
{
}

/// The view of an answer shows what was answered.
pub proof fn law_view_of_an_answer(reply: Reply)
    ensures
        match reply {
            Reply::Positions(positions) => reply@ == ReplyView::Positions(
                position_views(positions@),
            ),
            Reply::SettlementOrders { close, open } => reply@ == (ReplyView::SettlementOrders {
                close: order_view(close),
                open: order_view(open),
            }),
            Reply::Instrument(Some(instrument)) => reply@ == ReplyView::Instrument(
                Some(instrument@),
            ),
            Reply::Instrument(None) => reply@ == ReplyView::Instrument(None),
            Reply::Price(price) => reply@ == ReplyView::Price(price),
            Reply::Clock(readings) => reply@ == ReplyView::Clock(readings@),
            Reply::Order(order) => reply@ == ReplyView::Order(order_view(order)),
            Reply::Stored(Ok(_)) => reply@ is Stored && reply@->Stored_0 is Ok,
            Reply::Stored(Err(cause)) => reply@ == ReplyView::Stored(Err(cause@)),
        },
{
}

/// The view of a request shows what is asked for.
pub proof fn law_view_of_a_request(request: Request)
    ensures
        match request {
            Request::Positions { instrument_id } => request@ == (RequestView::Positions {
                instrument_id: instrument_id@,
            }),
            Request::OpenPositions { instrument_id } => request@ == (RequestView::OpenPositions {
                instrument_id: instrument_id@,
            }),
            Request::SettlementOrders { close_id, open_id } => request@ == (
            RequestView::SettlementOrders { close_id: close_id@, open_id: open_id@ }),
            Request::Instrument { instrument_id } => request@ == (RequestView::Instrument {
                instrument_id: instrument_id@,
            }),
            Request::IndexPrice { instrument_id } => request@ == (RequestView::IndexPrice {
                instrument_id: instrument_id@,
            }),
            Request::LastPrice { instrument_id } => request@ == (RequestView::LastPrice {
                instrument_id: instrument_id@,
            }),
            Request::Clock { readings } => request@ is Clock && request@->readings == readings,
            Request::Order { client_order_id } => request@ == (RequestView::Order {
                client_order_id: client_order_id@,
            }),
            Request::AddOrder { order, position_id } => request@ == (RequestView::AddOrder {
                order: order@,
                position_id: optional_text(position_id),
            }),
            Request::AddVenueOrderId { client_order_id, venue_order_id } => request@ == (
            RequestView::AddVenueOrderId {
                client_order_id: client_order_id@,
                venue_order_id: venue_order_id@,
            }),
            Request::Nothing => request@ == RequestView::Nothing,
        },
{
}

/// The views of an event and of an outcome show what happened.
pub proof fn law_view_of_an_event_and_an_outcome(event: Event, outcome: Outcome)
    ensures
        match event {
            Event::Initialized(order) => event@ == EventView::Initialized(order@),
            Event::Accepted { order, venue_order_id } => event@ == (EventView::Accepted {
                order: order@,
                venue_order_id: venue_order_id@,
            }),
            Event::Filled(fill) => event@ == EventView::Filled(fill@),
        },
        match outcome {
            Outcome::Complete => outcome@ == OutcomeView::Complete,
            Outcome::Retry => outcome@ == OutcomeView::Retry,
            Outcome::Failed(error) => outcome@ == OutcomeView::Failed(error@),
            Outcome::Fault(fault) => outcome@ == OutcomeView::Fault(fault),
        },
{
}

/// The view of an error shows its fields as they are, each text by its characters.
pub proof fn law_view_of_an_error(error: SettlementError)
    ensures
        match error {
            SettlementError::CannotResume { client_order_id, status } => error@ == (
            ErrorView::CannotResume { client_order_id: client_order_id@, status }),
            SettlementError::Conflict { client_order_id } => error@ == (ErrorView::Conflict {
                client_order_id: client_order_id@,
            }),
            SettlementError::CannotAdd { client_order_id, cause } => error@ == (
            ErrorView::CannotAdd { client_order_id: client_order_id@, cause: cause@ }),
            SettlementError::CannotClaim { client_order_id, venue_order_id, cause } => error@ == (
            ErrorView::CannotClaim {
                client_order_id: client_order_id@,
                venue_order_id: venue_order_id@,
                cause: cause@,
            }),
            SettlementError::NotCached { client_order_id } => error@ == (ErrorView::NotCached {
                client_order_id: client_order_id@,
            }),
        },
{
}

/// The message of an error names the order that it is about, whatever that is, and says why.
pub proof fn law_messages_of_errors(
    id: Text,
    venue_id: Text,
    cause: Text,
    status: OrderStatus,
)
    ensures
        error_message(ErrorView::CannotResume { client_order_id: id, status })
            == "cannot resume physical option settlement order "@ + id + " from status "@
            + status_text(status),
        error_message(ErrorView::Conflict { client_order_id: id }) == "existing settlement order "@
            + id + " conflicts with the recovered plan"@,
        error_message(ErrorView::CannotAdd { client_order_id: id, cause })
            == "cannot add settlement order "@ + id + ": "@ + cause,
        error_message(
            ErrorView::CannotClaim { client_order_id: id, venue_order_id: venue_id, cause },
        ) == "cannot claim venue order ID "@ + venue_id + " for settlement order "@ + id + ": "@
            + cause,
        error_message(ErrorView::NotCached { client_order_id: id }) == "settlement order "@ + id
            + " is not cached"@,
{
}

/// Every order status has its own name.
pub proof fn law_names_of_statuses(status: OrderStatus)
    ensures
        status == OrderStatus::Initialized ==> status_text(status) == "INITIALIZED"@,
        status == OrderStatus::Denied ==> status_text(status) == "DENIED"@,
        status == OrderStatus::Emulated ==> status_text(status) == "EMULATED"@,
        status == OrderStatus::Released ==> status_text(status) == "RELEASED"@,
        status == OrderStatus::Submitted ==> status_text(status) == "SUBMITTED"@,
        status == OrderStatus::Accepted ==> status_text(status) == "ACCEPTED"@,
        status == OrderStatus::Rejected ==> status_text(status) == "REJECTED"@,
        status == OrderStatus::Canceled ==> status_text(status) == "CANCELED"@,
        status == OrderStatus::Expired ==> status_text(status) == "EXPIRED"@,
        status == OrderStatus::Triggered ==> status_text(status) == "TRIGGERED"@,
        status == OrderStatus::PendingUpdate ==> status_text(status) == "PENDING_UPDATE"@,
        status == OrderStatus::PendingCancel ==> status_text(status) == "PENDING_CANCEL"@,
        status == OrderStatus::PartiallyFilled ==> status_text(status) == "PARTIALLY_FILLED"@,
        status == OrderStatus::Filled ==> status_text(status) == "FILLED"@,
{
}

/// Every fault has its own message.
pub proof fn law_messages_of_faults(fault: SettlementFault)
    ensures
        fault == SettlementFault::MissingExpiration ==> fault.spec_message()
            == "option settlement requires an expiration timestamp"@,
        fault == SettlementFault::MissingStrike ==> fault.spec_message()
            == "option must have strike"@,
        fault == SettlementFault::MissingDeliveryStrike ==> fault.spec_message()
            == "physical option settlement requires a strike price"@,
        fault == SettlementFault::FlatPosition ==> fault.spec_message()
            == "Settlement position must be Long or Short"@,
        fault == SettlementFault::NonPositiveQuantity ==> fault.spec_message()
            == "Settlement quantity must be positive"@,
        fault == SettlementFault::AmountOutOfRange ==> fault.spec_message()
            == "Amount exceeds the range of decimal numbers"@,
        fault == SettlementFault::InvalidSettlementPrice ==> fault.spec_message()
            == "Invalid option settlement price"@,
        fault == SettlementFault::InvalidUnderlyingQuantity ==> fault.spec_message()
            == "Invalid underlying settlement quantity"@,
{
}

/// An attempt that is to be repeated adds one warning, with its message, exactly where its
/// reason is not the last that was warned about, and then remembers the reason. Nothing else
/// of the engine changes.
pub proof fn law_a_new_reason_is_warned_about(engine: EngineView, reason: Text, message: Text)
    ensures
        ({
            let after = after_retry(engine, reason, message);
            &&& after.venue == engine.venue
            &&& after.instrument == engine.instrument
            &&& after.use_random_ids == engine.use_random_ids
            &&& after.instrument_close == engine.instrument_close
            &&& after.account_ids == engine.account_ids
            &&& after.warning == Some(reason)
            &&& engine.warning == Some(reason) ==> after.warnings == engine.warnings
            &&& engine.warning != Some(reason) ==> after.warnings.len() == engine.warnings.len() + 1
                && after.warnings.last() == message + "; settlement will retry"@
                && after.warnings.drop_last() =~= engine.warnings
        }),
{
}

} // verus!
