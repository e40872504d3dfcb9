//! The errors that end a settlement attempt.
use vstd::prelude::*;
use vstd::string::StringExecFns;

use crate::model::OrderStatus;
#[allow(unused_imports)]
use crate::model::Text;

verus! {

/// Why a settlement attempt failed.
#[derive(Debug)]
pub enum SettlementError {
    /// A pending delivery is in a status from which it cannot be completed.
    CannotResume { client_order_id: String, status: OrderStatus },
    /// The cache holds another order under the identifier of a settlement order.
    Conflict { client_order_id: String },
    /// The cache did not take a settlement order.
    CannotAdd { client_order_id: String, cause: String },
    /// The cache did not take the venue order identifier of a settlement order.
    CannotClaim { client_order_id: String, venue_order_id: String, cause: String },
    /// The cache lost a settlement order.
    NotCached { client_order_id: String },
}

/// The view of a [`SettlementError`].
pub enum ErrorView {
    CannotResume { client_order_id: Text, status: OrderStatus },
    Conflict { client_order_id: Text },
    CannotAdd { client_order_id: Text, cause: Text },
    CannotClaim { client_order_id: Text, venue_order_id: Text, cause: Text },
    NotCached { client_order_id: Text },
}

impl View for SettlementError {
    type V = ErrorView;

    open spec fn view(&self) -> ErrorView {
        match self {
            SettlementError::CannotResume { client_order_id, status } => ErrorView::CannotResume {
                client_order_id: client_order_id@,
                status: *status,
            },
            SettlementError::Conflict { client_order_id } => ErrorView::Conflict {
                client_order_id: client_order_id@,
            },
            SettlementError::CannotAdd { client_order_id, cause } => ErrorView::CannotAdd {
                client_order_id: client_order_id@,
                cause: cause@,
            },
            SettlementError::CannotClaim { client_order_id, venue_order_id, cause } =>
                ErrorView::CannotClaim {
                client_order_id: client_order_id@,
                venue_order_id: venue_order_id@,
                cause: cause@,
            },
            SettlementError::NotCached { client_order_id } => ErrorView::NotCached {
                client_order_id: client_order_id@,
            },
        }
    }
}

/// The name of an order status.
pub open spec fn status_text(status: OrderStatus) -> Text {
    match status {
        OrderStatus::Initialized => "INITIALIZED"@,
        OrderStatus::Denied => "DENIED"@,
        OrderStatus::Emulated => "EMULATED"@,
        OrderStatus::Released => "RELEASED"@,
        OrderStatus::Submitted => "SUBMITTED"@,
        OrderStatus::Accepted => "ACCEPTED"@,
        OrderStatus::Rejected => "REJECTED"@,
        OrderStatus::Canceled => "CANCELED"@,
        OrderStatus::Expired => "EXPIRED"@,
        OrderStatus::Triggered => "TRIGGERED"@,
        OrderStatus::PendingUpdate => "PENDING_UPDATE"@,
        OrderStatus::PendingCancel => "PENDING_CANCEL"@,
        OrderStatus::PartiallyFilled => "PARTIALLY_FILLED"@,
        OrderStatus::Filled => "FILLED"@,
    }
}

impl OrderStatus {
    /// The name of the status.
    pub fn as_text(&self) -> (text: &'static str)
        ensures
            text@ == status_text(*self),
    {
        match self {
            OrderStatus::Initialized => "INITIALIZED",
            OrderStatus::Denied => "DENIED",
            OrderStatus::Emulated => "EMULATED",
            OrderStatus::Released => "RELEASED",
            OrderStatus::Submitted => "SUBMITTED",
            OrderStatus::Accepted => "ACCEPTED",
            OrderStatus::Rejected => "REJECTED",
            OrderStatus::Canceled => "CANCELED",
            OrderStatus::Expired => "EXPIRED",
            OrderStatus::Triggered => "TRIGGERED",
            OrderStatus::PendingUpdate => "PENDING_UPDATE",
            OrderStatus::PendingCancel => "PENDING_CANCEL",
            OrderStatus::PartiallyFilled => "PARTIALLY_FILLED",
            OrderStatus::Filled => "FILLED",
        }
    }
}

/// The error in words.
pub open spec fn error_message(error: ErrorView) -> Text {
    match error {
        ErrorView::CannotResume { client_order_id, status } =>
            "cannot resume physical option settlement order "@ + client_order_id + " from status "@
            + status_text(status),
        ErrorView::Conflict { client_order_id } => "existing settlement order "@ + client_order_id
            + " conflicts with the recovered plan"@,
        ErrorView::CannotAdd { client_order_id, cause } => "cannot add settlement order "@
            + client_order_id + ": "@ + cause,
        ErrorView::CannotClaim { client_order_id, venue_order_id, cause } =>
            "cannot claim venue order ID "@ + venue_order_id + " for settlement order "@
            + client_order_id + ": "@ + cause,
        ErrorView::NotCached { client_order_id } => "settlement order "@ + client_order_id
            + " is not cached"@,
    }
}

impl SettlementError {
    /// The error in words.
    pub fn message(&self) -> (message: String)
        ensures
            message@ == error_message(self@),
    {
        match self {
            SettlementError::CannotResume { client_order_id, status } => {
                let mut message: String =
                    "cannot resume physical option settlement order ".to_owned();
                message.append(client_order_id.as_str());
                message.append(" from status ");
                message.append(status.as_text());
                message
            },
            SettlementError::Conflict { client_order_id } => {
                let mut message: String = "existing settlement order ".to_owned();
                message.append(client_order_id.as_str());
                message.append(" conflicts with the recovered plan");
                message
            },
            SettlementError::CannotAdd { client_order_id, cause } => {
                let mut message: String = "cannot add settlement order ".to_owned();
                message.append(client_order_id.as_str());
                message.append(": ");
                message.append(cause.as_str());
                message
            },
            SettlementError::CannotClaim { client_order_id, venue_order_id, cause } => {
                let mut message: String = "cannot claim venue order ID ".to_owned();
                message.append(venue_order_id.as_str());
                message.append(" for settlement order ");
                message.append(client_order_id.as_str());
                message.append(": ");
                message.append(cause.as_str());
                message
            },
            SettlementError::NotCached { client_order_id } => {
                let mut message: String = "settlement order ".to_owned();
                message.append(client_order_id.as_str());
                message.append(" is not cached");
                message
            },
        }
    }
}

} // verus!
