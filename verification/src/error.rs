//! Errors that the transfer API reports.
use vstd::prelude::*;
use crate::machine::{MachineError, machine_code, machine_message};
use vstd::string::*;

verus! {

/// An error of a transfer operation, with a stable machine-readable code.
#[derive(Debug)]
pub enum ApiError {
    /// No transfer has the given id.
    NotFound,
    /// The queue holds as many transfers or bytes as it admits.
    QueueFull,
    /// Only queued or waiting transfers can be cancelled.
    NotCancellable,
    /// Only transfers with an uncertain outcome can be confirmed.
    NotUncertain,
    /// The transfer was cancelled before its upload began.
    Cancelled,
    /// An earlier transfer to the same device has an uncertain outcome.
    PreviousDeliveryUnknown,
    /// A machine operation failed.
    Machine(MachineError),
    /// Bridge could not save its own state.
    Internal(String),
    /// The upload worker was handed an outcome it did not ask for.
    OutOfOrder,
}

pub open spec fn api_code(e: ApiError) -> Seq<char> {
    match e {
        ApiError::NotFound => "not_found"@,
        ApiError::QueueFull => "queue_full"@,
        ApiError::NotCancellable => "not_cancellable"@,
        ApiError::NotUncertain => "not_uncertain"@,
        ApiError::Cancelled => "cancelled"@,
        ApiError::PreviousDeliveryUnknown => "previous_delivery_unknown"@,
        ApiError::Machine(m) => machine_code(m),
        ApiError::Internal(_) => "internal"@,
        ApiError::OutOfOrder => "internal"@,
    }
}

pub open spec fn api_message(e: ApiError) -> Seq<char> {
    match e {
        ApiError::NotFound => "Unknown transfer"@,
        ApiError::QueueFull => "The transfer queue is full. Wait for transfers to finish."@,
        ApiError::NotCancellable => "Only queued or waiting transfers can be cancelled."@,
        ApiError::NotUncertain => "This transfer does not need confirmation."@,
        ApiError::Cancelled => "Transfer cancelled"@,
        ApiError::PreviousDeliveryUnknown =>
            "Check and resolve the earlier uncertain transfer on this device first."@,
        ApiError::Machine(m) => machine_message(m),
        ApiError::Internal(s) => s@,
        ApiError::OutOfOrder => "The upload worker received an unexpected step."@,
    }
}

impl ApiError {
    /// The stable code of the error, such as `queue_full`.
    pub fn code(&self) -> (r: &'static str)
        ensures
            r@ == api_code(*self),
    {
        match self {
            ApiError::NotFound => "not_found",
            ApiError::QueueFull => "queue_full",
            ApiError::NotCancellable => "not_cancellable",
            ApiError::NotUncertain => "not_uncertain",
            ApiError::Cancelled => "cancelled",
            ApiError::PreviousDeliveryUnknown => "previous_delivery_unknown",
            ApiError::Machine(m) => m.code(),
            ApiError::Internal(_) => "internal",
            ApiError::OutOfOrder => "internal",
        }
    }

    /// The human-readable explanation of the error.
    pub fn message(&self) -> (r: String)
        ensures
            r@ == api_message(*self),
    {
        match self {
            ApiError::NotFound => String::from_str("Unknown transfer"),
            ApiError::QueueFull => String::from_str(
                "The transfer queue is full. Wait for transfers to finish.",
            ),
            ApiError::NotCancellable => String::from_str(
                "Only queued or waiting transfers can be cancelled.",
            ),
            ApiError::NotUncertain => String::from_str("This transfer does not need confirmation."),
            ApiError::Cancelled => String::from_str("Transfer cancelled"),
            ApiError::PreviousDeliveryUnknown => String::from_str(
                "Check and resolve the earlier uncertain transfer on this device first.",
            ),
            ApiError::Machine(m) => m.message(),
            ApiError::Internal(s) => s.clone(),
            ApiError::OutOfOrder => String::from_str("The upload worker received an unexpected step."),
        }
    }
}

impl Clone for ApiError {
    fn clone(&self) -> (r: Self)
        ensures
            r == *self,
    {
        match self {
            ApiError::NotFound => ApiError::NotFound,
            ApiError::QueueFull => ApiError::QueueFull,
            ApiError::NotCancellable => ApiError::NotCancellable,
            ApiError::NotUncertain => ApiError::NotUncertain,
            ApiError::Cancelled => ApiError::Cancelled,
            ApiError::PreviousDeliveryUnknown => ApiError::PreviousDeliveryUnknown,
            ApiError::Machine(m) => ApiError::Machine(m.clone()),
            ApiError::Internal(s) => ApiError::Internal(s.clone()),
            ApiError::OutOfOrder => ApiError::OutOfOrder,
        }
    }
}

} // verus!
