//! Closed error taxonomy for the payment library.
//!
//! `InvalidArgument` marks malformed or out-of-range inputs, `NotFound` a
//! transaction lookup miss, and `Internal` a storage-layer failure that no
//! caller can repair. Business declines from the gateway are not errors:
//! they travel as a `false` success flag beside a message.

use vstd::prelude::*;

verus! {

/// Error returned by the storage layer (the repository).
#[derive(Clone, Copy, Debug, PartialEq, Eq, Structural)]
pub enum StoreError {
    /// A malformed input, such as a negative amount.
    InvalidArgument,
    /// A uniqueness constraint was violated, such as inserting a second
    /// transaction with an idempotency key that is already present.
    ConstraintViolation,
}

/// Error returned by the orchestrating payment service.
#[derive(Clone, Copy, Debug, PartialEq, Eq, Structural)]
pub enum PaymentError {
    /// A malformed input, such as a negative amount or a card number that is
    /// too short to carry four trailing digits.
    InvalidArgument,
    /// The referenced transaction does not exist.
    NotFound,
    /// A storage failure the service could not recover from.
    Internal,
}

} // verus!
