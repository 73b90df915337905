//! The payment gateway: the external processor that decides a charge.
//!
//! The orchestrator speaks to it only through the `PaymentGateway` trait —
//! amount in, success flag and provider reference out, and a business
//! decline is an ordinary `false`, never an error — so a real
//! payment-network adapter can replace the mock without the orchestrator
//! changing. Each implementation says what it guarantees of an outcome
//! through the trait's spec hooks, so those guarantees survive the trait
//! boundary: with the mock in place, a caller of the orchestrator can prove
//! the threshold rule (charges below 100 000 minor units succeed, the rest
//! are declined; refunds always succeed).

use vstd::prelude::*;

verus! {

/// An external payment processor. `charge_spec` and `refund_spec` say what
/// the implementation guarantees of an outcome — its flag and the view of
/// its reference — and each call ensures its own spec hook, so what a
/// concrete processor promises is visible through the trait.
pub trait PaymentGateway {
    /// What this processor guarantees of a charge outcome.
    spec fn charge_spec(&self, amount_cents: i64, r: (bool, Seq<char>)) -> bool;

    /// What this processor guarantees of a refund outcome.
    spec fn refund_spec(&self, amount_cents: i64, r: (bool, Seq<char>)) -> bool;

    /// Submits a charge of `amount_cents` minor units. Returns whether the
    /// processor accepted it, and the provider's reference for the attempt.
    fn charge(&self, amount_cents: i64) -> (r: (bool, String))
        ensures
            self.charge_spec(amount_cents, (r.0, r.1@)),
    ;

    /// Submits a refund of `amount_cents` minor units. Returns whether the
    /// processor accepted it, and the provider's reference for the attempt.
    fn refund(&self, amount_cents: i64) -> (r: (bool, String))
        ensures
            self.refund_spec(amount_cents, (r.0, r.1@)),
    ;
}

/// The mock's decision rule for a charge: approve exactly the amounts below
/// 100 000 minor units.
pub open spec fn mock_approves(amount_cents: i64) -> bool {
    amount_cents < 100_000
}

/// The shape of every reference the mock mints: the given prefix followed by
/// 36 characters of freshly generated identifier. Which identifier follows
/// the prefix is random, so no more can be said of it.
pub open spec fn mock_reference(r: Seq<char>, prefix: Seq<char>) -> bool {
    &&& r.len() == prefix.len() + 36
    &&& r.subrange(0, prefix.len() as int) == prefix
}

/// Relies on uuid::Uuid::new_v4 and its Display form: a freshly generated
/// random identifier, written as 36 hyphenated lowercase hexadecimal
/// characters after the given prefix, which the formatting keeps intact.
/// Which identifier comes back is random, so nothing is stated beyond the
/// shape.
#[verifier::external_body]
fn fresh_reference(prefix: &str) -> (r: String)
    ensures
        r@.len() == prefix@.len() + 36,
        r@.subrange(0, prefix@.len() as int) == prefix@,
{
    format!("{}{}", prefix, uuid::Uuid::new_v4())
}

/// The stand-in processor: approves a charge exactly when the amount is
/// below 100 000 minor units, approves every refund, and mints a fresh
/// opaque reference for each attempt.
pub struct MockGateway {}

impl PaymentGateway for MockGateway {
    open spec fn charge_spec(&self, amount_cents: i64, r: (bool, Seq<char>)) -> bool {
        &&& r.0 == mock_approves(amount_cents)
        &&& mock_reference(r.1, "mock_charge_"@)
    }

    open spec fn refund_spec(&self, amount_cents: i64, r: (bool, Seq<char>)) -> bool {
        &&& r.0
        &&& mock_reference(r.1, "mock_refund_"@)
    }

    fn charge(&self, amount_cents: i64) -> (r: (bool, String)) {
        let success = amount_cents < 100_000;
        let provider_ref = fresh_reference("mock_charge_");
        (success, provider_ref)
    }

    fn refund(&self, _amount_cents: i64) -> (r: (bool, String)) {
        let provider_ref = fresh_reference("mock_refund_");
        (true, provider_ref)
    }
}

} // verus!
