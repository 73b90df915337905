//! A payment-method and transaction ledger.
//!
//! The library stores tokenized payment instruments for users and records
//! charge and refund transactions against orders. Its guarantees are the
//! transactional integrity rules: idempotent charge processing (a retried
//! request never double-charges), at most one default payment method per
//! user however the defaults were set, and an immutable ledger whose refund
//! rows carry their original charge's order, user and payment method.
//!
//! The external payment processor is reached only through the
//! [`gateway::PaymentGateway`] trait, with a mock that decides purely on the
//! amount, so a real adapter can be substituted without touching the
//! orchestration in [`service::PaymentService`].

pub mod errors;
pub mod seq_facts;
pub mod tokenizer;
pub mod repository;
pub mod gateway;
pub mod service;
