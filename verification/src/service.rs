//! The payment orchestrator: charge, refund, enrolment, listing, deletion.
//!
//! `charge` is idempotent under the caller's idempotency key: a key already
//! in the ledger answers from the stored row and writes nothing, so a
//! retried request never double-charges. The replay's success flag says
//! only that the request was already processed; the row's own status
//! carries the outcome. A fresh key asks the gateway and writes exactly
//! one immutable row with the outcome. `refund` re-reads the original
//! charge, asks the gateway, and writes a refund row carrying the
//! original's order, user and payment method; a missing original fails with
//! `NotFound` and writes nothing. A business decline from the gateway is
//! not an error: it comes back as a `false` success flag beside a message.

use vstd::prelude::*;

use crate::errors::PaymentError;
use crate::gateway::{mock_approves, PaymentGateway};
use crate::repository::{
    clear_defaults, default_count, find_tx_by_id, find_tx_by_key, lemma_find_key_push,
    listed_methods, survives_delete, tx_has_key, MethodKind, PaymentMethod, PaymentRepository,
    Transaction, TxKind, TxStatus,
};
use crate::tokenizer::{
    brand_of, detect_card_brand, digest_of, hex_of, last_four, tokenize_card,
};

verus! {

/// What holds of the repository and the returned method after a successful
/// enrolment: the method is stored exactly as derived from the card input,
/// and when it is the new default, it is the user's only default.
pub open spec fn add_written(
    pre: PaymentRepository,
    post: PaymentRepository,
    m: PaymentMethod,
    user_id: u128,
    method_type: MethodKind,
    card_number: Seq<char>,
    exp_month: i32,
    exp_year: i32,
    cvv: Seq<char>,
    is_default: bool,
) -> bool {
    &&& m.id == pre.next_method_id
    &&& m.user_id == user_id
    &&& m.method_type == method_type
    &&& m.token@ == hex_of(digest_of(card_number, cvv))
    &&& m.last_four@ == card_number.subrange(card_number.len() - 4, card_number.len() as int)
    &&& m.brand@ == brand_of(card_number)
    &&& m.exp_month == exp_month
    &&& m.exp_year == exp_year
    &&& m.is_default == is_default
    &&& m.created_at == pre.clock
    &&& post.methods@ == (if is_default {
        clear_defaults(pre.methods@, user_id)
    } else {
        pre.methods@
    }).push(m)
    &&& post.transactions@ == pre.transactions@
    &&& post.next_method_id == pre.next_method_id + 1
    &&& post.next_transaction_id == pre.next_transaction_id
    &&& post.clock == pre.clock + 1
    &&& is_default ==> default_count(post.methods@, user_id) == 1
    &&& !is_default ==> forall|u: u128|
        default_count(post.methods@, u) == default_count(pre.methods@, u)
    &&& forall|u: u128|
        u != user_id ==> default_count(post.methods@, u) == default_count(pre.methods@, u)
}

/// What holds of the ledger and the returned triple after a charge on a
/// fresh idempotency key: exactly one new row, carrying the key, the
/// gateway's outcome as its status, and afterwards the key looks up that
/// row.
pub open spec fn charge_written(
    pre: PaymentRepository,
    post: PaymentRepository,
    out: (bool, Transaction, Option<String>),
    order_id: u128,
    user_id: u128,
    payment_method_id: u128,
    amount_cents: i64,
    currency: Seq<char>,
    key: Seq<char>,
) -> bool {
    let t = out.1;
    &&& t.id == pre.next_transaction_id
    &&& t.order_id == order_id
    &&& t.user_id == user_id
    &&& t.payment_method_id == Some(payment_method_id)
    &&& t.amount_cents == amount_cents
    &&& t.currency@ == currency
    &&& t.status == (if out.0 {
        TxStatus::Succeeded
    } else {
        TxStatus::Failed
    })
    &&& t.transaction_type == TxKind::Charge
    &&& t.provider_ref is Some
    &&& tx_has_key(t, key)
    &&& t.created_at == pre.clock
    &&& (out.2 is Some <==> !out.0)
    &&& !out.0 ==> out.2->0@ == "Mock payment failure"@
    &&& post.transactions@ == pre.transactions@.push(t)
    &&& post.methods@ == pre.methods@
    &&& post.next_transaction_id == pre.next_transaction_id + 1
    &&& post.next_method_id == pre.next_method_id
    &&& post.clock == pre.clock + 1
    &&& find_tx_by_key(post.transactions@, key) == Some(t)
}

/// What holds of the ledger and the returned triple after a refund of the
/// stored charge `orig`: exactly one new refund row, inheriting the
/// original's order, user, payment method and currency, with no idempotency
/// key of its own.
pub open spec fn refund_written(
    pre: PaymentRepository,
    post: PaymentRepository,
    out: (bool, Transaction, Option<String>),
    orig: Transaction,
    amount_cents: i64,
) -> bool {
    let t = out.1;
    &&& t.id == pre.next_transaction_id
    &&& t.order_id == orig.order_id
    &&& t.user_id == orig.user_id
    &&& t.payment_method_id == orig.payment_method_id
    &&& t.amount_cents == amount_cents
    &&& t.currency@ == orig.currency@
    &&& t.status == (if out.0 {
        TxStatus::Refunded
    } else {
        TxStatus::Failed
    })
    &&& t.transaction_type == TxKind::Refund
    &&& t.provider_ref is Some
    &&& t.idempotency_key is None
    &&& t.created_at == pre.clock
    &&& (out.2 is Some <==> !out.0)
    &&& !out.0 ==> out.2->0@ == "Mock refund failure"@
    &&& post.transactions@ == pre.transactions@.push(t)
    &&& post.methods@ == pre.methods@
    &&& post.next_transaction_id == pre.next_transaction_id + 1
    &&& post.next_method_id == pre.next_method_id
    &&& post.clock == pre.clock + 1
}

/// The orchestrator: owns the repository and a gateway, and composes them
/// into the enrolment, charge, refund, listing and deletion use cases.
pub struct PaymentService<G: PaymentGateway> {
    pub repo: PaymentRepository,
    pub gateway: G,
}

impl<G: PaymentGateway> PaymentService<G> {
    /// The repository invariant, carried through every operation.
    pub open spec fn inv(self) -> bool {
        self.repo.inv()
    }

    /// Room in the repository's counters for one more row.
    pub open spec fn can_insert(self) -> bool {
        self.repo.can_insert()
    }

    /// A service over the given storage and gateway.
    pub fn new(repo: PaymentRepository, gateway: G) -> (s: Self)
        ensures
            s.repo == repo,
            s.gateway == gateway,
    {
        PaymentService { repo, gateway }
    }

    /// Enrols a payment method: tokenizes the card, derives the trailing
    /// digits and the brand, and stores the method; a card number shorter
    /// than four characters is rejected with `InvalidArgument` and nothing
    /// is stored. The raw card number and verification code are not kept.
    pub fn add_payment_method(
        &mut self,
        user_id: u128,
        method_type: MethodKind,
        card_number: &str,
        exp_month: i32,
        exp_year: i32,
        cvv: &str,
        is_default: bool,
    ) -> (r: Result<PaymentMethod, PaymentError>)
        requires
            old(self).inv(),
            old(self).can_insert(),
        ensures
            final(self).inv(),
            final(self).gateway == old(self).gateway,
            card_number@.len() < 4 ==> r == Err::<PaymentMethod, PaymentError>(
                PaymentError::InvalidArgument,
            ) && final(self).repo == old(self).repo,
            card_number@.len() >= 4 ==> (r matches Ok(m) && add_written(
                old(self).repo,
                final(self).repo,
                m,
                user_id,
                method_type,
                card_number@,
                exp_month,
                exp_year,
                cvv@,
                is_default,
            )),
    {
        let digits = match last_four(card_number) {
            Ok(s) => s,
            Err(e) => {
                return Err(e);
            },
        };
        let token = tokenize_card(card_number, cvv);
        let brand = detect_card_brand(card_number);
        let m = self.repo.add_payment_method(
            user_id,
            method_type,
            token,
            digits,
            brand,
            exp_month,
            exp_year,
            is_default,
        );
        Ok(m)
    }

    /// The user's payment methods, the default first, then the remaining
    /// methods newest-first. Read-only.
    pub fn list_payment_methods(&self, user_id: u128) -> (r: Result<
        Vec<PaymentMethod>,
        PaymentError,
    >)
        ensures
            r matches Ok(v) && v@ == listed_methods(self.repo.methods@, user_id),
    {
        Ok(self.repo.list_payment_methods(user_id))
    }

    /// Deletes the payment method `id` if `user_id` owns it; a wrong id or a
    /// wrong owner deletes nothing and still succeeds (the idempotent-delete
    /// style: absence is the goal state, not an error).
    pub fn delete_payment_method(&mut self, id: u128, user_id: u128) -> (r: Result<
        (),
        PaymentError,
    >)
        requires
            old(self).inv(),
        ensures
            final(self).inv(),
            final(self).gateway == old(self).gateway,
            r is Ok,
            final(self).repo.methods@ == old(self).repo.methods@.filter(
                survives_delete(id, user_id),
            ),
            final(self).repo.transactions@ == old(self).repo.transactions@,
            final(self).repo.next_method_id == old(self).repo.next_method_id,
            final(self).repo.next_transaction_id == old(self).repo.next_transaction_id,
            final(self).repo.clock == old(self).repo.clock,
    {
        self.repo.delete_payment_method(id, user_id);
        Ok(())
    }

    /// Charges an order. A key already in the ledger replays: the stored
    /// row comes back, reported successful, and nothing is written — so a
    /// retried request never creates a second row. A fresh key asks the
    /// gateway and writes one row with its outcome; the gateway's decline is
    /// reported as a `false` flag beside a message, not as an error. A
    /// negative amount is rejected with `InvalidArgument` before anything
    /// happens.
    pub fn charge(
        &mut self,
        order_id: u128,
        user_id: u128,
        payment_method_id: u128,
        amount_cents: i64,
        currency: &str,
        idempotency_key: &str,
    ) -> (r: Result<(bool, Transaction, Option<String>), PaymentError>)
        requires
            old(self).inv(),
            old(self).can_insert(),
        ensures
            final(self).inv(),
            final(self).gateway == old(self).gateway,
            find_tx_by_key(old(self).repo.transactions@, idempotency_key@) matches Some(t0) ==> r
                == Ok::<(bool, Transaction, Option<String>), PaymentError>((true, t0, None))
                && final(self).repo == old(self).repo,
            find_tx_by_key(old(self).repo.transactions@, idempotency_key@) is None && amount_cents
                < 0 ==> r == Err::<(bool, Transaction, Option<String>), PaymentError>(
                PaymentError::InvalidArgument,
            ) && final(self).repo == old(self).repo,
            find_tx_by_key(old(self).repo.transactions@, idempotency_key@) is None && amount_cents
                >= 0 ==> (r matches Ok(out) && charge_written(
                old(self).repo,
                final(self).repo,
                out,
                order_id,
                user_id,
                payment_method_id,
                amount_cents,
                currency@,
                idempotency_key@,
            ) && old(self).gateway.charge_spec(
                amount_cents,
                (out.0, out.1.provider_ref->0@),
            )),
    {
        if let Some(existing) = self.repo.check_idempotency(idempotency_key) {
            return Ok((true, existing, None));
        }
        if amount_cents < 0 {
            return Err(PaymentError::InvalidArgument);
        }
        let (success, provider_ref) = self.gateway.charge(amount_cents);
        let status = if success {
            TxStatus::Succeeded
        } else {
            TxStatus::Failed
        };
        let error_message = if success {
            None
        } else {
            Some("Mock payment failure".to_owned())
        };
        let key_owned: String = idempotency_key.to_owned();
        let ghost pre_txs = self.repo.transactions@;
        match self.repo.create_transaction(
            order_id,
            user_id,
            Some(payment_method_id),
            amount_cents,
            currency,
            status,
            TxKind::Charge,
            Some(provider_ref),
            Some(key_owned),
        ) {
            Ok(t) => {
                proof {
                    lemma_find_key_push(pre_txs, idempotency_key@, t);
                }
                Ok((success, t, error_message))
            },
            Err(_) => {
                // The key was checked fresh and nothing ran in between, so
                // the uniqueness constraint cannot have fired.
                proof {
                    assert(false);
                }
                Err(PaymentError::Internal)
            },
        }
    }

    /// Refunds a stored charge. A missing transaction id fails with
    /// `NotFound` and writes nothing; otherwise one refund row is written,
    /// inheriting the original's order, user, payment method and currency.
    /// A negative amount is rejected with `InvalidArgument`. The gateway's
    /// decline is a `false` flag beside a message, not an error.
    pub fn refund(&mut self, transaction_id: u128, amount_cents: i64, _reason: &str) -> (r: Result<
        (bool, Transaction, Option<String>),
        PaymentError,
    >)
        requires
            old(self).inv(),
            old(self).can_insert(),
        ensures
            final(self).inv(),
            final(self).gateway == old(self).gateway,
            find_tx_by_id(old(self).repo.transactions@, transaction_id) is None ==> r == Err::<
                (bool, Transaction, Option<String>),
                PaymentError,
            >(PaymentError::NotFound) && final(self).repo == old(self).repo,
            find_tx_by_id(old(self).repo.transactions@, transaction_id) is Some && amount_cents < 0
                ==> r == Err::<(bool, Transaction, Option<String>), PaymentError>(
                PaymentError::InvalidArgument,
            ) && final(self).repo == old(self).repo,
            find_tx_by_id(old(self).repo.transactions@, transaction_id) matches Some(orig) ==> (
            amount_cents >= 0 ==> (r matches Ok(out) && refund_written(
                old(self).repo,
                final(self).repo,
                out,
                orig,
                amount_cents,
            ) && old(self).gateway.refund_spec(
                amount_cents,
                (out.0, out.1.provider_ref->0@),
            ))),
    {
        let original = match self.repo.get_transaction(transaction_id) {
            Some(t) => t,
            None => {
                return Err(PaymentError::NotFound);
            },
        };
        if amount_cents < 0 {
            return Err(PaymentError::InvalidArgument);
        }
        let (success, provider_ref) = self.gateway.refund(amount_cents);
        let status = if success {
            TxStatus::Refunded
        } else {
            TxStatus::Failed
        };
        let error_message = if success {
            None
        } else {
            Some("Mock refund failure".to_owned())
        };
        match self.repo.create_transaction(
            original.order_id,
            original.user_id,
            original.payment_method_id,
            amount_cents,
            original.currency.as_str(),
            status,
            TxKind::Refund,
            Some(provider_ref),
            None,
        ) {
            Ok(t) => Ok((success, t, error_message)),
            Err(_) => {
                // The amount was checked and a refund row carries no
                // idempotency key, so the insert cannot have been refused.
                proof {
                    assert(false);
                }
                Err(PaymentError::Internal)
            },
        }
    }

    /// The transaction with the given id, if any. Read-only pass-through.
    pub fn get_transaction(&self, id: u128) -> (r: Result<Option<Transaction>, PaymentError>)
        ensures
            r == Ok::<Option<Transaction>, PaymentError>(
                find_tx_by_id(self.repo.transactions@, id),
            ),
    {
        Ok(self.repo.get_transaction(id))
    }
}

/// The mock gateway's threshold, composed with the orchestrator's charge
/// contract: where the gateway outcome obeys `MockGateway`'s rule (approve
/// exactly the amounts below 100 000) and the charge was written for it, an
/// amount below the threshold ends `Succeeded` with no message, and one at
/// or above it ends `Failed` beside a message — and either way the decline
/// is a written row, not an error. With the mock in place both premises
/// come straight out of `PaymentService::charge`'s fresh-key ensures: the
/// first is the flag half of the mock's `charge_spec`, the second is the
/// `charge_written` conjunct.
pub proof fn lemma_mock_charge_threshold(
    pre: PaymentRepository,
    post: PaymentRepository,
    out: (bool, Transaction, Option<String>),
    order_id: u128,
    user_id: u128,
    payment_method_id: u128,
    amount_cents: i64,
    currency: Seq<char>,
    key: Seq<char>,
)
    requires
        out.0 == mock_approves(amount_cents),
        charge_written(
            pre,
            post,
            out,
            order_id,
            user_id,
            payment_method_id,
            amount_cents,
            currency,
            key,
        ),
    ensures
        amount_cents < 100_000 ==> out.0 && out.1.status == TxStatus::Succeeded && out.2 is None,
        amount_cents >= 100_000 ==> !out.0 && out.1.status == TxStatus::Failed && out.2 is Some,
        post.transactions@ == pre.transactions@.push(out.1),
{
}

/// The mock gateway's refund rule, composed with the orchestrator's refund
/// contract: the mock approves every refund, so a refund written for its
/// outcome always ends `Refunded` with no message. With the mock in place
/// both premises come straight out of `PaymentService::refund`'s ensures:
/// the first from the mock's `refund_spec`, the second from the
/// `refund_written` conjunct.
pub proof fn lemma_mock_refund_succeeds(
    pre: PaymentRepository,
    post: PaymentRepository,
    out: (bool, Transaction, Option<String>),
    orig: Transaction,
    amount_cents: i64,
)
    requires
        out.0,
        refund_written(pre, post, out, orig, amount_cents),
    ensures
        out.1.status == TxStatus::Refunded,
        out.2 is None,
        post.transactions@ == pre.transactions@.push(out.1),
{
}

} // verus!
