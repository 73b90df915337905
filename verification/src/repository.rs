//! The payment repository: payment methods and the transaction ledger.
//!
//! Rows are immutable once written, except the default flag of a payment
//! method, which `add_payment_method` clears atomically when a new default
//! arrives. The repository enforces, as an invariant over its state: unique
//! row identifiers, at most one default payment method per user, unique
//! idempotency keys, and creation stamps that grow strictly with insertion
//! order.

use vstd::prelude::*;

use crate::errors::StoreError;
use crate::seq_facts::{
    lemma_filter_at_most_one, lemma_filter_congruent, lemma_filter_no_match, lemma_filter_pairwise,
    lemma_filter_props, lemma_filter_push, lemma_matches_desc_at_most_one,
    lemma_matches_desc_props, lemma_matches_desc_sorted, matches_desc,
};

verus! {

/// The kind of a stored payment instrument.
#[derive(Clone, Copy, Debug, PartialEq, Eq, Structural)]
pub enum MethodKind {
    Card,
    Bank,
}

/// The outcome recorded on a transaction row. Charges end `Succeeded` or
/// `Failed`; refunds end `Refunded` or `Failed`. No row changes status after
/// creation: a new attempt writes a new row.
#[derive(Clone, Copy, Debug, PartialEq, Eq, Structural)]
pub enum TxStatus {
    Pending,
    Succeeded,
    Failed,
    Refunded,
}

/// Whether a transaction row records a charge or a refund.
#[derive(Clone, Copy, Debug, PartialEq, Eq, Structural)]
pub enum TxKind {
    Charge,
    Refund,
}

/// A tokenized payment instrument owned by one user. The raw card number is
/// never stored: `token` carries its one-way fingerprint, `last_four` and
/// `brand` what a display needs.
#[derive(Debug)]
pub struct PaymentMethod {
    pub id: u128,
    pub user_id: u128,
    pub method_type: MethodKind,
    pub token: String,
    pub last_four: String,
    pub brand: String,
    pub exp_month: i32,
    pub exp_year: i32,
    pub is_default: bool,
    pub created_at: u64,
}

impl Clone for PaymentMethod {
    fn clone(&self) -> (r: Self)
        ensures
            r == *self,
    {
        PaymentMethod {
            id: self.id,
            user_id: self.user_id,
            method_type: self.method_type,
            token: self.token.clone(),
            last_four: self.last_four.clone(),
            brand: self.brand.clone(),
            exp_month: self.exp_month,
            exp_year: self.exp_year,
            is_default: self.is_default,
            created_at: self.created_at,
        }
    }
}

/// One immutable ledger row: a charge or a refund against an order. A
/// refund row carries the original charge's order, user and payment method;
/// `amount_cents` is in minor currency units and never negative.
#[derive(Debug)]
pub struct Transaction {
    pub id: u128,
    pub order_id: u128,
    pub user_id: u128,
    pub payment_method_id: Option<u128>,
    pub amount_cents: i64,
    pub currency: String,
    pub status: TxStatus,
    pub transaction_type: TxKind,
    pub provider_ref: Option<String>,
    pub idempotency_key: Option<String>,
    pub created_at: u64,
}

impl Clone for Transaction {
    fn clone(&self) -> (r: Self)
        ensures
            r == *self,
    {
        Transaction {
            id: self.id,
            order_id: self.order_id,
            user_id: self.user_id,
            payment_method_id: self.payment_method_id,
            amount_cents: self.amount_cents,
            currency: self.currency.clone(),
            status: self.status,
            transaction_type: self.transaction_type,
            provider_ref: match &self.provider_ref {
                Some(s) => Some(s.clone()),
                None => None,
            },
            idempotency_key: match &self.idempotency_key {
                Some(s) => Some(s.clone()),
                None => None,
            },
            created_at: self.created_at,
        }
    }
}

/// Whether a payment method is the default instrument of the given user.
pub open spec fn is_default_of(u: u128) -> spec_fn(PaymentMethod) -> bool {
    |m: PaymentMethod| m.user_id == u && m.is_default
}

/// Whether a payment method belongs to the given user without being its
/// default.
pub open spec fn is_non_default_of(u: u128) -> spec_fn(PaymentMethod) -> bool {
    |m: PaymentMethod| m.user_id == u && !m.is_default
}

/// How many payment methods in `s` are marked default for user `u`.
pub open spec fn default_count(s: Seq<PaymentMethod>, u: u128) -> nat {
    s.filter(is_default_of(u)).len()
}

/// `s` with the default flag cleared on every method of user `u`; all other
/// rows and fields are untouched.
pub open spec fn clear_defaults(s: Seq<PaymentMethod>, u: u128) -> Seq<PaymentMethod> {
    s.map(
        |i: int, m: PaymentMethod|
            if m.user_id == u {
                PaymentMethod { is_default: false, ..m }
            } else {
                m
            },
    )
}

/// The methods of user `u` as a listing returns them: the default first,
/// then the remaining methods newest-first.
pub open spec fn listed_methods(s: Seq<PaymentMethod>, u: u128) -> Seq<PaymentMethod> {
    matches_desc(s, is_default_of(u)) + matches_desc(s, is_non_default_of(u))
}

/// Whether the transaction carries `k` as its idempotency key.
pub open spec fn tx_has_key(t: Transaction, k: Seq<char>) -> bool {
    t.idempotency_key matches Some(s) && s@ == k
}

/// The first transaction in `s` whose id is `id`, if any.
pub open spec fn find_tx_by_id(s: Seq<Transaction>, id: u128) -> Option<Transaction>
    decreases s.len(),
{
    if s.len() == 0 {
        None
    } else if s[0].id == id {
        Some(s[0])
    } else {
        find_tx_by_id(s.drop_first(), id)
    }
}

/// The first transaction in `s` whose idempotency key is `k`, if any.
pub open spec fn find_tx_by_key(s: Seq<Transaction>, k: Seq<char>) -> Option<Transaction>
    decreases s.len(),
{
    if s.len() == 0 {
        None
    } else if tx_has_key(s[0], k) {
        Some(s[0])
    } else {
        find_tx_by_key(s.drop_first(), k)
    }
}

/// Whether a row survives `delete_payment_method(id, user_id)`: it does
/// unless both the id and the owner match.
pub open spec fn survives_delete(id: u128, user_id: u128) -> spec_fn(PaymentMethod) -> bool {
    |m: PaymentMethod| !(m.id == id && m.user_id == user_id)
}

/// Whether inserting a row with this idempotency key would collide with a
/// key already in the ledger.
pub open spec fn key_conflicts(s: Seq<Transaction>, key: Option<String>) -> bool {
    key matches Some(k) && find_tx_by_key(s, k@) is Some
}

/// A sequence with no transaction carrying key `k` is searched in vain, and
/// the other way round.
pub proof fn lemma_find_key_none(s: Seq<Transaction>, k: Seq<char>)
    ensures
        (find_tx_by_key(s, k) is None) <==> (forall|i: int|
            0 <= i < s.len() ==> !tx_has_key(#[trigger] s[i], k)),
    decreases s.len(),
{
    if s.len() > 0 {
        let df = s.drop_first();
        lemma_find_key_none(df, k);
        assert(forall|i: int| 0 <= i < df.len() ==> #[trigger] df[i] == s[i + 1]);
        if find_tx_by_key(s, k) is None {
            assert forall|i: int| 0 <= i < s.len() implies !tx_has_key(#[trigger] s[i], k) by {
                if i > 0 {
                    assert(!tx_has_key(df[i - 1], k));
                }
            }
        } else {
            if !tx_has_key(s[0], k) {
                assert(exists|i: int| 0 <= i < df.len() && tx_has_key(#[trigger] df[i], k));
                let w = choose|i: int| 0 <= i < df.len() && tx_has_key(#[trigger] df[i], k);
                assert(tx_has_key(s[w + 1], k));
            }
        }
    }
}

/// The search by key returns the first matching transaction.
pub proof fn lemma_find_key_first(s: Seq<Transaction>, k: Seq<char>, j: int)
    requires
        0 <= j < s.len(),
        tx_has_key(s[j], k),
        forall|i: int| 0 <= i < j ==> !tx_has_key(#[trigger] s[i], k),
    ensures
        find_tx_by_key(s, k) == Some(s[j]),
    decreases j,
{
    if j > 0 {
        assert(forall|i: int|
            0 <= i < s.drop_first().len() ==> #[trigger] s.drop_first()[i] == s[i + 1]);
        lemma_find_key_first(s.drop_first(), k, j - 1);
    }
}

/// Appending a transaction with a key that was absent makes it the one the
/// search by that key finds.
pub proof fn lemma_find_key_push(s: Seq<Transaction>, k: Seq<char>, t: Transaction)
    requires
        find_tx_by_key(s, k) is None,
        tx_has_key(t, k),
    ensures
        find_tx_by_key(s.push(t), k) == Some(t),
{
    lemma_find_key_none(s, k);
    assert(forall|i: int| 0 <= i < s.len() ==> #[trigger] s.push(t)[i] == s[i]);
    assert(s.push(t)[s.len() as int] == t);
    lemma_find_key_first(s.push(t), k, s.len() as int);
}

/// A sequence with no transaction of id `id` is searched in vain, and the
/// other way round.
pub proof fn lemma_find_id_none(s: Seq<Transaction>, id: u128)
    ensures
        (find_tx_by_id(s, id) is None) <==> (forall|i: int|
            0 <= i < s.len() ==> (#[trigger] s[i]).id != id),
    decreases s.len(),
{
    if s.len() > 0 {
        let df = s.drop_first();
        lemma_find_id_none(df, id);
        assert(forall|i: int| 0 <= i < df.len() ==> #[trigger] df[i] == s[i + 1]);
        if find_tx_by_id(s, id) is None {
            assert forall|i: int| 0 <= i < s.len() implies (#[trigger] s[i]).id != id by {
                if i > 0 {
                    assert(df[i - 1].id != id);
                }
            }
        } else {
            if s[0].id != id {
                assert(exists|i: int| 0 <= i < df.len() && (#[trigger] df[i]).id == id);
                let w = choose|i: int| 0 <= i < df.len() && (#[trigger] df[i]).id == id;
                assert(s[w + 1].id == id);
            }
        }
    }
}

/// The search by id returns the first matching transaction.
pub proof fn lemma_find_id_first(s: Seq<Transaction>, id: u128, j: int)
    requires
        0 <= j < s.len(),
        s[j].id == id,
        forall|i: int| 0 <= i < j ==> (#[trigger] s[i]).id != id,
    ensures
        find_tx_by_id(s, id) == Some(s[j]),
    decreases j,
{
    if j > 0 {
        assert(forall|i: int|
            0 <= i < s.drop_first().len() ==> #[trigger] s.drop_first()[i] == s[i + 1]);
        lemma_find_id_first(s.drop_first(), id, j - 1);
    }
}

/// No two payment methods share an id.
pub open spec fn method_ids_unique(s: Seq<PaymentMethod>) -> bool {
    forall|i: int, j: int|
        0 <= i < j < s.len() ==> (#[trigger] s[i]).id != (#[trigger] s[j]).id
}

/// No user has two payment methods marked default.
pub open spec fn single_default_per_user(s: Seq<PaymentMethod>) -> bool {
    forall|i: int, j: int|
        0 <= i < j < s.len() ==> !((#[trigger] s[i]).is_default && (#[trigger] s[j]).is_default
            && s[i].user_id == s[j].user_id)
}

/// Creation stamps grow strictly with position.
pub open spec fn methods_created_ascending(s: Seq<PaymentMethod>) -> bool {
    forall|i: int, j: int|
        0 <= i < j < s.len() ==> (#[trigger] s[i]).created_at < (#[trigger] s[j]).created_at
}

/// No two transactions share an id.
pub open spec fn tx_ids_unique(s: Seq<Transaction>) -> bool {
    forall|i: int, j: int|
        0 <= i < j < s.len() ==> (#[trigger] s[i]).id != (#[trigger] s[j]).id
}

/// No two transactions carry the same idempotency key.
pub open spec fn tx_keys_unique(s: Seq<Transaction>) -> bool {
    forall|i: int, j: int|
        0 <= i < j < s.len() ==> !((#[trigger] s[i]).idempotency_key is Some
            && (#[trigger] s[j]).idempotency_key is Some && s[i].idempotency_key->0@
            == s[j].idempotency_key->0@)
}

/// Creation stamps grow strictly with position.
pub open spec fn tx_created_ascending(s: Seq<Transaction>) -> bool {
    forall|i: int, j: int|
        0 <= i < j < s.len() ==> (#[trigger] s[i]).created_at < (#[trigger] s[j]).created_at
}

/// In-memory storage for payment methods and the transaction ledger. It
/// assigns row identifiers and creation stamps itself, from counters that
/// only grow, so rows are totally ordered by age.
pub struct PaymentRepository {
    pub methods: Vec<PaymentMethod>,
    pub transactions: Vec<Transaction>,
    pub next_method_id: u128,
    pub next_transaction_id: u128,
    pub clock: u64,
}

impl PaymentRepository {
    /// Everything the repository guarantees of its state between calls.
    pub open spec fn inv(self) -> bool {
        &&& method_ids_unique(self.methods@)
        &&& single_default_per_user(self.methods@)
        &&& methods_created_ascending(self.methods@)
        &&& forall|i: int|
            0 <= i < self.methods@.len() ==> (#[trigger] self.methods@[i]).id
                < self.next_method_id
        &&& forall|i: int|
            0 <= i < self.methods@.len() ==> (#[trigger] self.methods@[i]).created_at < self.clock
        &&& tx_ids_unique(self.transactions@)
        &&& tx_keys_unique(self.transactions@)
        &&& tx_created_ascending(self.transactions@)
        &&& forall|i: int|
            0 <= i < self.transactions@.len() ==> (#[trigger] self.transactions@[i]).id
                < self.next_transaction_id
        &&& forall|i: int|
            0 <= i < self.transactions@.len() ==> (#[trigger] self.transactions@[i]).created_at
                < self.clock
    }

    /// The id and stamp counters have room for one more row.
    pub open spec fn can_insert(self) -> bool {
        &&& self.next_method_id < u128::MAX
        &&& self.next_transaction_id < u128::MAX
        &&& self.clock < u64::MAX
    }

    /// An empty repository.
    pub fn new() -> (r: Self)
        ensures
            r.inv(),
            r.can_insert(),
            r.methods@ == Seq::<PaymentMethod>::empty(),
            r.transactions@ == Seq::<Transaction>::empty(),
            r.next_method_id == 0,
            r.next_transaction_id == 0,
            r.clock == 0,
    {
        let r = PaymentRepository {
            methods: Vec::new(),
            transactions: Vec::new(),
            next_method_id: 0,
            next_transaction_id: 0,
            clock: 0,
        };
        proof {
            assert(r.methods@ =~= Seq::<PaymentMethod>::empty());
            assert(r.transactions@ =~= Seq::<Transaction>::empty());
        }
        r
    }

    /// Enrols a payment method. When the new method is to be the default,
    /// the default flag is first cleared on all of the user's existing
    /// methods, within this one call, so that at no point two rows of one
    /// user are default: afterwards the user has exactly one default. Other
    /// users' rows are untouched.
    pub fn add_payment_method(
        &mut self,
        user_id: u128,
        method_type: MethodKind,
        token: String,
        last_four: String,
        brand: String,
        exp_month: i32,
        exp_year: i32,
        is_default: bool,
    ) -> (m: PaymentMethod)
        requires
            old(self).inv(),
            old(self).can_insert(),
        ensures
            final(self).inv(),
            m.id == old(self).next_method_id,
            m.user_id == user_id,
            m.method_type == method_type,
            m.token == token,
            m.last_four == last_four,
            m.brand == brand,
            m.exp_month == exp_month,
            m.exp_year == exp_year,
            m.is_default == is_default,
            m.created_at == old(self).clock,
            final(self).methods@ == (if is_default {
                clear_defaults(old(self).methods@, user_id)
            } else {
                old(self).methods@
            }).push(m),
            final(self).transactions@ == old(self).transactions@,
            final(self).next_method_id == old(self).next_method_id + 1,
            final(self).next_transaction_id == old(self).next_transaction_id,
            final(self).clock == old(self).clock + 1,
            is_default ==> default_count(final(self).methods@, user_id) == 1,
            !is_default ==> forall|u: u128|
                default_count(final(self).methods@, u) == default_count(old(self).methods@, u),
            forall|u: u128|
                u != user_id ==> default_count(final(self).methods@, u) == default_count(
                    old(self).methods@,
                    u,
                ),
    {
        let ghost pre = old(self).methods@;
        if is_default {
            let n = self.methods.len();
            let mut cleared: Vec<PaymentMethod> = Vec::new();
            let mut i: usize = 0;
            while i < n
                invariant
                    *self == *old(self),
                    n == self.methods@.len(),
                    i <= n,
                    cleared@ == clear_defaults(self.methods@.subrange(0, i as int), user_id),
                decreases n - i,
            {
                let mut entry = (&self.methods[i]).clone();
                if entry.user_id == user_id {
                    entry.is_default = false;
                }
                cleared.push(entry);
                proof {
                    assert(cleared@ =~= clear_defaults(
                        self.methods@.subrange(0, i as int + 1),
                        user_id,
                    ));
                }
                i += 1;
            }
            proof {
                assert(self.methods@.subrange(0, n as int) =~= self.methods@);
            }
            self.methods = cleared;
        }
        let m = PaymentMethod {
            id: self.next_method_id,
            user_id,
            method_type,
            token,
            last_four,
            brand,
            exp_month,
            exp_year,
            is_default,
            created_at: self.clock,
        };
        let stored = m.clone();
        self.methods.push(stored);
        self.next_method_id = self.next_method_id + 1;
        self.clock = self.clock + 1;
        proof {
            let u = user_id;
            let base = if is_default {
                clear_defaults(pre, u)
            } else {
                pre
            };
            let post = base.push(m);
            assert(self.methods@ == post);
            assert forall|k: int| 0 <= k < base.len() implies (#[trigger] base[k]).id == pre[k].id
                && base[k].created_at == pre[k].created_at && base[k].user_id == pre[k].user_id
                && (base[k].is_default ==> pre[k].is_default) && (is_default && base[k].is_default
                ==> pre[k].user_id != u) by {
                if is_default {
                    assert(base[k] == if pre[k].user_id == u {
                        PaymentMethod { is_default: false, ..pre[k] }
                    } else {
                        pre[k]
                    });
                }
            }
            assert forall|k: int| 0 <= k < post.len() - 1 implies #[trigger] post[k] == base[k] by {}
            assert(method_ids_unique(post));
            assert(single_default_per_user(post));
            assert(methods_created_ascending(post));
            if is_default {
                assert forall|k: int| 0 <= k < base.len() implies !is_default_of(u)(
                    #[trigger] base[k],
                ) by {}
                lemma_filter_no_match(base, is_default_of(u));
                lemma_filter_push(base, is_default_of(u), m);
                assert(default_count(post, u) == 1);
            }
            assert forall|other: u128| other != u implies default_count(post, other)
                == default_count(pre, other) by {
                if is_default {
                    assert forall|k: int| 0 <= k < pre.len() implies is_default_of(other)(
                        #[trigger] pre[k],
                    ) == is_default_of(other)(base[k]) && (is_default_of(other)(pre[k]) ==> pre[k]
                        == base[k]) by {}
                    lemma_filter_congruent(pre, base, is_default_of(other));
                }
                lemma_filter_push(base, is_default_of(other), m);
            }
            if !is_default {
                assert forall|any: u128| default_count(post, any) == default_count(
                    pre,
                    any,
                ) by {
                    lemma_filter_push(base, is_default_of(any), m);
                }
            }
        }
        m
    }

    /// The payment methods of one user, the default first, then the
    /// remaining methods newest-first. Read-only.
    #[verifier::loop_isolation(false)]
    pub fn list_payment_methods(&self, user_id: u128) -> (r: Vec<PaymentMethod>)
        ensures
            r@ == listed_methods(self.methods@, user_id),
    {
        let ghost s = self.methods@;
        let ghost def_pred = is_default_of(user_id);
        let ghost other_pred = is_non_default_of(user_id);
        let n = self.methods.len();
        let mut out: Vec<PaymentMethod> = Vec::new();
        let mut i: usize = n;
        proof {
            assert(s.subrange(0, n as int) =~= s);
            assert(out@ + matches_desc(s.subrange(0, i as int), def_pred) =~= matches_desc(
                s,
                def_pred,
            ));
        }
        while i > 0
            invariant
                i <= n,
                n == s.len(),
                s == self.methods@,
                out@ + matches_desc(s.subrange(0, i as int), def_pred) == matches_desc(s, def_pred),
            decreases i,
        {
            i = i - 1;
            let ghost prev = out@;
            let ghost prefix = s.subrange(0, i as int + 1);
            proof {
                assert(prefix.last() == s[i as int]);
                assert(prefix.drop_last() =~= s.subrange(0, i as int));
                assert(def_pred(s[i as int]) == (s[i as int].user_id == user_id
                    && s[i as int].is_default));
            }
            let entry = &self.methods[i];
            let is_match = entry.user_id == user_id && entry.is_default;
            if is_match {
                out.push(entry.clone());
            }
            proof {
                if is_match {
                    assert(matches_desc(prefix, def_pred) =~= seq![s[i as int]] + matches_desc(
                        s.subrange(0, i as int),
                        def_pred,
                    ));
                } else {
                    assert(matches_desc(prefix, def_pred) =~= matches_desc(
                        s.subrange(0, i as int),
                        def_pred,
                    ));
                }
                assert(out@ + matches_desc(s.subrange(0, i as int), def_pred) =~= prev
                    + matches_desc(prefix, def_pred));
            }
        }
        proof {
            assert(s.subrange(0, 0) =~= Seq::<PaymentMethod>::empty());
            assert(out@ =~= matches_desc(s, def_pred));
        }
        let ghost defaults_part = out@;
        let mut i: usize = n;
        proof {
            assert(s.subrange(0, n as int) =~= s);
        }
        while i > 0
            invariant
                i <= n,
                n == s.len(),
                s == self.methods@,
                out@ + matches_desc(s.subrange(0, i as int), other_pred) == defaults_part
                    + matches_desc(s, other_pred),
            decreases i,
        {
            i = i - 1;
            let ghost prev = out@;
            let ghost prefix = s.subrange(0, i as int + 1);
            proof {
                assert(prefix.last() == s[i as int]);
                assert(prefix.drop_last() =~= s.subrange(0, i as int));
                assert(other_pred(s[i as int]) == (s[i as int].user_id == user_id
                    && !s[i as int].is_default));
            }
            let entry = &self.methods[i];
            let is_match = entry.user_id == user_id && !entry.is_default;
            if is_match {
                out.push(entry.clone());
            }
            proof {
                if is_match {
                    assert(matches_desc(prefix, other_pred) =~= seq![s[i as int]] + matches_desc(
                        s.subrange(0, i as int),
                        other_pred,
                    ));
                } else {
                    assert(matches_desc(prefix, other_pred) =~= matches_desc(
                        s.subrange(0, i as int),
                        other_pred,
                    ));
                }
                assert(out@ + matches_desc(s.subrange(0, i as int), other_pred) =~= prev
                    + matches_desc(prefix, other_pred));
            }
        }
        proof {
            assert(s.subrange(0, 0) =~= Seq::<PaymentMethod>::empty());
            assert(out@ =~= listed_methods(s, user_id));
        }
        out
    }

    /// Removes the payment method `id` if it belongs to `user_id`. A wrong
    /// id or a wrong owner removes nothing, silently: the call filters by
    /// both fields, so no user can delete another user's method.
    #[verifier::loop_isolation(false)]
    pub fn delete_payment_method(&mut self, id: u128, user_id: u128)
        requires
            old(self).inv(),
        ensures
            final(self).inv(),
            final(self).methods@ == old(self).methods@.filter(survives_delete(id, user_id)),
            final(self).transactions@ == old(self).transactions@,
            final(self).next_method_id == old(self).next_method_id,
            final(self).next_transaction_id == old(self).next_transaction_id,
            final(self).clock == old(self).clock,
    {
        let ghost s = self.methods@;
        let ghost keep = survives_delete(id, user_id);
        let n = self.methods.len();
        let mut kept: Vec<PaymentMethod> = Vec::new();
        let mut i: usize = 0;
        proof {
            assert(s.subrange(0, 0) =~= Seq::<PaymentMethod>::empty());
            assert(kept@ =~= s.subrange(0, 0).filter(keep));
            lemma_filter_no_match(s.subrange(0, 0), keep);
        }
        while i < n
            invariant
                i <= n,
                n == s.len(),
                s == self.methods@,
                kept@ == s.subrange(0, i as int).filter(keep),
            decreases n - i,
        {
            let entry = &self.methods[i];
            if !(entry.id == id && entry.user_id == user_id) {
                kept.push(entry.clone());
            }
            proof {
                assert(keep(s[i as int]) == !(s[i as int].id == id && s[i as int].user_id
                    == user_id));
                lemma_filter_push(s.subrange(0, i as int), keep, s[i as int]);
                assert(s.subrange(0, i as int + 1) =~= s.subrange(0, i as int).push(s[i as int]));
            }
            i += 1;
        }
        proof {
            assert(s.subrange(0, n as int) =~= s);
        }
        self.methods = kept;
        proof {
            let post = s.filter(keep);
            lemma_filter_props(s, keep);
            lemma_filter_pairwise(
                s,
                keep,
                |a: PaymentMethod, b: PaymentMethod| a.id != b.id,
            );
            lemma_filter_pairwise(
                s,
                keep,
                |a: PaymentMethod, b: PaymentMethod|
                    !(a.is_default && b.is_default && a.user_id == b.user_id),
            );
            lemma_filter_pairwise(
                s,
                keep,
                |a: PaymentMethod, b: PaymentMethod| a.created_at < b.created_at,
            );
            assert forall|k: int| 0 <= k < post.len() implies (#[trigger] post[k]).id
                < self.next_method_id && post[k].created_at < self.clock by {
                assert(s.contains(post[k]));
                let w = choose|j: int| 0 <= j < s.len() && s[j] == post[k];
            }
        }
    }

    /// Appends one immutable transaction row. Rejects a negative amount
    /// with `InvalidArgument`, and an idempotency key that is already in the
    /// ledger with `ConstraintViolation` (the uniqueness constraint on the
    /// key); in both cases the ledger is unchanged. Otherwise the row is
    /// written exactly as given, under a fresh id and creation stamp.
    #[verifier::loop_isolation(false)]
    pub fn create_transaction(
        &mut self,
        order_id: u128,
        user_id: u128,
        payment_method_id: Option<u128>,
        amount_cents: i64,
        currency: &str,
        status: TxStatus,
        transaction_type: TxKind,
        provider_ref: Option<String>,
        idempotency_key: Option<String>,
    ) -> (r: Result<Transaction, StoreError>)
        requires
            old(self).inv(),
            old(self).can_insert(),
        ensures
            final(self).inv(),
            final(self).methods@ == old(self).methods@,
            final(self).next_method_id == old(self).next_method_id,
            amount_cents < 0 ==> r == Err::<Transaction, StoreError>(StoreError::InvalidArgument)
                && *final(self) == *old(self),
            amount_cents >= 0 && key_conflicts(old(self).transactions@, idempotency_key) ==> r
                == Err::<Transaction, StoreError>(StoreError::ConstraintViolation) && *final(self)
                == *old(self),
            amount_cents >= 0 && !key_conflicts(old(self).transactions@, idempotency_key) ==> (
            r matches Ok(t) && t.id == old(self).next_transaction_id && t.order_id == order_id
                && t.user_id == user_id && t.payment_method_id == payment_method_id
                && t.amount_cents == amount_cents && t.currency@ == currency@ && t.status == status
                && t.transaction_type == transaction_type && t.provider_ref == provider_ref
                && t.idempotency_key == idempotency_key && t.created_at == old(self).clock
                && final(self).transactions@ == old(self).transactions@.push(t)
                && final(self).next_transaction_id == old(self).next_transaction_id + 1
                && final(self).clock == old(self).clock + 1),
    {
        if amount_cents < 0 {
            return Err(StoreError::InvalidArgument);
        }
        let ghost txs = self.transactions@;
        if let Some(key_ref) = &idempotency_key {
            let n = self.transactions.len();
            let mut i: usize = 0;
            while i < n
                invariant
                    i <= n,
                    n == txs.len(),
                    txs == self.transactions@,
                    forall|k: int| 0 <= k < i ==> !tx_has_key(#[trigger] txs[k], key_ref@),
                decreases n - i,
            {
                match &self.transactions[i].idempotency_key {
                    Some(stored) => {
                        if stored.eq(key_ref) {
                            proof {
                                lemma_find_key_first(txs, key_ref@, i as int);
                            }
                            return Err(StoreError::ConstraintViolation);
                        }
                    },
                    None => {},
                }
                i += 1;
            }
            proof {
                lemma_find_key_none(txs, key_ref@);
            }
        }
        let t = Transaction {
            id: self.next_transaction_id,
            order_id,
            user_id,
            payment_method_id,
            amount_cents,
            currency: currency.to_owned(),
            status,
            transaction_type,
            provider_ref,
            idempotency_key,
            created_at: self.clock,
        };
        let stored = t.clone();
        self.transactions.push(stored);
        self.next_transaction_id = self.next_transaction_id + 1;
        self.clock = self.clock + 1;
        proof {
            let post = txs.push(t);
            assert(self.transactions@ == post);
            assert forall|k: int| 0 <= k < post.len() - 1 implies #[trigger] post[k]
                == txs[k] by {}
            assert(tx_ids_unique(post));
            assert(tx_created_ascending(post));
            if t.idempotency_key is Some {
                lemma_find_key_none(txs, t.idempotency_key->0@);
            }
            assert(tx_keys_unique(post));
        }
        Ok(t)
    }

    /// The transaction with the given id, if any. Returns nothing, not an
    /// error, when the id is absent. Read-only.
    #[verifier::loop_isolation(false)]
    pub fn get_transaction(&self, id: u128) -> (r: Option<Transaction>)
        ensures
            r == find_tx_by_id(self.transactions@, id),
    {
        let n = self.transactions.len();
        let mut i: usize = 0;
        while i < n
            invariant
                i <= n,
                n == self.transactions@.len(),
                forall|k: int| 0 <= k < i ==> (#[trigger] self.transactions@[k]).id != id,
            decreases n - i,
        {
            if self.transactions[i].id == id {
                proof {
                    lemma_find_id_first(self.transactions@, id, i as int);
                }
                return Some(self.transactions[i].clone());
            }
            i += 1;
        }
        proof {
            lemma_find_id_none(self.transactions@, id);
        }
        None
    }

    /// The transaction that carries the given idempotency key, if any.
    /// Read-only: a retried request looks here before charging again.
    #[verifier::loop_isolation(false)]
    pub fn check_idempotency(&self, key: &str) -> (r: Option<Transaction>)
        ensures
            r == find_tx_by_key(self.transactions@, key@),
    {
        let key_string: String = key.to_owned();
        let n = self.transactions.len();
        let mut i: usize = 0;
        while i < n
            invariant
                i <= n,
                n == self.transactions@.len(),
                key_string@ == key@,
                forall|k: int| 0 <= k < i ==> !tx_has_key(#[trigger] self.transactions@[k], key@),
            decreases n - i,
        {
            let found = match &self.transactions[i].idempotency_key {
                Some(stored) => stored.eq(&key_string),
                None => false,
            };
            if found {
                proof {
                    lemma_find_key_first(self.transactions@, key@, i as int);
                }
                return Some(self.transactions[i].clone());
            }
            i += 1;
        }
        proof {
            lemma_find_key_none(self.transactions@, key@);
        }
        None
    }
}


/// However a repository state was reached, no user ever holds two default
/// payment methods: the count of default rows of any user is zero or one.
pub proof fn lemma_at_most_one_default(s: Seq<PaymentMethod>, u: u128)
    requires
        single_default_per_user(s),
    ensures
        default_count(s, u) <= 1,
{
    assert forall|i: int, j: int|
        0 <= i < j < s.len() implies !(is_default_of(u)(#[trigger] s[i]) && is_default_of(u)(
        #[trigger] s[j],
    )) by {}
    lemma_filter_at_most_one(s, is_default_of(u));
}

/// In a ledger whose idempotency keys are unique, two rows that carry the
/// same key are the same row.
pub proof fn lemma_key_identifies_transaction(s: Seq<Transaction>, k: Seq<char>, i: int, j: int)
    requires
        tx_keys_unique(s),
        0 <= i < s.len(),
        0 <= j < s.len(),
        tx_has_key(s[i], k),
        tx_has_key(s[j], k),
    ensures
        i == j,
{
}

/// In a ledger whose idempotency keys are unique, the search by key returns
/// exactly the row that carries the key: a charge retried under its key is
/// answered from that one row.
pub proof fn lemma_key_lookup_exact(s: Seq<Transaction>, k: Seq<char>, i: int)
    requires
        tx_keys_unique(s),
        0 <= i < s.len(),
        tx_has_key(s[i], k),
    ensures
        find_tx_by_key(s, k) == Some(s[i]),
{
    assert forall|j: int| 0 <= j < i implies !tx_has_key(#[trigger] s[j], k) by {
        if tx_has_key(s[j], k) {
            lemma_key_identifies_transaction(s, k, i, j);
        }
    }
    lemma_find_key_first(s, k, i);
}

/// What a listing returns, under the repository invariant: only the user's
/// own methods, all of them, the default method (if the user has one) first,
/// and after it the remaining methods strictly newest-first.
pub proof fn lemma_listing_order(s: Seq<PaymentMethod>, u: u128)
    requires
        single_default_per_user(s),
        methods_created_ascending(s),
    ensures
        forall|k: int|
            0 <= k < listed_methods(s, u).len() ==> (#[trigger] listed_methods(s, u)[k]).user_id
                == u && s.contains(listed_methods(s, u)[k]),
        forall|i: int|
            0 <= i < s.len() && (#[trigger] s[i]).user_id == u ==> listed_methods(s, u).contains(
                s[i],
            ),
        forall|a: int, b: int|
            0 <= a < b < listed_methods(s, u).len() ==> ((#[trigger] listed_methods(s, u)[a]).is_default
                && !(#[trigger] listed_methods(s, u)[b]).is_default) || (listed_methods(s, u)[a].is_default
                == listed_methods(s, u)[b].is_default && listed_methods(s, u)[a].created_at
                > listed_methods(s, u)[b].created_at),
        (exists|i: int| 0 <= i < s.len() && (#[trigger] s[i]).user_id == u && s[i].is_default)
            ==> listed_methods(s, u).len() > 0 && listed_methods(s, u)[0].is_default,
{
    let def_pred = is_default_of(u);
    let other_pred = is_non_default_of(u);
    let dd = matches_desc(s, def_pred);
    let od = matches_desc(s, other_pred);
    let listed = listed_methods(s, u);
    let rank = |m: PaymentMethod| m.created_at as int;
    lemma_matches_desc_props(s, def_pred);
    lemma_matches_desc_props(s, other_pred);
    assert forall|i: int, j: int|
        0 <= i < j < s.len() implies !(def_pred(#[trigger] s[i]) && def_pred(
        #[trigger] s[j],
    )) by {}
    lemma_matches_desc_at_most_one(s, def_pred);
    assert forall|i: int, j: int| 0 <= i < j < s.len() implies rank(#[trigger] s[i]) < rank(
        #[trigger] s[j],
    ) by {}
    lemma_matches_desc_sorted(s, def_pred, rank);
    lemma_matches_desc_sorted(s, other_pred, rank);
    assert forall|k: int| 0 <= k < listed.len() implies (#[trigger] listed[k]).user_id == u
        && s.contains(listed[k]) by {
        if k < dd.len() {
            assert(listed[k] == dd[k]);
            assert(def_pred(dd[k]));
        } else {
            assert(listed[k] == od[k - dd.len()]);
            assert(other_pred(od[k - dd.len()]));
        }
    }
    assert forall|i: int| 0 <= i < s.len() && (#[trigger] s[i]).user_id == u implies
        listed.contains(s[i]) by {
        if s[i].is_default {
            assert(def_pred(s[i]));
            assert(dd.contains(s[i]));
            let w = choose|j: int| 0 <= j < dd.len() && dd[j] == s[i];
            assert(listed[w] == s[i]);
        } else {
            assert(other_pred(s[i]));
            assert(od.contains(s[i]));
            let w = choose|j: int| 0 <= j < od.len() && od[j] == s[i];
            assert(listed[dd.len() + w] == s[i]);
        }
    }
    assert forall|a: int, b: int| 0 <= a < b < listed.len() implies ((#[trigger] listed[a]).is_default
        && !(#[trigger] listed[b]).is_default) || (listed[a].is_default == listed[b].is_default
        && listed[a].created_at > listed[b].created_at) by {
        if b < dd.len() {
            assert(false);
        } else if a < dd.len() {
            assert(listed[a] == dd[a] && def_pred(dd[a]));
            assert(listed[b] == od[b - dd.len()] && other_pred(od[b - dd.len()]));
        } else {
            assert(listed[a] == od[a - dd.len()] && listed[b] == od[b - dd.len()]);
            assert(other_pred(od[a - dd.len()]) && other_pred(od[b - dd.len()]));
            assert(rank(od[a - dd.len()]) > rank(od[b - dd.len()]));
        }
    }
    if exists|i: int| 0 <= i < s.len() && (#[trigger] s[i]).user_id == u && s[i].is_default {
        let w = choose|i: int| 0 <= i < s.len() && (#[trigger] s[i]).user_id == u
            && s[i].is_default;
        assert(def_pred(s[w]));
        assert(dd.contains(s[w]));
        assert(dd.len() > 0);
        assert(listed[0] == dd[0]);
        assert(def_pred(dd[0]));
    }
}

/// Ownership isolation of deletion: a row whose id or owner differs from
/// what was asked for survives the deletion.
pub proof fn lemma_delete_ownership(s: Seq<PaymentMethod>, id: u128, user_id: u128, i: int)
    requires
        0 <= i < s.len(),
        !(s[i].id == id && s[i].user_id == user_id),
    ensures
        s.filter(survives_delete(id, user_id)).contains(s[i]),
{
    assert(survives_delete(id, user_id)(s[i]));
    lemma_filter_props(s, survives_delete(id, user_id));
}

} // verus!
