use payment_ledger::errors::PaymentError;
use payment_ledger::gateway::MockGateway;
use payment_ledger::repository::{MethodKind, PaymentRepository, TxKind, TxStatus};
use payment_ledger::service::PaymentService;

fn fresh_service() -> PaymentService<MockGateway> {
    PaymentService::new(PaymentRepository::new(), MockGateway {})
}

#[test]
fn charge_below_threshold_succeeds() {
    let mut svc = fresh_service();
    let (ok, tx, msg) = svc.charge(1, 2, 3, 99_999, "USD", "key-a").unwrap();
    assert!(ok);
    assert_eq!(tx.status, TxStatus::Succeeded);
    assert_eq!(tx.amount_cents, 99_999);
    assert_eq!(tx.transaction_type, TxKind::Charge);
    assert!(msg.is_none());
}

#[test]
fn charge_at_threshold_fails() {
    let mut svc = fresh_service();
    let (ok, tx, msg) = svc.charge(1, 2, 3, 100_000, "USD", "key-b").unwrap();
    assert!(!ok);
    assert_eq!(tx.status, TxStatus::Failed);
    assert_eq!(msg.as_deref(), Some("Mock payment failure"));
}

#[test]
fn charge_records_key_currency_and_reference() {
    let mut svc = fresh_service();
    let (_, tx, _) = svc.charge(10, 20, 30, 500, "EUR", "key-c").unwrap();
    assert_eq!(tx.order_id, 10);
    assert_eq!(tx.user_id, 20);
    assert_eq!(tx.payment_method_id, Some(30));
    assert_eq!(tx.currency.as_str(), "EUR");
    assert_eq!(tx.idempotency_key.as_deref(), Some("key-c"));
    let provider_ref = tx.provider_ref.expect("a provider reference is always stored");
    assert!(provider_ref.starts_with("mock_charge_"));
    assert_eq!(provider_ref.len(), "mock_charge_".len() + 36);
}

#[test]
fn charge_twice_same_key_returns_same_row_once() {
    let mut svc = fresh_service();
    let (_, first, _) = svc.charge(1, 2, 3, 700, "USD", "retry-key").unwrap();
    let (ok, replay, msg) = svc.charge(9, 9, 9, 999, "EUR", "retry-key").unwrap();
    assert!(ok);
    assert_eq!(replay.id, first.id);
    assert_eq!(replay.amount_cents, 700);
    assert_eq!(replay.currency.as_str(), "USD");
    assert!(msg.is_none());
    assert_eq!(svc.repo.transactions.len(), 1);
}

#[test]
fn replayed_charge_reports_success_even_for_a_failed_charge() {
    // The replay's success flag says only that the request was already
    // processed; the row's own status carries the outcome.
    let mut svc = fresh_service();
    let (ok, tx, _) = svc.charge(1, 2, 3, 250_000, "USD", "declined-key").unwrap();
    assert!(!ok);
    assert_eq!(tx.status, TxStatus::Failed);
    let (ok2, tx2, _) = svc.charge(1, 2, 3, 250_000, "USD", "declined-key").unwrap();
    assert!(ok2);
    assert_eq!(tx2.status, TxStatus::Failed);
    assert_eq!(tx2.id, tx.id);
}

#[test]
fn charge_negative_amount_is_invalid_and_writes_nothing() {
    let mut svc = fresh_service();
    let r = svc.charge(1, 2, 3, -5, "USD", "neg-key");
    assert_eq!(r.unwrap_err(), PaymentError::InvalidArgument);
    assert_eq!(svc.repo.transactions.len(), 0);
}

#[test]
fn refund_missing_transaction_is_not_found_and_writes_nothing() {
    let mut svc = fresh_service();
    let r = svc.refund(12345, 100, "customer asked");
    assert_eq!(r.unwrap_err(), PaymentError::NotFound);
    assert_eq!(svc.repo.transactions.len(), 0);
}

#[test]
fn refund_inherits_the_original_charge() {
    let mut svc = fresh_service();
    let (_, charge_tx, _) = svc.charge(10, 20, 30, 5_000, "GBP", "key-r").unwrap();
    let (ok, refund_tx, msg) = svc.refund(charge_tx.id, 5_000, "damaged goods").unwrap();
    assert!(ok);
    assert_eq!(refund_tx.status, TxStatus::Refunded);
    assert_eq!(refund_tx.transaction_type, TxKind::Refund);
    assert_eq!(refund_tx.order_id, 10);
    assert_eq!(refund_tx.user_id, 20);
    assert_eq!(refund_tx.payment_method_id, Some(30));
    assert_eq!(refund_tx.currency.as_str(), "GBP");
    assert_eq!(refund_tx.amount_cents, 5_000);
    assert!(refund_tx.idempotency_key.is_none());
    let provider_ref = refund_tx.provider_ref.expect("a provider reference is always stored");
    assert!(provider_ref.starts_with("mock_refund_"));
    assert_eq!(provider_ref.len(), "mock_refund_".len() + 36);
    assert!(msg.is_none());
    assert_eq!(svc.repo.transactions.len(), 2);
}

#[test]
fn refund_negative_amount_is_invalid() {
    let mut svc = fresh_service();
    let (_, charge_tx, _) = svc.charge(1, 2, 3, 100, "USD", "key-n").unwrap();
    let r = svc.refund(charge_tx.id, -1, "oops");
    assert_eq!(r.unwrap_err(), PaymentError::InvalidArgument);
    assert_eq!(svc.repo.transactions.len(), 1);
}

#[test]
fn get_transaction_roundtrip_and_miss() {
    let mut svc = fresh_service();
    let (_, tx, _) = svc.charge(1, 2, 3, 42, "USD", "key-g").unwrap();
    let found = svc.get_transaction(tx.id).unwrap().expect("stored row is found");
    assert_eq!(found.id, tx.id);
    assert_eq!(found.amount_cents, 42);
    assert!(svc.get_transaction(tx.id + 1).unwrap().is_none());
}

#[test]
fn add_payment_method_stores_token_not_card() {
    let mut svc = fresh_service();
    let m = svc
        .add_payment_method(7, MethodKind::Card, "4111111111111111", 12, 2030, "123", false)
        .unwrap();
    assert_eq!(m.user_id, 7);
    assert_eq!(m.method_type, MethodKind::Card);
    assert_eq!(m.brand.as_str(), "Visa");
    assert_eq!(m.last_four.as_str(), "1111");
    assert_eq!(m.token.len(), 64);
    assert_ne!(m.token.as_str(), "4111111111111111");
    assert!(!m.is_default);
}

#[test]
fn add_payment_method_short_card_is_invalid() {
    let mut svc = fresh_service();
    let r = svc.add_payment_method(7, MethodKind::Card, "411", 12, 2030, "123", true);
    assert_eq!(r.unwrap_err(), PaymentError::InvalidArgument);
    assert_eq!(svc.repo.methods.len(), 0);
}
