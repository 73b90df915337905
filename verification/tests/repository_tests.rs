use payment_ledger::errors::StoreError;
use payment_ledger::repository::{PaymentRepository, TxKind, TxStatus};

fn write_charge(repo: &mut PaymentRepository, amount: i64, key: Option<&str>) -> Result<
    payment_ledger::repository::Transaction,
    StoreError,
> {
    repo.create_transaction(
        1,
        2,
        Some(3),
        amount,
        "USD",
        TxStatus::Succeeded,
        TxKind::Charge,
        Some("ref".to_string()),
        key.map(|k| k.to_string()),
    )
}

#[test]
fn create_rejects_negative_amount() {
    let mut repo = PaymentRepository::new();
    assert_eq!(write_charge(&mut repo, -1, None).unwrap_err(), StoreError::InvalidArgument);
    assert_eq!(repo.transactions.len(), 0);
}

#[test]
fn create_rejects_duplicate_idempotency_key() {
    let mut repo = PaymentRepository::new();
    write_charge(&mut repo, 100, Some("dup")).unwrap();
    assert_eq!(
        write_charge(&mut repo, 200, Some("dup")).unwrap_err(),
        StoreError::ConstraintViolation,
    );
    assert_eq!(repo.transactions.len(), 1);
}

#[test]
fn distinct_keys_and_keyless_rows_coexist() {
    let mut repo = PaymentRepository::new();
    write_charge(&mut repo, 100, Some("a")).unwrap();
    write_charge(&mut repo, 100, Some("b")).unwrap();
    write_charge(&mut repo, 100, None).unwrap();
    write_charge(&mut repo, 100, None).unwrap();
    assert_eq!(repo.transactions.len(), 4);
}

#[test]
fn check_idempotency_finds_the_row_with_the_key() {
    let mut repo = PaymentRepository::new();
    let t = write_charge(&mut repo, 100, Some("findme")).unwrap();
    let found = repo.check_idempotency("findme").expect("the key is stored");
    assert_eq!(found.id, t.id);
    assert!(repo.check_idempotency("other").is_none());
}

#[test]
fn rows_get_fresh_ids_and_growing_stamps() {
    let mut repo = PaymentRepository::new();
    let a = write_charge(&mut repo, 100, None).unwrap();
    let b = write_charge(&mut repo, 100, None).unwrap();
    assert_ne!(a.id, b.id);
    assert!(a.created_at < b.created_at);
}
