use payment_ledger::gateway::MockGateway;
use payment_ledger::repository::{MethodKind, PaymentRepository};
use payment_ledger::service::PaymentService;

fn fresh_service() -> PaymentService<MockGateway> {
    PaymentService::new(PaymentRepository::new(), MockGateway {})
}

fn add_card(
    svc: &mut PaymentService<MockGateway>,
    user: u128,
    card: &str,
    is_default: bool,
) -> u128 {
    svc.add_payment_method(user, MethodKind::Card, card, 12, 2030, "123", is_default)
        .unwrap()
        .id
}

#[test]
fn repeated_default_adds_leave_exactly_one_default() {
    let mut svc = fresh_service();
    add_card(&mut svc, 1, "4111111111111111", true);
    add_card(&mut svc, 1, "5500005555555559", true);
    let last = add_card(&mut svc, 1, "340000000000009", true);
    let methods = svc.list_payment_methods(1).unwrap();
    assert_eq!(methods.len(), 3);
    let defaults: Vec<u128> = methods.iter().filter(|m| m.is_default).map(|m| m.id).collect();
    assert_eq!(defaults, vec![last]);
}

#[test]
fn no_default_add_leaves_zero_defaults() {
    let mut svc = fresh_service();
    add_card(&mut svc, 1, "4111111111111111", false);
    add_card(&mut svc, 1, "5500005555555559", false);
    let methods = svc.list_payment_methods(1).unwrap();
    assert_eq!(methods.len(), 2);
    assert!(methods.iter().all(|m| !m.is_default));
}

#[test]
fn default_of_one_user_does_not_disturb_another() {
    let mut svc = fresh_service();
    let a = add_card(&mut svc, 1, "4111111111111111", true);
    add_card(&mut svc, 2, "5500005555555559", true);
    let of_first = svc.list_payment_methods(1).unwrap();
    assert_eq!(of_first.len(), 1);
    assert!(of_first[0].is_default);
    assert_eq!(of_first[0].id, a);
}

#[test]
fn listing_puts_default_first_then_newest_first() {
    let mut svc = fresh_service();
    let oldest = add_card(&mut svc, 1, "4111111111111111", false);
    let the_default = add_card(&mut svc, 1, "5500005555555559", true);
    let newest = add_card(&mut svc, 1, "340000000000009", false);
    let ids: Vec<u128> = svc.list_payment_methods(1).unwrap().iter().map(|m| m.id).collect();
    assert_eq!(ids, vec![the_default, newest, oldest]);
}

#[test]
fn listing_is_per_user() {
    let mut svc = fresh_service();
    add_card(&mut svc, 1, "4111111111111111", true);
    let of_other = svc.list_payment_methods(2).unwrap();
    assert!(of_other.is_empty());
}

#[test]
fn delete_by_owner_removes_the_row() {
    let mut svc = fresh_service();
    let id = add_card(&mut svc, 1, "4111111111111111", true);
    svc.delete_payment_method(id, 1).unwrap();
    assert!(svc.list_payment_methods(1).unwrap().is_empty());
}

#[test]
fn delete_by_another_user_keeps_the_row() {
    let mut svc = fresh_service();
    let id = add_card(&mut svc, 1, "4111111111111111", true);
    svc.delete_payment_method(id, 2).unwrap();
    let methods = svc.list_payment_methods(1).unwrap();
    assert_eq!(methods.len(), 1);
    assert_eq!(methods[0].id, id);
}

#[test]
fn delete_of_unknown_id_is_a_quiet_no_op() {
    let mut svc = fresh_service();
    add_card(&mut svc, 1, "4111111111111111", true);
    svc.delete_payment_method(999, 1).unwrap();
    assert_eq!(svc.list_payment_methods(1).unwrap().len(), 1);
}
