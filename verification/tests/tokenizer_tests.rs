use payment_ledger::errors::PaymentError;
use payment_ledger::tokenizer::{detect_card_brand, last_four, tokenize_card};
use sha2::{Digest, Sha256};

#[test]
fn brand_visa() {
    assert_eq!(detect_card_brand("4111111111111111").as_str(), "Visa");
}

#[test]
fn brand_mastercard() {
    assert_eq!(detect_card_brand("5500005555555559").as_str(), "Mastercard");
}

#[test]
fn brand_amex() {
    assert_eq!(detect_card_brand("340000000000009").as_str(), "American Express");
}

#[test]
fn brand_unknown() {
    assert_eq!(detect_card_brand("9999999999999999").as_str(), "Unknown");
}

#[test]
fn brand_empty_is_unknown() {
    assert_eq!(detect_card_brand("").as_str(), "Unknown");
}

#[test]
fn token_is_deterministic() {
    let a = tokenize_card("4111111111111111", "123");
    let b = tokenize_card("4111111111111111", "123");
    assert_eq!(a, b);
}

#[test]
fn token_is_hex_digest_not_the_card() {
    let t = tokenize_card("4111111111111111", "123");
    assert_eq!(t.len(), 64);
    assert!(t.chars().all(|c| c.is_ascii_hexdigit() && !c.is_ascii_uppercase()));
    assert_ne!(t.as_str(), "4111111111111111");
}

#[test]
fn token_depends_on_cvv() {
    let a = tokenize_card("4111111111111111", "123");
    let b = tokenize_card("4111111111111111", "124");
    assert_ne!(a, b);
}

#[test]
fn token_is_the_hex_sha256_of_card_and_cvv() {
    // The known SHA-256 of the ASCII bytes of "4111111111111111123",
    // hex encoded.
    let t = tokenize_card("4111111111111111", "123");
    assert_eq!(
        t.as_str(),
        "1f82a845229d89c89cef908ef6132d290c65118ec9b82dff5494f06eb6e39846",
    );
    // And the same value recomputed through the digest and encoder crates
    // directly, fed in two steps as the tokenizer feeds them.
    let mut h = Sha256::new();
    h.update("4111111111111111".as_bytes());
    h.update("123".as_bytes());
    assert_eq!(t, hex::encode(h.finalize()));
}

#[test]
fn last_four_of_long_number() {
    assert_eq!(last_four("4111111111111234").unwrap().as_str(), "1234");
}

#[test]
fn last_four_of_exactly_four() {
    assert_eq!(last_four("9876").unwrap().as_str(), "9876");
}

#[test]
fn last_four_of_short_number_is_invalid() {
    assert_eq!(last_four("123"), Err(PaymentError::InvalidArgument));
}
