//! Card tokenization and classification.
//!
//! `tokenize_card` derives an opaque token from the raw card input: a
//! deterministic one-way digest of card number and verification code, encoded
//! as lowercase hexadecimal. The token is a reproducible fingerprint, never
//! the raw number. `detect_card_brand` is a pure lookup on the first digit,
//! and `last_four` returns the trailing four characters of the card number.

use vstd::prelude::*;

use sha2::{Digest, Sha256};

use crate::errors::PaymentError;

verus! {

/// The digest that the tokenizer derives from a card number and a
/// verification code. It depends on those two strings alone.
pub uninterp spec fn digest_of(card_number: Seq<char>, cvv: Seq<char>) -> Seq<u8>;

/// The lowercase hexadecimal digit for a value below sixteen.
pub open spec fn hex_digit(n: u8) -> char
    recommends
        n < 16,
{
    if n < 10 {
        (48 + n) as char
    } else {
        (87 + n) as char
    }
}

/// Lowercase hexadecimal encoding: two digits for each byte, high nibble
/// first.
pub open spec fn hex_of(bytes: Seq<u8>) -> Seq<char>
    decreases bytes.len(),
{
    if bytes.len() == 0 {
        Seq::empty()
    } else {
        seq![hex_digit(bytes[0] / 16), hex_digit(bytes[0] % 16)] + hex_of(bytes.drop_first())
    }
}

/// The brand read off the first character of a card number: `4` is Visa,
/// `5` is Mastercard, `3` is American Express, anything else (an empty
/// number included) is unknown.
pub open spec fn brand_of(card_number: Seq<char>) -> Seq<char> {
    let first = if card_number.len() == 0 {
        '0'
    } else {
        card_number[0]
    };
    if first == '4' {
        "Visa"@
    } else if first == '5' {
        "Mastercard"@
    } else if first == '3' {
        "American Express"@
    } else {
        "Unknown"@
    }
}

/// Relies on sha2::Sha256: a deterministic 32-byte digest of the bytes fed
/// to it, here the UTF-8 bytes of the card number followed by those of the
/// verification code. The digest is a function of the two strings alone.
#[verifier::external_body]
fn sha256_card_digest(card_number: &str, cvv: &str) -> (r: Vec<u8>)
    ensures
        r@ == digest_of(card_number@, cvv@),
        r@.len() == 32,
{
    let mut hasher = Sha256::new();
    hasher.update(card_number.as_bytes());
    hasher.update(cvv.as_bytes());
    hasher.finalize().to_vec()
}

/// Relies on hex::encode: two lowercase hexadecimal digits for each byte,
/// high nibble first.
#[verifier::external_body]
fn encode_hex(bytes: &Vec<u8>) -> (r: String)
    ensures
        r@ == hex_of(bytes@),
{
    hex::encode(bytes)
}

/// Each byte encodes to exactly two digits.
pub proof fn lemma_hex_of_len(bytes: Seq<u8>)
    ensures
        hex_of(bytes).len() == 2 * bytes.len(),
    decreases bytes.len(),
{
    if bytes.len() > 0 {
        lemma_hex_of_len(bytes.drop_first());
    }
}

/// Derives the opaque token stored in place of the raw card data: the
/// lowercase hexadecimal form of a digest of card number and verification
/// code. Same inputs always yield the same token.
pub fn tokenize_card(card_number: &str, cvv: &str) -> (token: String)
    ensures
        token@ == hex_of(digest_of(card_number@, cvv@)),
        token@.len() == 64,
{
    let digest = sha256_card_digest(card_number, cvv);
    proof {
        lemma_hex_of_len(digest@);
    }
    encode_hex(&digest)
}

/// Names the card brand after the first character of the card number.
pub fn detect_card_brand(card_number: &str) -> (brand: String)
    ensures
        brand@ == brand_of(card_number@),
{
    let first = if card_number.unicode_len() == 0 {
        '0'
    } else {
        card_number.get_char(0)
    };
    if first == '4' {
        "Visa".to_owned()
    } else if first == '5' {
        "Mastercard".to_owned()
    } else if first == '3' {
        "American Express".to_owned()
    } else {
        "Unknown".to_owned()
    }
}

/// The trailing four characters of the card number, or `InvalidArgument`
/// when the number is shorter than four characters.
pub fn last_four(card_number: &str) -> (r: Result<String, PaymentError>)
    ensures
        card_number@.len() < 4 ==> r == Result::<String, PaymentError>::Err(
            PaymentError::InvalidArgument,
        ),
        card_number@.len() >= 4 ==> (r matches Ok(s) && s@ == card_number@.subrange(
            card_number@.len() - 4,
            card_number@.len() as int,
        )),
{
    let n = card_number.unicode_len();
    if n < 4 {
        Err(PaymentError::InvalidArgument)
    } else {
        Ok(card_number.substring_char(n - 4, n).to_owned())
    }
}

} // verus!
