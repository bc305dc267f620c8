//! Signatures of requests.
use vstd::prelude::*;

verus! {

/// The HMAC-SHA256 code of a payload under a secret, both taken in UTF-8.
pub uninterp spec fn code(secret: Seq<char>, payload: Seq<char>) -> Seq<u8>;

/// Calls `hmac::Hmac::<sha2::Sha256>` with `new_from_slice`, which takes a key of any
/// length, `update` and `finalize`. The code is named; it has 32 bytes.
#[verifier::external_body]
fn hmac_sha256(secret: &str, payload: &str) -> (r: Vec<u8>)
    ensures
        r@ == code(secret@, payload@),
        r@.len() == 32,
{
    let key = secret.as_bytes();
    let made = <hmac::Hmac<sha2::Sha256> as hmac::Mac>::new_from_slice(key);
    let mut mac = made.expect("HMAC key");
    hmac::Mac::update(&mut mac, payload.as_bytes());
    hmac::Mac::finalize(mac).into_bytes().to_vec()
}

/// The lower-case hexadecimal digits.
pub open spec fn hex_digits() -> Seq<char> {
    seq!['0', '1', '2', '3', '4', '5', '6', '7', '8', '9', 'a', 'b', 'c', 'd', 'e', 'f']
}

/// Two hexadecimal digits for each byte.
pub open spec fn hex_text(bytes: Seq<u8>) -> Seq<char>
    decreases bytes.len(),
{
    if bytes.len() == 0 {
        Seq::empty()
    } else {
        hex_text(bytes.drop_last()).push(hex_digits()[bytes.last() as int / 16]).push(
            hex_digits()[bytes.last() as int % 16],
        )
    }
}

/// Calls `hex::encode`: two lower-case digits for each byte, the higher one first.
#[verifier::external_body]
fn hex_encode(bytes: &Vec<u8>) -> (r: String)
    ensures
        r@ == hex_text(bytes@),
{
    hex::encode(bytes)
}

/// A text of bytes is twice as long as they are.
pub proof fn lemma_hex_length(bytes: Seq<u8>)
    ensures
        hex_text(bytes).len() == 2 * bytes.len(),
    decreases bytes.len(),
{
    if bytes.len() > 0 {
        lemma_hex_length(bytes.drop_last());
    }
}

/// The signature of a payload under a secret.
pub open spec fn signature(payload: Seq<char>, secret: Seq<char>) -> Seq<char> {
    hex_text(code(secret, payload))
}

/// The signature of a payload under a secret: its HMAC-SHA256 code in hexadecimal.
pub fn sign(payload: &str, secret: &str) -> (r: String)
    ensures
        r@ == signature(payload@, secret@),
        r@.len() == 64,
{
    let bytes: Vec<u8> = hmac_sha256(secret, payload);
    proof {
        lemma_hex_length(bytes@);
    }
    hex_encode(&bytes)
}

} // verus!
