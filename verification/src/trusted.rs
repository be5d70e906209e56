//! The crate's only bindings to outside code: base64 and hex codecs, the
//! system's secure random source, SHA-256, and the wall clock. Each wrapper
//! states what its callee is documented to return; everything built on top
//! of them is verified against these contracts.

use base64::Engine;
use vstd::prelude::*;

use crate::text::{digit_char, is_digit_char};

verus! {

// ---------------------------------------------------------------------------
// base64, standard alphabet with padding
// ---------------------------------------------------------------------------

/// The padded standard-alphabet base64 encoding of the UTF-8 bytes of a
/// string, as base64's `STANDARD` engine produces it.
pub uninterp spec fn base64_of(s: Seq<char>) -> Seq<char>;

/// Relies on base64's `STANDARD` engine `encode`: a pure function of the
/// input bytes producing padded standard-alphabet base64.
#[verifier::external_body]
pub(crate) fn base64_encode(s: &str) -> (r: String)
    ensures
        r@ == base64_of(s@),
{
    base64::engine::general_purpose::STANDARD.encode(s.as_bytes())
}

/// Relies on base64's `STANDARD` engine `decode`, which accepts exactly
/// canonical padded encodings (its default config requires canonical
/// padding and rejects nonzero trailing bits), and on
/// `String::from_utf8`, which inverts UTF-8 encoding. Together they
/// invert `base64_encode` and accept nothing outside its image.
#[verifier::external_body]
pub(crate) fn base64_decode(s: &str) -> (r: Option<String>)
    ensures
        r matches Some(v) ==> s@ == base64_of(v@) && (forall|t: Seq<char>|
            s@ == base64_of(t) ==> t == v@),
        (exists|t: Seq<char>| s@ == base64_of(t)) ==> r is Some,
{
    match base64::engine::general_purpose::STANDARD.decode(s.as_bytes()) {
        Ok(bytes) => String::from_utf8(bytes).ok(),
        Err(_) => None,
    }
}

// ---------------------------------------------------------------------------
// base64, URL-safe alphabet without padding
// ---------------------------------------------------------------------------

/// The unpadded URL-safe base64 encoding of a byte string, as base64's
/// `URL_SAFE_NO_PAD` engine produces it.
pub uninterp spec fn b64url_of(bs: Seq<u8>) -> Seq<char>;

/// The URL-safe base64 alphabet: letters, digits, `-` and `_`, all of
/// them unreserved in a URL.
pub open spec fn is_b64url_char(c: char) -> bool {
    ('A' <= c && c <= 'Z') || ('a' <= c && c <= 'z') || ('0' <= c && c <= '9') || c == '-' || c
        == '_'
}

/// Relies on base64's `URL_SAFE_NO_PAD` engine `encode`: a pure function
/// of the input bytes producing unpadded base64 over the URL-safe
/// alphabet.
#[verifier::external_body]
pub(crate) fn base64url_encode(b: &[u8]) -> (r: String)
    ensures
        r@ == b64url_of(b@),
        forall|i: int| 0 <= i < r@.len() ==> is_b64url_char(#[trigger] r@[i]),
{
    base64::engine::general_purpose::URL_SAFE_NO_PAD.encode(b)
}

// ---------------------------------------------------------------------------
// hex
// ---------------------------------------------------------------------------

pub open spec fn hex_lower_char(d: nat) -> char
    recommends
        d < 16,
{
    if d < 10 {
        digit_char(d)
    } else if d == 10 {
        'a'
    } else if d == 11 {
        'b'
    } else if d == 12 {
        'c'
    } else if d == 13 {
        'd'
    } else if d == 14 {
        'e'
    } else {
        'f'
    }
}

pub open spec fn is_hex_lower_char(c: char) -> bool {
    is_digit_char(c) || ('a' <= c && c <= 'f')
}

/// Two lowercase hex digits per byte, high nibble first.
pub open spec fn hex_of(bs: Seq<u8>) -> Seq<char>
    decreases bs.len(),
{
    if bs.len() == 0 {
        Seq::<char>::empty()
    } else {
        hex_of(bs.drop_last()) + seq![
            hex_lower_char((bs.last() / 16) as nat),
            hex_lower_char((bs.last() % 16) as nat),
        ]
    }
}

pub proof fn lemma_hex_of_shape(bs: Seq<u8>)
    ensures
        hex_of(bs).len() == 2 * bs.len(),
        forall|i: int| 0 <= i < hex_of(bs).len() ==> is_hex_lower_char(#[trigger] hex_of(bs)[i]),
    decreases bs.len(),
{
    if bs.len() > 0 {
        lemma_hex_of_shape(bs.drop_last());
    }
}

/// Relies on `hex::encode`: two lowercase hex digits per input byte, high
/// nibble first.
#[verifier::external_body]
pub(crate) fn hex_encode(b: &[u8]) -> (r: String)
    ensures
        r@ == hex_of(b@),
{
    hex::encode(b)
}

// ---------------------------------------------------------------------------
// randomness, digests, and the clock
// ---------------------------------------------------------------------------

/// Relies on ring's `SystemRandom::fill` for cryptographically secure
/// bytes. Nothing is assumed of the values; the process aborts only if
/// the platform's random source is unavailable.
#[verifier::external_body]
pub(crate) fn secure_random_bytes(n: usize) -> (r: Vec<u8>)
    ensures
        r@.len() == n,
{
    let rng = ring::rand::SystemRandom::new();
    let mut buf = vec![0u8; n];
    ring::rand::SecureRandom::fill(&rng, &mut buf).expect("system random source unavailable");
    buf
}

/// The SHA-256 digest of the UTF-8 bytes of a string.
pub uninterp spec fn sha256_str_of(s: Seq<char>) -> Seq<u8>;

/// Relies on `ring::digest::digest` with `SHA256`: a pure 32-byte digest
/// of the input bytes.
#[verifier::external_body]
pub(crate) fn sha256_str(s: &str) -> (r: Vec<u8>)
    ensures
        r@ == sha256_str_of(s@),
        r@.len() == 32,
{
    ring::digest::digest(&ring::digest::SHA256, s.as_bytes()).as_ref().to_vec()
}

/// Relies on `chrono::Utc::now`: seconds since the Unix epoch. Nothing is
/// assumed of the clock's value.
#[verifier::external_body]
pub(crate) fn now_timestamp() -> (r: i64) {
    chrono::Utc::now().timestamp()
}

} // verus!
