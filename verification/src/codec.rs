//! Trusted wrappers around the `base64` and `sha3` crates, and the source of
//! fresh identifiers.
//!
//! The encodings themselves are not re-implemented here: their results are
//! named by uninterpreted spec functions, and the contracts state only what
//! the crates' documentation promises (determinism, the round trip, and the
//! alphabet facts the token grammar depends on).

use vstd::prelude::*;

use base64::Engine;
use sha3::Digest;

verus! {

/// The canonical padded standard-alphabet base64 encoding of `data`.
pub uninterp spec fn b64_of(data: Seq<u8>) -> Seq<char>;

/// The SHA3-256 digest of the UTF-8 bytes of `s`.
pub uninterp spec fn sha3_256_of(s: Seq<char>) -> Seq<u8>;

/// Whether `s` is the canonical encoding of some byte string.
pub open spec fn b64_decodable(s: Seq<char>) -> bool {
    exists|d: Seq<u8>| b64_of(d) == s
}

/// The byte string whose canonical encoding is `s` (meaningful only when
/// `b64_decodable(s)` holds; encoding is injective, so it is unique).
pub open spec fn b64_preimage(s: Seq<char>) -> Seq<u8> {
    choose|d: Seq<u8>| b64_of(d) == s
}

/// Relies on `base64::engine::general_purpose::STANDARD.encode`: the
/// canonical padded encoding, drawn from an alphabet that contains neither
/// `'.'` nor `' '`.
#[verifier::external_body]
pub(crate) fn b64_encode(data: &Vec<u8>) -> (r: String)
    ensures
        r@ == b64_of(data@),
        forall|b: Seq<u8>| b64_of(b) == r@ ==> b == data@,
        forall|i: int| 0 <= i < r@.len() ==> r@[i] != '.' && r@[i] != ' ',
{
    base64::engine::general_purpose::STANDARD.encode(data.as_slice())
}

/// Relies on `base64::engine::general_purpose::STANDARD.decode`: with the
/// default strict configuration (canonical padding required, trailing bits
/// rejected) decoding succeeds exactly on canonical encodings and is the
/// inverse of encoding.
#[verifier::external_body]
pub(crate) fn b64_decode(s: &str) -> (r: Option<Vec<u8>>)
    ensures
        r matches Some(d) ==> b64_of(d@) == s@ && (forall|b: Seq<u8>| b64_of(b) == s@ ==> b == d@),
        r is None ==> forall|b: Seq<u8>| b64_of(b) != s@,
{
    base64::engine::general_purpose::STANDARD.decode(s).ok()
}

/// Relies on `sha3::Sha3_256` (via the `Digest` trait): a 32-byte digest that
/// depends on the input bytes alone.
#[verifier::external_body]
pub(crate) fn sha3_256(s: &str) -> (r: Vec<u8>)
    ensures
        r@ == sha3_256_of(s@),
        r@.len() == 32,
{
    let mut hasher = sha3::Sha3_256::new();
    hasher.update(s.as_bytes());
    hasher.finalize().to_vec()
}

/// Relies on `uuid::Uuid::new_v4`: a fresh random identifier of exactly 16
/// bytes. Nothing is assumed about its value.
#[verifier::external_body]
pub(crate) fn random_id_bytes() -> (r: Vec<u8>)
    ensures
        r@.len() == 16,
{
    uuid::Uuid::new_v4().into_bytes().to_vec()
}

} // verus!
