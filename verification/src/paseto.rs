//! Trusted wrappers around the `pasetors` crate (PASETO v4.public tokens and
//! PASERK key identifiers).
//!
//! Keys never cross this boundary: session minting generates a keypair, signs
//! once inside the wrapper's frame and discards the private half, handing the
//! caller only plain strings. What the crate computes deterministically is
//! named by uninterpreted spec functions; nothing is assumed about the
//! outcome of signature verification itself, which also depends on the clock.

use vstd::prelude::*;

use crate::clock::rfc3339_ts_of;
use core::time::Duration;
use pasetors::claims::{Claims, ClaimsValidationRules};
use pasetors::footer::Footer;
use pasetors::keys::{AsymmetricKeyPair, AsymmetricPublicKey, Generate};
use pasetors::paserk::{FormatAsPaserk, Id};
use pasetors::token::UntrustedToken;
use pasetors::version4::V4;
use pasetors::{public, Public};

verus! {

/// The PASERK id (`k4.pid.`-form) of the public key whose PASERK string is
/// `public_key`.
pub uninterp spec fn paserk_kid_of(public_key: Seq<char>) -> Seq<char>;

/// What parsing `token` as an untrusted v4.public token and reading its
/// footer yields: `None` when the token or its footer does not parse,
/// `Some(None)` when the footer has no string `kid` claim, and
/// `Some(Some(kid))` otherwise.
pub uninterp spec fn footer_kid_of(token: Seq<char>) -> Option<Option<Seq<char>>>;

/// The `iss` and `exp` string claims of `token`'s payload, when its signature
/// verifies under `public_key` and the implicit assertion `implicit`; `None`
/// when the signature is invalid. This is the time-independent part of
/// verification: it depends on the three arguments alone.
pub uninterp spec fn session_claims_of(
    public_key: Seq<char>,
    token: Seq<char>,
    implicit: Seq<u8>,
) -> Option<(Option<Seq<char>>, Option<Seq<char>>)>;

/// A freshly signed session token together with the data to persist.
pub(crate) struct MintedSession {
    /// The signed token string handed to the client.
    pub token: String,
    /// PASERK id of the verifying key, carried in the token footer.
    pub kid: String,
    /// PASERK form of the verifying key, stored server-side.
    pub public_key: String,
    /// The `exp` claim embedded in the token, as its RFC 3339 string.
    pub expires: String,
}

/// Result of reading the `kid` claim out of a token footer.
pub(crate) enum FooterKid {
    /// The token or its footer does not parse.
    BadFormat,
    /// The footer parses but carries no string `kid` claim.
    NoKid,
    /// The `kid` claim.
    Kid(String),
}

/// Relies on pasetors' `AsymmetricKeyPair::<V4>::generate`, `paserk::Id::from`
/// and `FormatAsPaserk::fmt` (the PASERK id is a deterministic digest of the
/// public key's PASERK form), `Claims::new_expires_in` (sets `iat`, `nbf` to
/// now and `exp` to now plus the duration, RFC 3339 with zero fractional
/// seconds, which chrono's parser accepts), `Claims::issuer`,
/// `Footer::key_id` and `public::sign` (the signed token embeds exactly these
/// claims and this footer, and verifies under the matching public key and the
/// same implicit assertion).
#[verifier::external_body]
pub(crate) fn mint_session(user_id_dec: &str, valid_secs: u64, implicit: &[u8]) -> (r: Option<
    MintedSession,
>)
    ensures
        r matches Some(m) ==> {
            &&& m.kid@ == paserk_kid_of(m.public_key@)
            &&& footer_kid_of(m.token@) == Some(Some(m.kid@))
            &&& session_claims_of(m.public_key@, m.token@, implicit@) == Some(
                (Some(user_id_dec@), Some(m.expires@)),
            )
            &&& rfc3339_ts_of(m.expires@) is Some
        },
{
    let kp = AsymmetricKeyPair::<V4>::generate().ok()?;
    let id = Id::from(&kp.public);
    let mut claims = Claims::new_expires_in(&Duration::from_secs(valid_secs)).ok()?;
    claims.issuer(user_id_dec).ok()?;
    let expires = claims.get_claim("exp")?.as_str()?.to_owned();
    let mut kid = String::new();
    id.fmt(&mut kid).ok()?;
    let mut pk = String::new();
    kp.public.fmt(&mut pk).ok()?;
    let mut footer = Footer::new();
    footer.key_id(&id);
    let token = public::sign(&kp.secret, &claims, Some(&footer), Some(implicit)).ok()?;
    Some(MintedSession { token, kid, public_key: pk, expires })
}

/// Relies on pasetors' `UntrustedToken::<Public, V4>::try_from`,
/// `Footer::parse_bytes` and `Footer::get_claim("kid")`: all deterministic in
/// the token string.
#[verifier::external_body]
pub(crate) fn token_footer_kid(token: &str) -> (r: FooterKid)
    ensures
        r matches FooterKid::Kid(k) ==> footer_kid_of(token@) == Some(Some(k@)),
        r is NoKid ==> footer_kid_of(token@) == Some(None::<Seq<char>>),
        r is BadFormat ==> footer_kid_of(token@) is None,
{
    let parsed = match UntrustedToken::<Public, V4>::try_from(token) { Ok(t) => t, Err(_) => return FooterKid::BadFormat };
    let mut footer = Footer::new();
    if footer.parse_bytes(parsed.untrusted_footer()).is_err() {
        return FooterKid::BadFormat;
    }
    match footer.get_claim("kid").and_then(|v| v.as_str()) {
        Some(k) => FooterKid::Kid(k.to_owned()),
        None => FooterKid::NoKid,
    }
}

/// Relies on pasetors' `AsymmetricPublicKey::<V4>::try_from`,
/// `UntrustedToken::<Public, V4>::try_from` and `public::verify` with the
/// default `ClaimsValidationRules` (which also check `exp`, `nbf` and `iat`
/// against the wall clock, so success cannot be promised here); on success
/// the payload claims are exactly those embedded at signing, and the `iss`
/// and `exp` string claims are handed back.
#[verifier::external_body]
pub(crate) fn paseto_verify_session(public_key: &str, token: &str, implicit: &[u8]) -> (r: Option<
    (Option<String>, Option<String>),
>)
    ensures
        r matches Some(cl) ==> session_claims_of(public_key@, token@, implicit@) == Some(
            (cl.0.deep_view(), cl.1.deep_view()),
        ),
{
    let pk = AsymmetricPublicKey::<V4>::try_from(public_key).ok()?;
    let parsed = UntrustedToken::<Public, V4>::try_from(token).ok()?;
    let rules = ClaimsValidationRules::new();
    let trusted = public::verify(&pk, &parsed, &rules, None, Some(implicit)).ok()?;
    let claims = trusted.payload_claims()?;
    let iss = claims.get_claim("iss").and_then(|v| v.as_str()).map(str::to_owned);
    let exp = claims.get_claim("exp").and_then(|v| v.as_str()).map(str::to_owned);
    Some((iss, exp))
}

} // verus!
