//! Trusted wrappers around `chrono`: the wall clock and RFC 3339 timestamps.

use vstd::prelude::*;

verus! {

/// The unix timestamp (in seconds) that chrono's RFC 3339 parser reads out of
/// `s`; `None` when `s` is not an accepted datetime string.
pub uninterp spec fn rfc3339_ts_of(s: Seq<char>) -> Option<int>;

/// Relies on `chrono::Utc::now`: the current unix timestamp in seconds.
/// Nothing is assumed about its value.
#[verifier::external_body]
pub(crate) fn now_ts() -> i64 {
    chrono::Utc::now().timestamp()
}

/// Relies on `chrono::DateTime::<Utc>::from_str` (RFC 3339 parsing), which
/// depends on the input string alone.
#[verifier::external_body]
pub(crate) fn parse_rfc3339_ts(s: &str) -> (r: Option<i64>)
    ensures
        r matches Some(t) ==> rfc3339_ts_of(s@) == Some(t as int),
        r is None ==> rfc3339_ts_of(s@) is None,
{
    match s.parse::<chrono::DateTime<chrono::Utc>>() {
        Ok(d) => Some(d.timestamp()),
        Err(_) => None,
    }
}

} // verus!
