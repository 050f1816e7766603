use vstd::prelude::*;
use crate::valid_ts;

verus! {

/// The RFC 3339 text that chrono renders for a timestamp given as
/// milliseconds since the Unix epoch. The text depends on the timestamp
/// alone, so it can stand as a name in contracts.
pub uninterp spec fn rfc3339_of(t: int) -> Seq<char>;

/// Relies on chrono::Utc::now and chrono::DateTime::timestamp_millis:
/// the current time as milliseconds since the Unix epoch. Nothing is
/// promised of the reading; callers clamp it into the storable range.
/// chrono aborts if the machine clock is set before the Unix epoch.
#[verifier::external_body]
pub(crate) fn now_millis() -> i64 {
    chrono::Utc::now().timestamp_millis()
}

/// Relies on chrono::DateTime::from_timestamp_millis, which accepts every
/// millisecond count in the storable range, and on
/// chrono::DateTime::to_rfc3339, whose output depends on the datetime alone.
#[verifier::external_body]
pub(crate) fn fmt_rfc3339_millis(t: i64) -> (r: String)
    requires
        valid_ts(t as int),
    ensures
        r@ == rfc3339_of(t as int),
{
    match chrono::DateTime::from_timestamp_millis(t) {
        Some(d) => d.to_rfc3339(),
        None => String::new(),
    }
}

/// Relies on chrono::DateTime::parse_from_rfc3339 and
/// chrono::DateTime::timestamp_millis: parsing the RFC 3339 text that
/// chrono rendered for a timestamp yields that timestamp back.
#[verifier::external_body]
pub(crate) fn parse_rfc3339_millis(s: &str) -> (r: Option<i64>)
    ensures
        forall|t: i64| valid_ts(t as int) && s@ == #[trigger] rfc3339_of(t as int) ==> r == Some(t),
{
    match chrono::DateTime::parse_from_rfc3339(s) {
        Ok(d) => Some(d.timestamp_millis()),
        Err(_) => None,
    }
}

} // verus!
