use vstd::prelude::*;

verus! {

/// Epoch milliseconds denoted by an RFC 3339 date-and-time string, or `None`
/// when the string is not a valid RFC 3339 value. Parsing a timestamp is a
/// pure function of the string, so the result bears a name that contracts can
/// share.
pub uninterp spec fn rfc3339_epoch_millis(s: Seq<char>) -> Option<i64>;

/// Relies on chrono's `DateTime::parse_from_rfc3339` (a pure parser of the
/// input string, accepting exactly the valid RFC 3339 date-and-time values)
/// and `DateTime::timestamp_millis` (the denoted instant in non-leap
/// milliseconds since the Unix epoch).
#[verifier::external_body]
pub fn parse_rfc3339_millis(s: &str) -> (r: Option<i64>)
    ensures
        r == rfc3339_epoch_millis(s@),
{
    match chrono::DateTime::parse_from_rfc3339(s) {
        Ok(dt) => Some(dt.timestamp_millis()),
        Err(_) => None,
    }
}

} // verus!
