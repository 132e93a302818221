use vstd::prelude::*;

verus! {

/// The second since the Unix epoch that an RFC 3339 string names, or
/// nothing when the string is not valid RFC 3339. Which of the two
/// holds depends on the characters alone.
pub uninterp spec fn rfc3339_secs(s: Seq<char>) -> Option<int>;

/// Relies on chrono's `DateTime::parse_from_rfc3339`, which accepts or
/// rejects a string on its characters alone, and on chrono's
/// `DateTime::timestamp`, which reduces the accepted date to whole
/// seconds since the Unix epoch.
#[verifier::external_body]
pub(crate) fn parse_rfc3339_secs(s: &str) -> (r: Option<i64>)
    ensures
        r is Some <==> rfc3339_secs(s@) is Some,
        r matches Some(t) ==> rfc3339_secs(s@) == Some(t as int),
{
    match chrono::DateTime::parse_from_rfc3339(s) {
        Ok(d) => Some(d.timestamp()),
        Err(_) => None,
    }
}

} // verus!
