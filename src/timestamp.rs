use vstd::prelude::*;
use crate::types::Timestamp;

verus! {

/// The UTC instant, as (seconds since the epoch, nanoseconds), that an RFC 3339 text
/// denotes; `None` where the text is not RFC 3339.
pub uninterp spec fn rfc3339_instant(text: Seq<char>) -> Option<(i64, u32)>;

/// The pair of numbers that a timestamp holds.
pub open spec fn instant_of(t: Option<Timestamp>) -> Option<(i64, u32)> {
    match t {
        Some(t) => Some((t.secs, t.nanos)),
        None => None,
    }
}

/// Relies on `chrono::DateTime::parse_from_rfc3339`, read in UTC through `timestamp`
/// and `timestamp_subsec_nanos`: the result depends on the text alone.
#[verifier::external_body]
pub(crate) fn parse_rfc3339(text: &str) -> (r: Option<Timestamp>)
    ensures
        instant_of(r) == rfc3339_instant(text@),
{
    chrono::DateTime::parse_from_rfc3339(text).ok().map(|dt| Timestamp {
        secs: dt.timestamp(),
        nanos: dt.timestamp_subsec_nanos(),
    })
}

} // verus!
