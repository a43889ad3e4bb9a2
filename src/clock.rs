use vstd::prelude::*;

verus! {

/// The instant an RFC 3339 text denotes, in nanoseconds since the Unix
/// epoch; `None` where the text is no RFC 3339 date-time or the instant
/// does not fit in an `i64`.
pub uninterp spec fn rfc3339_nanos(s: Seq<char>) -> Option<i64>;

/// Relies on `chrono::DateTime::parse_from_rfc3339` and
/// `DateTime::timestamp_nanos_opt`: parsing and conversion depend on the text alone.
#[verifier::external_body]
pub(crate) fn parse_rfc3339_nanos(s: &str) -> (r: Option<i64>)
    ensures
        r == rfc3339_nanos(s@),
{
    match chrono::DateTime::parse_from_rfc3339(s) {
        Ok(dt) => dt.timestamp_nanos_opt(),
        Err(_) => None,
    }
}

/// Relies on `uuid::Uuid::now_v7` and its `Display`: a fresh version 7 id,
/// time-ordered, written as 36 hyphenated hex characters. Nothing else is
/// promised of its value.
#[verifier::external_body]
pub(crate) fn new_batch_id() -> (r: String)
    ensures
        r@.len() == 36,
{
    uuid::Uuid::now_v7().to_string()
}

} // verus!
