//! The timestamp parse behind the timestamp-nanosecond coercion.

use vstd::prelude::*;

verus! {

/// What parsing a date-time string `s` against the strftime format `fmt`
/// and counting whole nanoseconds since the epoch (UTC) yields; `None`
/// stands both for a failed parse and for an instant whose nanosecond
/// count does not fit a 64-bit integer. The result depends on the two
/// strings alone.
pub uninterp spec fn ts_parse_of(s: Seq<char>, fmt: Seq<char>) -> Option<i64>;

/// Relies on chrono's `NaiveDateTime::parse_from_str`, `NaiveDateTime::and_utc`
/// and `DateTime::timestamp_nanos_opt`: the parse consumes `s` against `fmt`
/// and, on success, the instant read as UTC is converted to whole nanoseconds
/// since the epoch where that count fits a 64-bit integer.
#[verifier::external_body]
pub(crate) fn parse_timestamp_nanos(s: &str, fmt: &str) -> (r: Option<i64>)
    ensures
        r == ts_parse_of(s@, fmt@),
{
    match chrono::NaiveDateTime::parse_from_str(s, fmt) {
        Ok(ndt) => ndt.and_utc().timestamp_nanos_opt(),
        Err(_) => None,
    }
}

} // verus!
