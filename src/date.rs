//! Dates in the fixed-length format of HTTP (`Sun, 06 Nov 1994 08:49:37 GMT`).
use vstd::prelude::*;

verus! {

/// The date `secs` seconds after the Unix epoch, written as an HTTP date; `None` where
/// the date lies outside the range that the calendar library covers.
pub uninterp spec fn imf_fixdate(secs: int) -> Option<Seq<char>>;

/// Formats `secs` seconds after the Unix epoch as an HTTP date.
///
/// Relies on `time::OffsetDateTime::from_unix_timestamp` and
/// `time::OffsetDateTime::format` (with a description read by
/// `time::format_description::parse`): the text depends on `secs` alone, and `None`
/// comes back where the timestamp is out of the calendar's range.
#[verifier::external_body]
pub fn format_time(secs: i64) -> (r: Option<String>)
    ensures
        match r {
            Some(s) => imf_fixdate(secs as int) == Some(s@),
            None => imf_fixdate(secs as int) is None,
        },
{
    let description = time::format_description::parse(
        "[weekday repr:short], [day] [month repr:short] [year] [hour]:[minute]:[second] GMT",
    ).ok()?;
    time::OffsetDateTime::from_unix_timestamp(secs).ok()?.format(&description).ok()
}

} // verus!
