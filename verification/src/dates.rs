//! Calendar conversions. The catalog stores instants as Unix seconds; the
//! conversions between day strings and timestamps are delegated to chrono
//! behind trusted wrappers, and their results are given names so that the
//! callers' contracts stay exact.

use vstd::prelude::*;

verus! {

/// The timestamp (midnight UTC, Unix seconds) denoted by a `YYYY-MM-DD`
/// string, or `None` when the string is not a valid day in that format.
pub uninterp spec fn date_parse(s: Seq<char>) -> Option<i64>;

/// The `YYYY-MM-DD` rendering of a timestamp in Unix seconds.
pub uninterp spec fn ymd_display(ts: i64) -> Seq<char>;

/// Timestamps up to 9999-12-31T23:59:59Z render with a four-digit year.
pub const MAX_RENDERED_TIMESTAMP: i64 = 253402300799;

/// Relies on chrono's `NaiveDate::parse_from_str` with format `"%Y-%m-%d"`,
/// `NaiveDate::and_hms_opt(0, 0, 0)` (always `Some` for a valid midnight) and
/// `NaiveDateTime::and_utc().timestamp()`: the outcome is a function of the
/// input string alone.
#[verifier::external_body]
pub fn parse_publication_date(s: &str) -> (r: Option<i64>)
    ensures
        match r {
            Some(t) => date_parse(s@) == Some(t),
            None => date_parse(s@) is None,
        },
{
    match chrono::NaiveDate::parse_from_str(s, "%Y-%m-%d") {
        Ok(d) => Some(d.and_hms_opt(0, 0, 0).unwrap().and_utc().timestamp()),
        Err(_) => None,
    }
}

/// Relies on `chrono::Utc::now` and `DateTime::timestamp`: the current time
/// as Unix seconds. Nothing is assumed about the value.
#[verifier::external_body]
pub fn now_timestamp() -> i64 {
    chrono::Utc::now().timestamp()
}

/// Relies on chrono's `DateTime::<Utc>::from_timestamp` (which is `Some` for
/// the admitted range) and `"%Y-%m-%d"` formatting: the rendering depends on
/// the timestamp alone.
#[verifier::external_body]
pub fn format_ymd(ts: i64) -> (r: String)
    requires
        0 <= ts <= 253402300799,
    ensures
        r@ == ymd_display(ts),
{
    let dt = chrono::DateTime::<chrono::Utc>::from_timestamp(ts, 0).unwrap();
    dt.format("%Y-%m-%d").to_string()
}

} // verus!
