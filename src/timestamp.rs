//! Timestamps shown as UTC date and time text.

use vstd::prelude::*;

verus! {

/// The text chrono writes for a count of seconds since the Unix epoch, in
/// UTC, with the pattern `%Y-%m-%d %T` (for example `2021-06-01 00:00:00`).
pub uninterp spec fn utc_timestamp_text(secs: int) -> Seq<char>;

/// The first second chrono can show: -262143-01-01 00:00:00 UTC.
pub const TIMESTAMP_MIN: i64 = -8334601228800;

/// The last second chrono can show: 262142-12-31 23:59:59 UTC.
pub const TIMESTAMP_MAX: i64 = 8210266876799;

/// Relies on chrono's `DateTime::<Utc>::from_timestamp` (`None` exactly
/// outside the dates chrono covers, years -262143 to 262142) and on
/// `DateTime::format` with `%Y-%m-%d %T`.
#[verifier::external_body]
fn format_utc(secs: i64) -> (r: Option<String>)
    ensures
        r is Some <==> TIMESTAMP_MIN <= secs <= TIMESTAMP_MAX,
        r matches Some(t) ==> t@ == utc_timestamp_text(secs as int),
{
    match chrono::DateTime::from_timestamp(secs, 0) {
        Some(d) => Some(d.format("%Y-%m-%d %T").to_string()),
        None => None,
    }
}

/// What `stamp_text` returns for `secs`: the UTC text of a timestamp that
/// chrono can show, and the empty text otherwise.
pub open spec fn is_stamp_text(secs: Option<i64>, t: Seq<char>) -> bool {
    match secs {
        Some(s) if TIMESTAMP_MIN <= s <= TIMESTAMP_MAX => t == utc_timestamp_text(s as int),
        _ => t.len() == 0,
    }
}

/// The text of a file timestamp, or the empty string where the platform
/// gave none or chrono cannot show it.
pub fn stamp_text(secs: Option<i64>) -> (r: String)
    ensures
        is_stamp_text(secs, r@),
{
    match secs {
        Some(s) => match format_utc(s) {
            Some(t) => t,
            None => String::new(),
        },
        None => String::new(),
    }
}

} // verus!
