//! Rendering of UNIX timestamps for the message-history reply. The
//! calendar arithmetic is done by the chrono library behind a trusted
//! wrapper; the rest of the crate only depends on the rendering being a
//! function of the timestamp.

use vstd::prelude::*;

verus! {

/// Latest timestamp the rendering accepts: 9999-12-31T23:59:59 UTC, far
/// inside the range the calendar library covers.
pub const MAX_RENDERED_TIMESTAMP: i64 = 253402300799;

/// The `"%Y-%m-%d %H:%M"` UTC rendering of a UNIX timestamp, as the chrono
/// library computes it.
pub uninterp spec fn timestamp_text(ts: int) -> Seq<char>;

/// Relies on chrono::DateTime::<Utc>::from_timestamp and DateTime::format:
/// the rendering depends on the timestamp alone, and every timestamp from
/// 1970 through year 9999 is within the range of chrono's calendar, so the
/// conversion succeeds on the admitted inputs.
#[verifier::external_body]
pub(crate) fn format_timestamp(ts: i64) -> (r: String)
    requires
        0 <= ts <= MAX_RENDERED_TIMESTAMP,
    ensures
        r@ == timestamp_text(ts as int),
{
    match chrono::DateTime::<chrono::Utc>::from_timestamp(ts, 0) {
        Some(dt) => format!("{}", dt.format("%Y-%m-%d %H:%M")),
        None => String::new(),
    }
}

} // verus!
