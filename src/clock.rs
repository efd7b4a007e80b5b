//! The wall clock and the calendar text of a timestamp, both from chrono.
use vstd::prelude::*;

verus! {

/// The calendar text `YYYY-MM-DD HH:MM:SS.ffffff` (UTC) of a timestamp given
/// in nanoseconds since the Unix epoch.
pub uninterp spec fn timestamp_text(nanos: int) -> Seq<char>;

/// Relies on chrono's `DateTime::from_timestamp_nanos`, total on `i64`, and
/// on its `format` with `%Y-%m-%d %H:%M:%S%.6f`: the text depends on the
/// timestamp alone.
#[verifier::external_body]
pub(crate) fn format_timestamp(nanos: i64) -> (r: String)
    ensures
        r@ == timestamp_text(nanos as int),
{
    chrono::DateTime::from_timestamp_nanos(nanos).format("%Y-%m-%d %H:%M:%S%.6f").to_string()
}

/// Relies on chrono's `Utc::now` and `timestamp_nanos_opt`: the current time
/// in nanoseconds since the Unix epoch, `None` outside the years 1677 to 2262.
#[verifier::external_body]
pub(crate) fn now_nanos() -> (r: Option<i64>) {
    chrono::Utc::now().timestamp_nanos_opt()
}

/// The current time in nanoseconds since the Unix epoch; a clock beyond the
/// range of `i64` nanoseconds reads as the largest timestamp.
pub fn current_timestamp() -> (r: i64) {
    match now_nanos() {
        Some(t) => t,
        None => i64::MAX,
    }
}

} // verus!
