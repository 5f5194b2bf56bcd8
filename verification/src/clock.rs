//! The displayed timestamp.
//!
//! Every rendering context carries a formatted timestamp. The instant
//! comes from the system clock; the engine shifts it by a fixed offset
//! before formatting — three minutes west, one day back, twelve hours
//! forward — and the formatting itself is a pure function of the shifted
//! timestamp.

use vstd::prelude::*;

verus! {

/// Seconds the displayed instant differs from the clock's: three minutes
/// of western offset, minus one day, plus twelve hours.
pub const DISPLAY_SHIFT: i64 = -180 - 86400 + 43200;

/// The text `%Y-%m-%d %I:%M %p` formatting gives a Unix timestamp: a
/// function of the timestamp alone.
pub uninterp spec fn datetime_text_of(ts: int) -> Seq<char>;

/// Relies on `chrono::Utc::now`: the current instant. Nothing is assumed
/// of the clock's answer.
#[verifier::external_body]
fn now_unix() -> (r: i64) {
    chrono::Utc::now().timestamp()
}

/// Relies on `chrono::DateTime::from_timestamp` and `format`: formats
/// the instant as `%Y-%m-%d %I:%M %p`, with English month and meridiem
/// names whatever the machine's locale; a timestamp outside chrono's
/// range gives the empty string.
#[verifier::external_body]
fn format_unix(ts: i64) -> (r: String)
    ensures
        r@ == datetime_text_of(ts as int),
{
    match chrono::DateTime::from_timestamp(ts, 0) {
        Some(dt) => dt.format("%Y-%m-%d %I:%M %p").to_string(),
        None => String::new(),
    }
}

/// Formats the shifted instant `ts`.
pub fn format_shifted(ts: i64) -> (r: String)
    ensures
        ({
            let shifted = if ts + DISPLAY_SHIFT >= i64::MIN {
                ts + DISPLAY_SHIFT
            } else {
                ts as int
            };
            r@ == datetime_text_of(shifted)
        }),
{
    match ts.checked_add(DISPLAY_SHIFT) {
        Some(shifted) => format_unix(shifted),
        None => format_unix(ts),
    }
}

/// The timestamp the engine displays now: the clock's instant, shifted
/// and formatted. Two calls may differ — the clock moves — but every
/// answer is the formatting of some instant.
pub fn now_datetime() -> (r: String)
    ensures
        exists|t: int| r@ == datetime_text_of(t),
{
    format_shifted(now_unix())
}

} // verus!
