//! Calendar renderings of a point in time, held as whole seconds since the
//! Unix epoch in UTC. The calendar arithmetic is chrono's.

use vstd::prelude::*;
use chrono::DateTime;
use chrono::Utc;
use std::str::FromStr;

verus! {

/// First second of the span in which chrono can hold a UTC date and time.
pub const MIN_EPOCH_SECONDS: i64 = -8_334_601_228_800;

/// Last second of the span in which chrono can hold a UTC date and time.
pub const MAX_EPOCH_SECONDS: i64 = 8_210_266_876_799;

/// First second of year 0000, the earliest year that RFC 2822 can write.
pub const MIN_RFC2822_SECONDS: i64 = -62_167_219_200;

/// Last second of year 9999, the latest year that RFC 2822 can write.
pub const MAX_RFC2822_SECONDS: i64 = 253_402_300_799;

/// Whether `secs` is a time that a post may carry.
pub open spec fn in_span(secs: int) -> bool {
    MIN_EPOCH_SECONDS <= secs <= MAX_EPOCH_SECONDS
}

/// Whether `secs` falls in a year that RFC 2822 can write (0000 to 9999).
pub open spec fn in_rfc2822_span(secs: int) -> bool {
    MIN_RFC2822_SECONDS <= secs <= MAX_RFC2822_SECONDS
}

/// The whole epoch seconds (UTC) that chrono reads from `token` as an
/// RFC 3339 date and time, `None` where chrono rejects the token.
pub uninterp spec fn parsed_epoch_seconds(token: Seq<char>) -> Option<i64>;

/// chrono's RFC 3339 text of the UTC time `secs`.
pub uninterp spec fn rfc3339_text(secs: int) -> Seq<char>;

/// chrono's RFC 2822 text of the UTC time `secs`.
pub uninterp spec fn rfc2822_text(secs: int) -> Seq<char>;

/// Calls chrono's `FromStr` for `DateTime<Utc>` and keeps the whole seconds
/// of the result (`DateTime::timestamp`). Nothing is claimed beyond the fact
/// that the outcome depends on the token alone.
#[verifier::external_body]
pub(crate) fn parse_epoch_seconds(token: &str) -> (r: Option<i64>)
    ensures
        r == parsed_epoch_seconds(token@),
{
    DateTime::<Utc>::from_str(token).ok().map(|d| d.timestamp())
}

/// Calls `DateTime::from_timestamp` and `DateTime::to_rfc3339`. Within the
/// span chrono builds the time (it refuses only seconds outside the span), and
/// the renderer writes every year; the text depends on `secs` alone.
#[verifier::external_body]
pub(crate) fn rfc3339_of(secs: i64) -> (r: String)
    requires
        in_span(secs as int),
    ensures
        r@ == rfc3339_text(secs as int),
{
    DateTime::<Utc>::from_timestamp(secs, 0).unwrap().to_rfc3339()
}

/// Calls `DateTime::from_timestamp` and `DateTime::to_rfc2822`, which panics
/// on a year before 0000 or after 9999: those are left out. The text depends
/// on `secs` alone.
#[verifier::external_body]
pub(crate) fn rfc2822_of(secs: i64) -> (r: String)
    requires
        in_rfc2822_span(secs as int),
    ensures
        r@ == rfc2822_text(secs as int),
{
    DateTime::<Utc>::from_timestamp(secs, 0).unwrap().to_rfc2822()
}

/// Whether `secs` is a time that a post may carry.
pub fn is_in_span(secs: i64) -> (r: bool)
    ensures
        r == in_span(secs as int),
{
    MIN_EPOCH_SECONDS <= secs && secs <= MAX_EPOCH_SECONDS
}

/// Whether `secs` falls in a year that RFC 2822 can write.
pub fn is_in_rfc2822_span(secs: i64) -> (r: bool)
    ensures
        r == in_rfc2822_span(secs as int),
{
    MIN_RFC2822_SECONDS <= secs && secs <= MAX_RFC2822_SECONDS
}

} // verus!
