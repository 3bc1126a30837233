//! Instants with a UTC offset, held as plain values, and RFC 3339 parsing.

use vstd::prelude::*;

verus! {

/// An instant with a UTC offset: seconds since the Unix epoch, the nanosecond
/// within that second, and the offset from UTC in seconds.
#[derive(Clone, Copy, Debug, PartialEq, Eq, Structural)]
pub struct GachaTime {
    pub unix_timestamp: i64,
    pub nanosecond: u32,
    pub offset_seconds: i32,
}

/// Earliest Unix timestamp an RFC 3339 text can denote (year 0000, offset +23:59).
pub const RFC3339_MIN_TIMESTAMP: i64 = -62_167_305_540;

/// Latest Unix timestamp an RFC 3339 text can denote (year 9999, offset -23:59).
pub const RFC3339_MAX_TIMESTAMP: i64 = 253_402_387_139;

/// Whether `t` lies in the range of instants that RFC 3339 texts denote.
pub open spec fn is_rfc3339_time(t: GachaTime) -> bool {
    &&& RFC3339_MIN_TIMESTAMP <= t.unix_timestamp <= RFC3339_MAX_TIMESTAMP
    &&& t.nanosecond < 1_000_000_000
    &&& -86_399 <= t.offset_seconds <= 86_399
}

/// The instant `t` moved by `seconds`, keeping its nanosecond and offset.
pub open spec fn shift_seconds_spec(t: GachaTime, seconds: int) -> GachaTime {
    GachaTime {
        unix_timestamp: (t.unix_timestamp + seconds) as i64,
        nanosecond: t.nanosecond,
        offset_seconds: t.offset_seconds,
    }
}

/// Whether instant `a` is at or after instant `b`.
pub open spec fn time_ge_spec(a: GachaTime, b: GachaTime) -> bool {
    a.unix_timestamp > b.unix_timestamp || (a.unix_timestamp == b.unix_timestamp
        && a.nanosecond >= b.nanosecond)
}

impl GachaTime {
    /// Whether `self` is at or after `other` (offsets do not matter).
    pub fn is_at_or_after(&self, other: &GachaTime) -> (r: bool)
        ensures
            r == time_ge_spec(*self, *other),
    {
        self.unix_timestamp > other.unix_timestamp || (self.unix_timestamp
            == other.unix_timestamp && self.nanosecond >= other.nanosecond)
    }
}

/// What `time::OffsetDateTime::parse(text, &Rfc3339)` yields for `text`: the
/// Unix timestamp, nanosecond and UTC offset in seconds of the parsed instant,
/// or the text (`Display`) of the parse error.
pub uninterp spec fn rfc3339_parse(text: Seq<char>) -> Result<(i64, u32, i32), Seq<char>>;

/// Calls `time::OffsetDateTime::parse` with the `Rfc3339` format and hands back
/// the parsed instant, or the parse error as its `Display` text; both are
/// `rfc3339_parse` of the text. The parser takes exactly four year digits and
/// an offset of at most 23 hours 59 minutes, so a parsed instant lies in the
/// RFC 3339 range. Which texts it accepts, and the wording of its errors, are
/// left to the `time` crate.
#[verifier::external_body]
pub fn parse_rfc3339(text: &str) -> (r: Result<GachaTime, String>)
    ensures
        match rfc3339_parse(text@) {
            Ok((ts, ns, off)) => r matches Ok(t) && t.unix_timestamp == ts && t.nanosecond == ns
                && t.offset_seconds == off && is_rfc3339_time(t),
            Err(message) => r matches Err(m) && m@ == message,
        },
{
    match ::time::OffsetDateTime::parse(text, &::time::format_description::well_known::Rfc3339) {
        Ok(t) => Ok(
            GachaTime {
                unix_timestamp: t.unix_timestamp(),
                nanosecond: t.nanosecond(),
                offset_seconds: t.offset().whole_seconds(),
            },
        ),
        Err(e) => Err(e.to_string()),
    }
}

} // verus!
