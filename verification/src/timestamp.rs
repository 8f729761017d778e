//! Points in time, as a header's `date` field gives them.
//!
//! Reading and writing the textual forms is left to `chrono`; the
//! pipeline itself only orders instants.

use vstd::prelude::*;

verus! {

/// An instant, with the offset from UTC under which it was written.
#[derive(Clone, Copy, Debug, PartialEq, Eq)]
pub struct Timestamp {
    /// Whole seconds since 1970-01-01T00:00:00Z, leap seconds not counted.
    pub seconds: i64,
    /// Nanoseconds past that second. Within a leap second `chrono` counts
    /// on past a billion.
    pub nanos: u32,
    /// Seconds by which local time is ahead of UTC.
    pub offset: i32,
}

/// Local second count of 0000-01-01T00:00:00, the first that RFC 2822
/// can write.
pub const RFC2822_FIRST: i64 = -62_167_219_200;

/// Local second count of 9999-12-31T23:59:59, the last that RFC 2822
/// can write.
pub const RFC2822_LAST: i64 = 253_402_300_799;

/// `chrono::ParseError`, the reason `chrono` gives for rejecting a text.
/// It is carried through unopened.
#[verifier::external_type_specification]
#[verifier::external_body]
pub struct ExParseError(chrono::ParseError);

/// The timestamp that `chrono::DateTime::parse_from_rfc3339` reads out of
/// `text`, or `None` where it rejects `text`.
pub uninterp spec fn rfc3339_timestamp(text: Seq<char>) -> Option<Timestamp>;

/// The text that `chrono::DateTime::to_rfc2822` writes for the instant
/// `seconds`, `nanos` seen under `offset`, or `None` where `chrono`
/// cannot represent that instant or that offset.
pub uninterp spec fn rfc2822_text(seconds: i64, nanos: u32, offset: i32) -> Option<Seq<char>>;

/// `chrono::DateTime::parse_from_rfc3339`, with the result taken apart
/// by `DateTime::timestamp`, `DateTime::timestamp_subsec_nanos` and
/// `FixedOffset::local_minus_utc`. The parser reads nothing but its
/// argument, so what it accepts and what it yields is a function of the
/// text; the contract gives that function its name and claims no more.
#[verifier::external_body]
fn parse_from_rfc3339(text: &str) -> (parsed: Result<Timestamp, chrono::ParseError>)
    ensures
        parsed is Ok <==> rfc3339_timestamp(text@) is Some,
        parsed matches Ok(at) ==> rfc3339_timestamp(text@) == Some(at),
{
    let at = chrono::DateTime::parse_from_rfc3339(text)?;
    Ok(
        Timestamp {
            seconds: at.timestamp(),
            nanos: at.timestamp_subsec_nanos(),
            offset: at.offset().local_minus_utc(),
        },
    )
}

/// `chrono::DateTime::to_rfc2822` on the instant that
/// `DateTime::from_timestamp` makes of `seconds` and `nanos`, moved to
/// the zone that `FixedOffset::east_opt` makes of `offset`. Either
/// constructor may decline, which gives `None`. `to_rfc2822` panics
/// unless the local year lies in 0..=9999; `requires` keeps to the
/// seconds of those years. The text is written with fixed English names
/// and depends on the three numbers alone.
#[verifier::external_body]
fn write_rfc2822(seconds: i64, nanos: u32, offset: i32) -> (text: Option<String>)
    requires
        RFC2822_FIRST <= seconds + offset <= RFC2822_LAST,
    ensures
        text is Some <==> rfc2822_text(seconds, nanos, offset) is Some,
        text matches Some(t) ==> rfc2822_text(seconds, nanos, offset) == Some(t@),
{
    let utc = chrono::DateTime::from_timestamp(seconds, nanos)?;
    let zone = chrono::FixedOffset::east_opt(offset)?;
    Some(utc.with_timezone(&zone).to_rfc2822())
}

impl Timestamp {
    /// Whether `self` is a later instant than `other`. The offsets play
    /// no part: two timestamps of one instant tie.
    pub open spec fn is_after(self, other: Timestamp) -> bool {
        self.seconds > other.seconds || (self.seconds == other.seconds && self.nanos
            > other.nanos)
    }

    /// Whether the local year has the four digits that RFC 2822 writes.
    pub open spec fn has_rfc2822_form(self) -> bool {
        RFC2822_FIRST <= self.seconds + self.offset <= RFC2822_LAST
    }

    /// The RFC 2822 form of `self`, where it has one.
    pub open spec fn rfc2822(self) -> Option<Seq<char>> {
        if self.has_rfc2822_form() {
            rfc2822_text(self.seconds, self.nanos, self.offset)
        } else {
            None
        }
    }

    /// Whether `self` is a later instant than `other`.
    pub fn later_than(&self, other: &Timestamp) -> (later: bool)
        ensures
            later == self.is_after(*other),
    {
        self.seconds > other.seconds || (self.seconds == other.seconds && self.nanos
            > other.nanos)
    }

    /// Reads an RFC 3339 date and time, such as `2024-03-01T09:30:00+01:00`.
    pub fn parse(text: &str) -> (parsed: Option<Timestamp>)
        ensures
            parsed == rfc3339_timestamp(text@),
    {
        match parse_from_rfc3339(text) {
            Ok(at) => Some(at),
            Err(_) => None,
        }
    }

    /// Writes `self` as RFC 2822 has it, such as
    /// `Fri, 1 Mar 2024 09:30:00 +0100`.
    pub fn to_rfc2822(&self) -> (text: Option<String>)
        ensures
            text is Some <==> self.rfc2822() is Some,
            text matches Some(t) ==> self.rfc2822() == Some(t@),
    {
        let ahead: i64 = self.offset as i64;
        if RFC2822_FIRST - ahead <= self.seconds && self.seconds <= RFC2822_LAST - ahead {
            write_rfc2822(self.seconds, self.nanos, self.offset)
        } else {
            None
        }
    }
}

/// Later instants come first; this is a strict weak order on timestamps.
pub proof fn lemma_is_after_orders()
    ensures
        forall|a: Timestamp, b: Timestamp| #[trigger] a.is_after(b) ==> !b.is_after(a),
        forall|a: Timestamp, b: Timestamp, c: Timestamp|
            !#[trigger] a.is_after(b) && !#[trigger] b.is_after(c) ==> !a.is_after(c),
{
}

} // verus!
