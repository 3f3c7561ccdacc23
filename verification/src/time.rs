//! Points in time with a UTC offset, and their ISO-8601 text form.

use vstd::prelude::*;
use vstd::string::*;

verus! {

/// A point in time: seconds and nanoseconds since the Unix epoch, and the UTC
/// offset in seconds (east positive) in which it is written.
#[derive(Debug, Clone, Copy, PartialEq, Eq, Structural)]
pub struct Timestamp {
    pub secs: i64,
    pub nanos: u32,
    pub offset: i32,
}

/// Whether `a` is a later instant than `b`. Offsets do not matter.
pub open spec fn later(a: Timestamp, b: Timestamp) -> bool {
    a.secs > b.secs || (a.secs == b.secs && a.nanos > b.nanos)
}

/// What `chrono` prints for an instant and an offset with a format; nothing
/// where it has no such date.
pub uninterp spec fn rendered_time(
    secs: i64,
    nanos: u32,
    offset: i32,
    format: Seq<char>,
) -> Option<Seq<char>>;

/// The formats in which times are written: the stored one, and those of the
/// terminal interface.
pub open spec fn is_known_format(format: Seq<char>) -> bool {
    ||| format == "%Y-%m-%dT%H:%M:%S%z"@
    ||| format == "%Y-%m-%d %H:%M:%S"@
    ||| format == "%Y-%m-%d %H:%M"@
    ||| format == "%H:%M:%S"@
}

/// Whether `chrono` has a date for an instant and an offset: from the start of
/// the year -262143 to the end of the year 262142, not in a leap second, and at
/// an offset within a day.
pub open spec fn is_date(secs: i64, nanos: u32, offset: i32) -> bool {
    &&& -8334601228800 <= secs <= 8210266876799
    &&& nanos < 1000000000
    &&& -86400 < offset < 86400
}

/// Whether the stored form keeps an instant and an offset, to the second: from
/// 1970 on and a day short of the year 10000, at an offset of whole minutes
/// within a day, and not in a leap second.
pub open spec fn is_storable(secs: i64, nanos: u32, offset: i32) -> bool {
    &&& 0 <= secs < 253402214400
    &&& nanos < 1000000000
    &&& -86400 < offset < 86400
    &&& offset % 60 == 0
}

/// The instant and offset that `chrono` reads in an RFC 3339 text.
pub uninterp spec fn rfc3339_time(s: Seq<char>) -> Option<(i64, u32, i32)>;

/// The instant and offset that `chrono` reads in a text of the format
/// `%Y-%m-%dT%H:%M:%S%z`.
pub uninterp spec fn compact_time(s: Seq<char>) -> Option<(i64, u32, i32)>;

/// `DateTime::format` on the date that `DateTime::from_timestamp` and
/// `FixedOffset::east_opt` make of the arguments: its text is named
/// [`rendered_time`], and is missing where either of them gives nothing. Both
/// give something within the range of dates, and the text is then not empty.
/// The stored form of a storable time has 24 characters (four digits for the
/// year, two for each other field, a sign and four digits for the offset). The
/// format is one that `chrono` knows: it panics on another.
#[verifier::external_body]
fn chrono_format(secs: i64, nanos: u32, offset: i32, format: &str) -> (r: Option<String>)
    requires
        is_known_format(format@),
    ensures
        match r {
            Some(s) => rendered_time(secs, nanos, offset, format@) == Some(s@),
            None => rendered_time(secs, nanos, offset, format@) is None,
        },
        is_date(secs, nanos, offset) ==> r is Some && r->0@.len() > 0,
        is_storable(secs, nanos, offset) ==> r is Some && (format@ == "%Y-%m-%dT%H:%M:%S%z"@
            ==> r->0@.len() == 24),
{
    let utc = chrono::DateTime::from_timestamp(secs, nanos)?;
    let zone = chrono::FixedOffset::east_opt(offset)?;
    Some(utc.with_timezone(&zone).format(format).to_string())
}

/// `DateTime::parse_from_rfc3339`: its result is named [`rfc3339_time`], as the
/// timestamp, the sub-second nanoseconds and the offset of the date. It wants a
/// colon in the offset, so it reads nothing in the stored form of a time.
#[verifier::external_body]
fn chrono_parse_rfc3339(s: &str) -> (r: Option<(i64, u32, i32)>)
    ensures
        r == rfc3339_time(s@),
        forall|secs: i64, nanos: u32, offset: i32|
            is_storable(secs, nanos, offset) && #[trigger] rendered_time(
                secs,
                nanos,
                offset,
                "%Y-%m-%dT%H:%M:%S%z"@,
            ) == Some(s@) ==> r is None,
{
    let d = chrono::DateTime::parse_from_rfc3339(s).ok()?;
    Some((d.timestamp(), d.timestamp_subsec_nanos(), d.offset().local_minus_utc()))
}

/// `DateTime::parse_from_str` with the format `%Y-%m-%dT%H:%M:%S%z`: its result
/// is named [`compact_time`], as the timestamp, the sub-second nanoseconds and
/// the offset of the date. What was written in that format from a storable time
/// is read back, to the second.
#[verifier::external_body]
fn chrono_parse_compact(s: &str) -> (r: Option<(i64, u32, i32)>)
    ensures
        r == compact_time(s@),
        forall|secs: i64, nanos: u32, offset: i32|
            is_storable(secs, nanos, offset) && #[trigger] rendered_time(
                secs,
                nanos,
                offset,
                "%Y-%m-%dT%H:%M:%S%z"@,
            ) == Some(s@) ==> r == Some((secs, 0u32, offset)),
{
    let d = chrono::DateTime::parse_from_str(s, "%Y-%m-%dT%H:%M:%S%z").ok()?;
    Some((d.timestamp(), d.timestamp_subsec_nanos(), d.offset().local_minus_utc()))
}

/// `chrono::Local::now`: the current time in the machine's time zone, as the
/// timestamp, the sub-second nanoseconds and the offset of the date. It is a
/// date, and not in a leap second, which the system clock does not count. Which
/// one it is rests on the clock and the time zone, and is not stated.
#[verifier::external_body]
fn chrono_now() -> (r: (i64, u32, i32))
    ensures
        is_date(r.0, r.1, r.2),
{
    let d = chrono::Local::now();
    (d.timestamp(), d.timestamp_subsec_nanos(), d.offset().local_minus_utc())
}

/// The text form of a time; empty when there is none.
pub open spec fn formatted(dt: Option<Timestamp>) -> Seq<char> {
    match dt {
        Some(t) => match rendered_time(t.secs, t.nanos, t.offset, "%Y-%m-%dT%H:%M:%S%z"@) {
            Some(s) => s,
            None => Seq::<char>::empty(),
        },
        None => Seq::<char>::empty(),
    }
}

/// The time that a text of either form denotes: the RFC 3339 reading where
/// there is one, else the compact one.
pub open spec fn chosen_reading(
    rfc: Option<(i64, u32, i32)>,
    compact: Option<(i64, u32, i32)>,
) -> Option<Timestamp> {
    match rfc {
        Some((secs, nanos, offset)) => Some(Timestamp { secs, nanos, offset }),
        None => match compact {
            Some((secs, nanos, offset)) => Some(Timestamp { secs, nanos, offset }),
            None => None,
        },
    }
}

/// The time that a text denotes.
pub open spec fn parsed(s: Seq<char>) -> Option<Timestamp> {
    if s.len() == 0 {
        None
    } else {
        chosen_reading(rfc3339_time(s), compact_time(s))
    }
}

impl Timestamp {
    /// Whether this time is a date that can be written.
    pub open spec fn dated(self) -> bool {
        is_date(self.secs, self.nanos, self.offset)
    }

    /// Whether the stored form keeps this time, to the second.
    pub open spec fn storable(self) -> bool {
        is_storable(self.secs, self.nanos, self.offset)
    }

    /// This time without its fraction of a second.
    pub open spec fn to_the_second(self) -> Timestamp {
        Timestamp { nanos: 0, ..self }
    }

    /// The same instant in UTC.
    pub open spec fn in_utc(self) -> Timestamp {
        Timestamp { offset: 0, ..self }
    }

    /// The same instant in UTC.
    #[must_use]
    pub fn to_utc(self) -> (r: Timestamp)
        ensures
            r == self.in_utc(),
    {
        Timestamp { offset: 0, ..self }
    }

    /// Whether this is a later instant than `other`.
    pub fn is_later_than(&self, other: &Timestamp) -> (r: bool)
        ensures
            r == later(*self, *other),
    {
        self.secs > other.secs || (self.secs == other.secs && self.nanos > other.nanos)
    }
}

/// Picks the reading of a text: RFC 3339 (`+08:00`) first, the compact form
/// (`+0800`) second.
pub fn pick_reading(rfc: Option<(i64, u32, i32)>, compact: Option<(i64, u32, i32)>) -> (r: Option<
    Timestamp,
>)
    ensures
        r == chosen_reading(rfc, compact),
{
    match rfc {
        Some((secs, nanos, offset)) => Some(Timestamp { secs, nanos, offset }),
        None => match compact {
            Some((secs, nanos, offset)) => Some(Timestamp { secs, nanos, offset }),
            None => None,
        },
    }
}

/// The current time with the machine's UTC offset.
///
/// It is a date that can be written, so its stored form is never the empty text
/// that stands for no time. Which one it is, is left to the clock and the time
/// zone.
#[must_use]
pub fn now_iso8601() -> (r: Timestamp)
    ensures
        r.dated(),
{
    let (secs, nanos, offset) = chrono_now();
    Timestamp { secs, nanos, offset }
}

/// Turns an optional time into the JSON string form (`+0800`, no colon), or
/// `""` when there is none.
#[must_use]
pub fn format_dt(dt: Option<Timestamp>) -> (r: String)
    ensures
        r@ == formatted(dt),
        dt matches Some(t) && t.dated() ==> r@.len() > 0,
        dt matches Some(t) && t.storable() ==> r@.len() == 24,
{
    match dt {
        Some(t) => match chrono_format(t.secs, t.nanos, t.offset, "%Y-%m-%dT%H:%M:%S%z") {
            Some(s) => s,
            None => String::new(),
        },
        None => String::new(),
    }
}

/// The text of a time in a format; `-` where there is no such date.
pub open spec fn shown(t: Timestamp, format: Seq<char>) -> Seq<char> {
    match rendered_time(t.secs, t.nanos, t.offset, format) {
        Some(s) => s,
        None => "-"@,
    }
}

/// Writes a time in one of the known formats, with `-` where there is no such
/// date.
#[must_use]
pub fn show(t: Timestamp, format: &str) -> (r: String)
    requires
        is_known_format(format@),
    ensures
        r@ == shown(t, format@),
{
    match chrono_format(t.secs, t.nanos, t.offset, format) {
        Some(s) => s,
        None => "-".to_owned(),
    }
}

/// Parses an ISO-8601 string.
///
/// Accepts both the RFC 3339 form (`+08:00`) and the form without a colon in
/// the offset (`+0800`). What [`format_dt`] wrote is read back, to the second.
#[must_use]
pub fn parse_dt(s: &str) -> (r: Option<Timestamp>)
    ensures
        r == parsed(s@),
        forall|t: Timestamp|
            t.storable() && s@.len() > 0 && #[trigger] formatted(Some(t)) == s@ ==> r == Some(
                t.to_the_second(),
            ),
{
    if s.is_empty() {
        return None;
    }
    match chrono_parse_rfc3339(s) {
        Some(d) => pick_reading(Some(d), None),
        None => pick_reading(None, chrono_parse_compact(s)),
    }
}

/// Being later is a strict order.
pub proof fn law_later_is_a_strict_order(a: Timestamp, b: Timestamp, c: Timestamp)
    ensures
        !later(a, a),
        later(a, b) ==> !later(b, a),
        later(a, b) && later(b, c) ==> later(a, c),
{
}

/// Of two instants outside a leap second the later one is the one with more
/// nanoseconds since the epoch; the offsets they are written in do not matter.
pub proof fn law_later_compares_instants(a: Timestamp, b: Timestamp)
    requires
        a.nanos < 1000000000,
        b.nanos < 1000000000,
    ensures
        later(a, b) <==> a.secs * 1000000000 + a.nanos > b.secs * 1000000000 + b.nanos,
{
}

/// Turning a time to UTC keeps the instant, and dropping its fraction of a
/// second never makes it later.
pub proof fn law_conversions_keep_the_instant(t: Timestamp)
    ensures
        t.in_utc().secs == t.secs && t.in_utc().nanos == t.nanos && t.in_utc().offset == 0,
        t.to_the_second().secs == t.secs && t.to_the_second().offset == t.offset,
        t.to_the_second().nanos == 0,
        !later(t.to_the_second(), t),
{
}

/// No time is written as the empty text and the empty text is no time; a text
/// that reads as RFC 3339 is read so, and any other in the compact form.
pub proof fn law_readings_are_preferred_in_order(s: Seq<char>, rfc: (i64, u32, i32))
    ensures
        formatted(None) == Seq::<char>::empty(),
        parsed(Seq::<char>::empty()) is None,
        s.len() > 0 && rfc3339_time(s) == Some(rfc) ==> parsed(s) == Some(
            Timestamp { secs: rfc.0, nanos: rfc.1, offset: rfc.2 },
        ),
        s.len() > 0 && rfc3339_time(s) is None && compact_time(s) == Some(rfc) ==> parsed(s)
            == Some(Timestamp { secs: rfc.0, nanos: rfc.1, offset: rfc.2 }),
        s.len() > 0 && rfc3339_time(s) is None && compact_time(s) is None ==> parsed(s) is None,
{
}

} // verus!
