//! A timezone-aware instant, held as the local calendar and clock fields that
//! rendering reads, and its construction from a Unix timestamp.
use vstd::prelude::*;
use crate::text::digit_char;
use chrono::{Datelike, Timelike};

verus! {

/// Day of the week.
#[derive(Clone, Copy, Debug, PartialEq, Eq, Structural)]
pub enum Weekday {
    Mon,
    Tue,
    Wed,
    Thu,
    Fri,
    Sat,
    Sun,
}

/// The offset an instant is shown in.
#[derive(Clone, Copy, Debug, PartialEq, Eq, Structural)]
pub enum Zone {
    /// Coordinated universal time, written `Z`.
    Utc,
    /// A fixed offset east of UTC, in seconds.
    Fixed(i32),
}

impl Zone {
    /// Offsets of a day or more are not offsets.
    pub open spec fn wf(self) -> bool {
        match self {
            Zone::Utc => true,
            Zone::Fixed(s) => -86_400 < s && s < 86_400,
        }
    }

    /// Seconds east of UTC.
    pub open spec fn seconds(self) -> int {
        match self {
            Zone::Utc => 0,
            Zone::Fixed(s) => s as int,
        }
    }
}

/// Two decimal digits of a value below a hundred.
pub open spec fn two_digits(n: int) -> Seq<char> {
    seq![digit_char((n / 10) as nat), digit_char((n % 10) as nat)]
}

/// A fixed offset of `s` seconds east: its sign, then hours and minutes, and
/// seconds only where there are any (`+08:00`, `-03:30`, `+00:00:15`).
pub open spec fn offset_text(s: int) -> Seq<char> {
    let a = if s < 0 { -s } else { s };
    let head = seq![if s < 0 { '-' } else { '+' }] + two_digits(a / 3600) + seq![':'] + two_digits((a / 60) % 60);
    if a % 60 == 0 {
        head
    } else {
        head + seq![':'] + two_digits(a % 60)
    }
}

/// How a zone is written: `Z` for UTC, the signed offset otherwise.
pub open spec fn zone_text(z: Zone) -> Seq<char> {
    match z {
        Zone::Utc => seq!['Z'],
        Zone::Fixed(s) => offset_text(s as int),
    }
}

/// Appends the text of the zone `z`.
pub fn push_zone(out: &mut String, z: Zone)
    requires
        z.wf(),
    ensures
        final(out)@ == old(out)@ + zone_text(z),
{
    match z {
        Zone::Utc => {
            out.push('Z');
            assert(final(out)@ =~= old(out)@ + zone_text(z));
        },
        Zone::Fixed(s) => {
            let text = fixed_offset_text(s);
            out.append(text.as_str());
        },
    }
}

/// Relies on chrono's `FixedOffset::east_opt` and the `Debug` form of
/// `FixedOffset`: sign, hours and minutes as two digits each, then seconds as
/// two digits where they are not zero.
#[verifier::external_body]
fn fixed_offset_text(secs: i32) -> (r: String)
    requires
        -86_400 < secs < 86_400,
    ensures
        r@ == offset_text(secs as int),
{
    format!("{:?}", chrono::FixedOffset::east_opt(secs).unwrap())
}

/// Timestamps at most this many milliseconds from the epoch (about 253,000
/// years) lie well inside chrono's calendar range, local offset included.
pub const SAFE_TIMESTAMP_MILLIS: i64 = 8_000_000_000_000_000;

/// The local day, counted from 1970-01-01, of the instant `millis`
/// milliseconds after the epoch at `offset` seconds east.
pub open spec fn local_day(millis: int, offset: int) -> int {
    (millis / 1000 + offset) / 86_400
}

/// The proleptic Gregorian date `day` days after 1970-01-01, as
/// (year, month, day of month, day of year).
pub uninterp spec fn civil_date(day: int) -> (int, int, int, int);

/// Days since the last Monday of the date `day` days after 1970-01-01, a
/// Thursday.
pub open spec fn weekday_index(day: int) -> int {
    (day + 3) % 7
}

/// Days since the last Monday.
pub open spec fn days_from_monday(w: Weekday) -> int {
    match w {
        Weekday::Mon => 0,
        Weekday::Tue => 1,
        Weekday::Wed => 2,
        Weekday::Thu => 3,
        Weekday::Fri => 4,
        Weekday::Sat => 5,
        Weekday::Sun => 6,
    }
}

/// An instant as seen on the local clock of its zone.
#[derive(Clone, Copy, Debug, PartialEq, Eq, Structural)]
pub struct ZonedDateTime {
    pub year: i32,
    /// 1 to 12.
    pub month: u32,
    /// 1 to 31.
    pub day: u32,
    /// 0 to 23.
    pub hour: u32,
    pub minute: u32,
    pub second: u32,
    /// Nanoseconds within the second; a leap second carries up to two seconds' worth.
    pub nanosecond: u32,
    pub weekday: Weekday,
    /// Day of the year, 1 to 366.
    pub ordinal: u32,
    pub zone: Zone,
}

impl ZonedDateTime {
    pub open spec fn wf(self) -> bool {
        &&& 1 <= self.month <= 12
        &&& 1 <= self.day <= 31
        &&& self.hour < 24
        &&& self.minute < 60
        &&& self.second < 60
        &&& self.nanosecond < 2_000_000_000
        &&& 1 <= self.ordinal <= 366
        &&& self.zone.wf()
    }

    /// Seconds since local midnight.
    pub open spec fn seconds_of_day(self) -> int {
        self.hour * 3600 + self.minute * 60 + self.second
    }

    /// The instant `millis` milliseconds after the Unix epoch, seen in `zone`.
    /// `None` where the zone is no valid offset; `Some` for a valid zone and a
    /// timestamp within [`SAFE_TIMESTAMP_MILLIS`] of the epoch. The clock
    /// fields follow from the timestamp and the offset; within that range so
    /// do the date fields, from the local day.
    pub fn from_timestamp_millis(millis: i64, zone: Zone) -> (r: Option<ZonedDateTime>)
        ensures
            !zone.wf() ==> r is None,
            zone.wf() ==> (r is Some || millis < -SAFE_TIMESTAMP_MILLIS || millis > SAFE_TIMESTAMP_MILLIS),
            r matches Some(t) ==> {
                &&& t.wf()
                &&& t.zone == zone
                &&& t.seconds_of_day() == (millis as int / 1000 + zone.seconds()) % 86_400
                &&& t.nanosecond == (millis as int % 1000) * 1_000_000
                &&& -SAFE_TIMESTAMP_MILLIS <= millis <= SAFE_TIMESTAMP_MILLIS ==> {
                    let day = local_day(millis as int, zone.seconds());
                    &&& civil_date(day) == (t.year as int, t.month as int, t.day as int, t.ordinal as int)
                    &&& days_from_monday(t.weekday) == weekday_index(day)
                }
            },
    {
        let offset: i32 = match zone {
            Zone::Utc => 0,
            Zone::Fixed(s) => {
                if s <= -86_400 || s >= 86_400 {
                    return None;
                }
                s
            },
        };
        match civil_fields(millis, offset) {
            None => None,
            Some(f) => Some(ZonedDateTime {
                year: f.year,
                month: f.month,
                day: f.day,
                hour: f.hour,
                minute: f.minute,
                second: f.second,
                nanosecond: f.nanosecond,
                weekday: weekday_from_monday(f.weekday),
                ordinal: f.ordinal,
                zone,
            }),
        }
    }
}

/// The weekday `n` days after a Monday, for `n` below seven.
fn weekday_from_monday(n: u32) -> (w: Weekday)
    requires
        n < 7,
    ensures
        days_from_monday(w) == n,
{
    if n == 0 {
        Weekday::Mon
    } else if n == 1 {
        Weekday::Tue
    } else if n == 2 {
        Weekday::Wed
    } else if n == 3 {
        Weekday::Thu
    } else if n == 4 {
        Weekday::Fri
    } else if n == 5 {
        Weekday::Sat
    } else {
        Weekday::Sun
    }
}

/// Local calendar and clock fields as chrono computes them.
struct CivilFields {
    year: i32,
    month: u32,
    day: u32,
    hour: u32,
    minute: u32,
    second: u32,
    nanosecond: u32,
    ordinal: u32,
    /// Days since the last Monday.
    weekday: u32,
}

/// Relies on chrono's `DateTime::from_timestamp_millis`, `FixedOffset::east_opt`
/// and `DateTime::with_timezone` for the calendar date of an instant at a fixed
/// offset. The time of day is the timestamp's seconds plus the offset, modulo
/// a day; the nanoseconds are the timestamp's milliseconds within the second.
/// `from_timestamp_millis` fails only outside the years -262143 to 262142,
/// and `with_timezone` to a fixed offset does not fail; well inside that range
/// the date is the Gregorian date of the local day, with 1970-01-01 a Thursday.
#[verifier::external_body]
fn civil_fields(millis: i64, offset: i32) -> (r: Option<CivilFields>)
    requires
        -86_400 < offset < 86_400,
    ensures
        r matches Some(f) ==> {
            &&& 1 <= f.month <= 12
            &&& 1 <= f.day <= 31
            &&& 1 <= f.ordinal <= 366
            &&& f.weekday < 7
            &&& f.hour < 24
            &&& f.minute < 60
            &&& f.second < 60
            &&& f.hour * 3600 + f.minute * 60 + f.second == (millis as int / 1000 + offset) % 86_400
            &&& f.nanosecond == (millis as int % 1000) * 1_000_000
            &&& -SAFE_TIMESTAMP_MILLIS <= millis <= SAFE_TIMESTAMP_MILLIS ==> {
                let day = local_day(millis as int, offset as int);
                &&& civil_date(day) == (f.year as int, f.month as int, f.day as int, f.ordinal as int)
                &&& f.weekday == weekday_index(day)
            }
        },
        r is Some || millis < -SAFE_TIMESTAMP_MILLIS || millis > SAFE_TIMESTAMP_MILLIS,
{
    let off = chrono::FixedOffset::east_opt(offset)?;
    let t = chrono::DateTime::from_timestamp_millis(millis)?.with_timezone(&off);
    Some(CivilFields {
        year: t.year(),
        month: t.month(),
        day: t.day(),
        hour: t.hour(),
        minute: t.minute(),
        second: t.second(),
        nanosecond: t.nanosecond(),
        ordinal: t.ordinal(),
        weekday: t.weekday().num_days_from_monday(),
    })
}

} // verus!
