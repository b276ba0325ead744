//! Rendering a compiled pattern against an instant.
use vstd::prelude::*;
use crate::datetime::{push_zone, zone_text, Weekday, ZonedDateTime};
use crate::pattern::{Part, PartView, SimpleDateFormat};
use crate::text::{padded_number, push_padded};

verus! {

/// English month names; anything outside 1 to 12 is flagged.
pub open spec fn month_name(m: int, short: bool) -> Seq<char> {
    if m == 1 { if short { "Jan"@ } else { "January"@ } }
    else if m == 2 { if short { "Feb"@ } else { "February"@ } }
    else if m == 3 { if short { "Mar"@ } else { "March"@ } }
    else if m == 4 { if short { "Apr"@ } else { "April"@ } }
    else if m == 5 { "May"@ }
    else if m == 6 { if short { "Jun"@ } else { "June"@ } }
    else if m == 7 { if short { "Jul"@ } else { "July"@ } }
    else if m == 8 { if short { "Aug"@ } else { "August"@ } }
    else if m == 9 { if short { "Sep"@ } else { "September"@ } }
    else if m == 10 { if short { "Oct"@ } else { "October"@ } }
    else if m == 11 { if short { "Nov"@ } else { "November"@ } }
    else if m == 12 { if short { "Dec"@ } else { "December"@ } }
    else { "ERR!UNKNOWN MONTH"@ }
}

/// English weekday names.
pub open spec fn weekday_name(w: Weekday, short: bool) -> Seq<char> {
    match w {
        Weekday::Mon => if short { "Mon"@ } else { "Monday"@ },
        Weekday::Tue => if short { "Tue"@ } else { "Tuesday"@ },
        Weekday::Wed => if short { "Wed"@ } else { "Wednesday"@ },
        Weekday::Thu => if short { "Thu"@ } else { "Thursday"@ },
        Weekday::Fri => if short { "Fri"@ } else { "Friday"@ },
        Weekday::Sat => if short { "Sat"@ } else { "Saturday"@ },
        Weekday::Sun => if short { "Sun"@ } else { "Sunday"@ },
    }
}

/// The hour on a twelve-hour clock: 1 to 12, midnight and noon being 12.
pub open spec fn hour12(h: int) -> int {
    if h % 12 == 0 { 12 } else { h % 12 }
}

/// The year as a field of width `n`: two-letter years keep the last two
/// digits, with the sign of the year.
pub open spec fn year_value(y: int, n: nat) -> int {
    if n == 2 {
        if y >= 0 { y % 100 } else { -((-y) % 100) }
    } else {
        y
    }
}

/// The text of one part for the instant `t`.
pub open spec fn render_part(p: PartView, t: ZonedDateTime) -> Seq<char> {
    match p {
        PartView::Era => "AD"@,
        PartView::Year(n) => padded_number(year_value(t.year as int, n), n),
        PartView::Month(n) => if n <= 2 {
            padded_number(t.month as int, n)
        } else {
            month_name(t.month as int, n == 3)
        },
        PartView::Day(n) => padded_number(t.day as int, n),
        PartView::Hour12(n) => padded_number(hour12(t.hour as int), n),
        PartView::Hour24(n) => padded_number(t.hour as int, n),
        PartView::Minute(n) => padded_number(t.minute as int, n),
        PartView::Second(n) => padded_number(t.second as int, n),
        PartView::Millis(n) => padded_number(t.nanosecond as int / 1_000_000, n),
        PartView::AmPm(_) => if t.hour >= 12 { "PM"@ } else { "AM"@ },
        PartView::Weekday(n) => weekday_name(t.weekday, n == 3),
        PartView::DayOfYear(n) => padded_number(t.ordinal as int, n),
        PartView::Zone(_) => zone_text(t.zone),
        PartView::LiteralChar(c) => seq![c],
        PartView::Literal(s) => s,
    }
}

/// The parts' texts for `t`, concatenated in order.
pub open spec fn render(ps: Seq<PartView>, t: ZonedDateTime) -> Seq<char>
    decreases ps.len(),
{
    if ps.len() == 0 {
        Seq::empty()
    } else {
        render(ps.drop_last(), t) + render_part(ps.last(), t)
    }
}

fn month_name_str(m: u32, short: bool) -> (r: &'static str)
    ensures
        r@ == month_name(m as int, short),
{
    if m == 1 { if short { "Jan" } else { "January" } }
    else if m == 2 { if short { "Feb" } else { "February" } }
    else if m == 3 { if short { "Mar" } else { "March" } }
    else if m == 4 { if short { "Apr" } else { "April" } }
    else if m == 5 { "May" }
    else if m == 6 { if short { "Jun" } else { "June" } }
    else if m == 7 { if short { "Jul" } else { "July" } }
    else if m == 8 { if short { "Aug" } else { "August" } }
    else if m == 9 { if short { "Sep" } else { "September" } }
    else if m == 10 { if short { "Oct" } else { "October" } }
    else if m == 11 { if short { "Nov" } else { "November" } }
    else if m == 12 { if short { "Dec" } else { "December" } }
    else { "ERR!UNKNOWN MONTH" }
}

fn weekday_name_str(w: Weekday, short: bool) -> (r: &'static str)
    ensures
        r@ == weekday_name(w, short),
{
    match w {
        Weekday::Mon => if short { "Mon" } else { "Monday" },
        Weekday::Tue => if short { "Tue" } else { "Tuesday" },
        Weekday::Wed => if short { "Wed" } else { "Wednesday" },
        Weekday::Thu => if short { "Thu" } else { "Thursday" },
        Weekday::Fri => if short { "Fri" } else { "Friday" },
        Weekday::Sat => if short { "Sat" } else { "Saturday" },
        Weekday::Sun => if short { "Sun" } else { "Sunday" },
    }
}

/// Appends the text of `p` for `t`.
fn push_part(out: &mut String, p: &Part, t: &ZonedDateTime)
    requires
        t.zone.wf(),
    ensures
        final(out)@ == old(out)@ + render_part(p@, *t),
{
    match p {
        Part::Era => out.append("AD"),
        Part::Year(n) => {
            let y: i64 = t.year as i64;
            let v: i64 = if *n == 2 {
                if y >= 0 { y % 100 } else { -((-y) % 100) }
            } else {
                y
            };
            push_padded(out, v, *n);
        },
        Part::Month(n) => {
            if *n <= 2 {
                push_padded(out, t.month as i64, *n);
            } else {
                out.append(month_name_str(t.month, *n == 3));
            }
        },
        Part::Day(n) => push_padded(out, t.day as i64, *n),
        Part::Hour12(n) => {
            let h: i64 = if t.hour % 12 == 0 { 12 } else { (t.hour % 12) as i64 };
            push_padded(out, h, *n);
        },
        Part::Hour24(n) => push_padded(out, t.hour as i64, *n),
        Part::Minute(n) => push_padded(out, t.minute as i64, *n),
        Part::Second(n) => push_padded(out, t.second as i64, *n),
        Part::Millis(n) => push_padded(out, (t.nanosecond / 1_000_000) as i64, *n),
        Part::AmPm(_) => out.append(if t.hour >= 12 { "PM" } else { "AM" }),
        Part::Weekday(n) => out.append(weekday_name_str(t.weekday, *n == 3)),
        Part::DayOfYear(n) => push_padded(out, t.ordinal as i64, *n),
        Part::Zone(_) => push_zone(out, t.zone),
        Part::LiteralChar(c) => {
            out.push(*c);
            assert(final(out)@ =~= old(out)@ + seq![*c]);
        },
        Part::Literal(s) => out.append(s.as_str()),
    }
}

impl SimpleDateFormat {
    /// Renders the instant `t`: each part's text, in order.
    pub fn format(&self, t: &ZonedDateTime) -> (r: String)
        requires
            t.zone.wf(),
        ensures
            r@ == render(self@, *t),
    {
        let parts = self.parts();
        let mut out = String::new();
        let mut i: usize = 0;
        while i < parts.len()
            invariant
                i <= parts.len(),
                t.zone.wf(),
                parts@.map_values(|p: Part| p@) == self@,
                out@ == render(self@.take(i as int), *t),
            decreases parts.len() - i,
        {
            proof {
                let next = self@.take(i + 1);
                assert(next.drop_last() =~= self@.take(i as int));
                assert(next.last() == parts@[i as int]@);
            }
            push_part(&mut out, &parts[i], t);
            i = i + 1;
        }
        assert(self@.take(i as int) =~= self@);
        out
    }
}

} // verus!
