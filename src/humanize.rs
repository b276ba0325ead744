//! Durations as short English text: `2days 0hour 0min 1s`.
use vstd::prelude::*;
use crate::text::{digits, push_decimal};

verus! {

/// Milliseconds per day, hour, minute and second.
pub const MILLIS_PER_DAY: u128 = 86_400_000;
pub const MILLIS_PER_HOUR: u128 = 3_600_000;
pub const MILLIS_PER_MINUTE: u128 = 60_000;
pub const MILLIS_PER_SECOND: u128 = 1000;

/// Spans of this many days or more are given in days alone by the compact form.
pub const COMPACT_DAYS_ALONE: u128 = 30;

/// The value of unit `k` in a span of `ms` milliseconds, the units being,
/// largest first: 0 days, 1 hours, 2 minutes, 3 seconds, 4 milliseconds.
pub open spec fn unit_value(ms: nat, k: int) -> nat {
    if k == 0 {
        ms / 86_400_000
    } else if k == 1 {
        (ms / 3_600_000) % 24
    } else if k == 2 {
        (ms / 60_000) % 60
    } else if k == 3 {
        (ms / 1000) % 60
    } else {
        ms % 1000
    }
}

/// The suffix of unit `k` for the value `v`; only days take a plural.
pub open spec fn unit_suffix(k: int, v: nat) -> Seq<char> {
    if k == 0 {
        if v == 1 { "day"@ } else { "days"@ }
    } else if k == 1 {
        "hour"@
    } else if k == 2 {
        "min"@
    } else if k == 3 {
        "s"@
    } else {
        "ms"@
    }
}

/// One unit's text, such as `2days` or `11ms`.
pub open spec fn segment_text(ms: nat, k: int) -> Seq<char> {
    digits(unit_value(ms, k)) + unit_suffix(k, unit_value(ms, k))
}

/// The texts joined with single spaces.
pub open spec fn join(segs: Seq<Seq<char>>) -> Seq<char>
    decreases segs.len(),
{
    if segs.len() == 0 {
        Seq::empty()
    } else if segs.len() == 1 {
        segs[0]
    } else {
        join(segs.drop_last()) + seq![' '] + segs.last()
    }
}

/// The largest unit at or below `k` whose value is not zero (4 if none).
pub open spec fn first_nonzero(ms: nat, k: int) -> int
    decreases 4 - k,
{
    if k >= 4 || unit_value(ms, k) != 0 {
        if k > 4 { 4 } else { k }
    } else {
        first_nonzero(ms, k + 1)
    }
}

/// The smallest unit at or above `k` whose value is not zero (0 if none).
pub open spec fn last_nonzero(ms: nat, k: int) -> int
    decreases k,
{
    if k <= 0 || unit_value(ms, k) != 0 {
        if k < 0 { 0 } else { k }
    } else {
        last_nonzero(ms, k - 1)
    }
}

/// The units that the full form writes: from the largest unit that is not
/// zero to the smallest one that is not zero, zeros between them included.
pub open spec fn human_units(ms: nat) -> Seq<int> {
    let a = first_nonzero(ms, 0);
    let b = last_nonzero(ms, 4);
    Seq::new((b - a + 1) as nat, |i: int| a + i)
}

/// The units that the compact form writes: the largest unit that is not
/// zero, and the unit right below it where that is not zero, except that a
/// span of thirty days or more is given in days alone.
pub open spec fn compact_units(ms: nat) -> Seq<int> {
    let a = first_nonzero(ms, 0);
    if a < 4 && unit_value(ms, a + 1) != 0 && !(a == 0 && unit_value(ms, 0) >= 30) {
        seq![a, a + 1]
    } else {
        seq![a]
    }
}

/// The text for the units `ks` of a span of `ms` milliseconds; a span of zero
/// is `0ms`.
pub open spec fn units_text(ms: nat, ks: Seq<int>) -> Seq<char> {
    if ms == 0 {
        "0ms"@
    } else {
        join(ks.map_values(|k: int| segment_text(ms, k)))
    }
}

pub open spec fn human_text(ms: nat) -> Seq<char> {
    units_text(ms, human_units(ms))
}

pub open spec fn compact_text(ms: nat) -> Seq<char> {
    units_text(ms, compact_units(ms))
}

/// The whole milliseconds in a duration.
pub uninterp spec fn duration_millis(d: std::time::Duration) -> u128;

/// Relies on `Duration::as_millis`: the whole milliseconds the duration holds,
/// a function of the duration alone.
pub assume_specification[ std::time::Duration::as_millis ](d: &std::time::Duration) -> (r: u128)
    ensures
        r == duration_millis(*d),
;

/// A duration as [`format_human_millis`] writes its whole milliseconds.
pub fn format_human(d: std::time::Duration) -> (r: String)
    ensures
        r@ == human_text(duration_millis(d) as nat),
{
    format_human_millis(d.as_millis())
}

/// A duration as [`format_human_compact_millis`] writes its whole milliseconds.
pub fn format_human2(d: std::time::Duration) -> (r: String)
    ensures
        r@ == compact_text(duration_millis(d) as nat),
{
    format_human_compact_millis(d.as_millis())
}

/// The value of unit `k`.
fn unit_value_of(ms: u128, k: usize) -> (v: u128)
    requires
        k <= 4,
    ensures
        v == unit_value(ms as nat, k as int),
{
    if k == 0 {
        ms / MILLIS_PER_DAY
    } else if k == 1 {
        (ms / MILLIS_PER_HOUR) % 24
    } else if k == 2 {
        (ms / MILLIS_PER_MINUTE) % 60
    } else if k == 3 {
        (ms / MILLIS_PER_SECOND) % 60
    } else {
        ms % 1000
    }
}

fn unit_suffix_str(k: usize, v: u128) -> (r: &'static str)
    ensures
        r@ == unit_suffix(k as int, v as nat),
{
    if k == 0 {
        if v == 1 { "day" } else { "days" }
    } else if k == 1 {
        "hour"
    } else if k == 2 {
        "min"
    } else if k == 3 {
        "s"
    } else {
        "ms"
    }
}

/// The text of units `a` through `b` of a span of `ms` milliseconds.
fn units_range_text(ms: u128, a: usize, b: usize) -> (r: String)
    requires
        a <= b <= 4,
    ensures
        r@ == join(Seq::new((b - a + 1) as nat, |i: int| a + i).map_values(|k: int| segment_text(ms as nat, k))),
{
    let ghost segs = Seq::new((b - a + 1) as nat, |i: int| a + i).map_values(|k: int| segment_text(ms as nat, k));
    let mut out = String::new();
    let mut k: usize = a;
    while k <= b
        invariant
            a <= k <= b + 1,
            b <= 4,
            segs == Seq::new((b - a + 1) as nat, |i: int| a + i).map_values(|k: int| segment_text(ms as nat, k)),
            out@ == join(segs.take(k - a)),
        decreases b + 1 - k,
    {
        let ghost before = out@;
        if k > a {
            out.push(' ');
        }
        let v = unit_value_of(ms, k);
        push_decimal(&mut out, v);
        out.append(unit_suffix_str(k, v));
        proof {
            let t = segs.take(k - a + 1);
            assert(t.drop_last() =~= segs.take(k - a));
            assert(t.last() == segment_text(ms as nat, k as int));
            if k > a {
                assert(out@ =~= before + seq![' '] + segment_text(ms as nat, k as int));
            } else {
                assert(before =~= Seq::<char>::empty());
                assert(out@ =~= segment_text(ms as nat, k as int));
            }
        }
        k = k + 1;
    }
    assert(segs.take(k - a) =~= segs);
    out
}

/// The largest unit that is not zero, and the smallest one.
fn nonzero_bounds(ms: u128) -> (r: (usize, usize))
    ensures
        r.0 == first_nonzero(ms as nat, 0),
        r.1 == last_nonzero(ms as nat, 4),
        r.0 <= 4,
        r.1 <= 4,
{
    let mut a: usize = 0;
    while a < 4 && unit_value_of(ms, a) == 0
        invariant
            a <= 4,
            first_nonzero(ms as nat, 0) == first_nonzero(ms as nat, a as int),
        decreases 4 - a,
    {
        a = a + 1;
    }
    let mut b: usize = 4;
    while b > 0 && unit_value_of(ms, b) == 0
        invariant
            b <= 4,
            last_nonzero(ms as nat, 4) == last_nonzero(ms as nat, b as int),
        decreases b,
    {
        b = b - 1;
    }
    (a, b)
}

pub proof fn lemma_bounds_ordered(ms: nat)
    requires
        ms > 0,
    ensures
        0 <= first_nonzero(ms, 0) <= last_nonzero(ms, 4) <= 4,
        unit_value(ms, first_nonzero(ms, 0)) != 0,
        unit_value(ms, last_nonzero(ms, 4)) != 0,
{
    assert(ms == unit_value(ms, 0) * 86_400_000 + unit_value(ms, 1) * 3_600_000 + unit_value(ms, 2) * 60_000
        + unit_value(ms, 3) * 1000 + unit_value(ms, 4));
    reveal_with_fuel(first_nonzero, 5);
    reveal_with_fuel(last_nonzero, 5);
}

/// A span of `ms` milliseconds in every unit from the largest to the
/// smallest that is not zero: `2days 0hour 0min 1s`; zero is `0ms`.
pub fn format_human_millis(ms: u128) -> (r: String)
    ensures
        r@ == human_text(ms as nat),
{
    if ms == 0 {
        return String::from_str("0ms");
    }
    proof {
        lemma_bounds_ordered(ms as nat);
    }
    let (a, b) = nonzero_bounds(ms);
    units_range_text(ms, a, b)
}

/// A span of `ms` milliseconds in its largest unit that is not zero and the
/// unit right below it where that is not zero (`1hour 1min`, `2days`); spans
/// of thirty days or more in days alone; zero is `0ms`.
pub fn format_human_compact_millis(ms: u128) -> (r: String)
    ensures
        r@ == compact_text(ms as nat),
{
    if ms == 0 {
        return String::from_str("0ms");
    }
    proof {
        lemma_bounds_ordered(ms as nat);
    }
    let (a, _b) = nonzero_bounds(ms);
    let with_next = a < 4 && unit_value_of(ms, a + 1) != 0 && !(a == 0 && ms / MILLIS_PER_DAY >= COMPACT_DAYS_ALONE);
    let b = if with_next { a + 1 } else { a };
    let r = units_range_text(ms, a, b);
    proof {
        let ks = Seq::new((b - a + 1) as nat, |i: int| a + i);
        assert(ks =~= compact_units(ms as nat));
    }
    r
}

} // verus!
