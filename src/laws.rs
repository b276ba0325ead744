//! Laws that relate the compiler, the renderer and the duration text.
use vstd::prelude::*;
use crate::datetime::ZonedDateTime;
use crate::humanize::{compact_text, compact_units, human_text, human_units, join, segment_text, units_text};
use crate::pattern::{compile, is_punct, lex, PartView, SimpleDateFormat};
use crate::render::{hour12, month_name, render, render_part, year_value};
use crate::text::{digits, is_digit, lemma_digits_are_digits, padded_number};

verus! {

/// Compiling and rendering are functions of their inputs: equal patterns
/// rendered against equal instants give equal text.
pub proof fn law_deterministic(pat_a: Seq<char>, pat_b: Seq<char>, t1: ZonedDateTime, t2: ZonedDateTime)
    requires
        pat_a == pat_b,
        t1 == t2,
    ensures
        compile(pat_a) == compile(pat_b),
        compile(pat_a) matches Ok(ps) ==> compile(pat_b) matches Ok(qs) && render(ps, t1) == render(qs, t2),
{
}

/// One compiled pattern rendered against two equal instants gives equal text.
pub proof fn law_reusable(f: SimpleDateFormat, t1: ZonedDateTime, t2: ZonedDateTime)
    requires
        t1 == t2,
    ensures
        render(f@, t1) == render(f@, t2),
{
}

/// `text` in front of what `o` holds.
pub open spec fn prefix_text(text: Seq<char>, o: Option<Seq<char>>) -> Option<Seq<char>> {
    match o {
        Some(x) => Some(text + x),
        None => None,
    }
}

/// The text of a pattern made of quoted text and punctuation alone, read from
/// index `i` on: quotes dropped, a doubled quote inside quotes written once,
/// and an empty pair of quotes written as one quote. `quoted` says whether a
/// quote is open, `fresh` whether it has no text yet. `None` where a
/// character outside quotes is not punctuation.
pub open spec fn literal_text(s: Seq<char>, i: int, quoted: bool, fresh: bool) -> Option<Seq<char>>
    decreases s.len() - i,
{
    if i < 0 || i >= s.len() {
        Some(Seq::empty())
    } else {
        let c = s[i];
        if quoted {
            if c != '\'' {
                prefix_text(seq![c], literal_text(s, i + 1, true, false))
            } else if i + 1 < s.len() && s[i + 1] == '\'' {
                prefix_text(seq!['\''], literal_text(s, i + 2, true, false))
            } else {
                prefix_text(if fresh { seq!['\''] } else { Seq::empty() }, literal_text(s, i + 1, false, true))
            }
        } else if c == '\'' {
            literal_text(s, i + 1, true, true)
        } else if is_punct(c) {
            prefix_text(seq![c], literal_text(s, i + 1, false, true))
        } else {
            None
        }
    }
}

proof fn lemma_render_append(a: Seq<PartView>, b: Seq<PartView>, t: ZonedDateTime)
    ensures
        render(a + b, t) == render(a, t) + render(b, t),
    decreases b.len(),
{
    if b.len() == 0 {
        assert(a + b =~= a);
        assert(render(a, t) + render(b, t) =~= render(a, t));
    } else {
        lemma_render_append(a, b.drop_last(), t);
        assert((a + b).drop_last() =~= a + b.drop_last());
        assert((a + b).last() == b.last());
        assert(render(a + b, t) =~= render(a, t) + render(b, t));
    }
}

proof fn lemma_render_single(p: PartView, t: ZonedDateTime)
    ensures
        render(seq![p], t) == render_part(p, t),
{
    assert(seq![p].drop_last() =~= Seq::<PartView>::empty());
    assert(seq![p].last() == p);
    assert(render(Seq::<PartView>::empty(), t) == Seq::<char>::empty());
    assert(render(seq![p], t) =~= render_part(p, t));
}

proof fn lemma_literal_render(s: Seq<char>, i: int, quoted: bool, acc: Seq<char>, t: ZonedDateTime)
    requires
        0 <= i,
        !quoted ==> acc.len() == 0,
        literal_text(s, i, quoted, acc.len() == 0) is Some,
    ensures
        lex(s, i, quoted, acc) matches Ok(ps)
            && render(ps, t) == acc + literal_text(s, i, quoted, acc.len() == 0)->Some_0,
    decreases s.len() - i,
{
    let fresh = acc.len() == 0;
    if i >= s.len() {
        if quoted && acc.len() > 0 {
            lemma_render_single(PartView::Literal(acc), t);
        }
        assert(acc + Seq::<char>::empty() =~= acc);
        if !(quoted && acc.len() > 0) {
            assert(acc =~= Seq::<char>::empty());
        }
    } else {
        let c = s[i];
        if quoted {
            if c != '\'' {
                lemma_literal_render(s, i + 1, true, acc.push(c), t);
                assert(acc.push(c) + literal_text(s, i + 1, true, false)->Some_0
                    =~= acc + (seq![c] + literal_text(s, i + 1, true, false)->Some_0));
            } else if i + 1 < s.len() && s[i + 1] == '\'' {
                lemma_literal_render(s, i + 2, true, acc.push('\''), t);
                assert(acc.push('\'') + literal_text(s, i + 2, true, false)->Some_0
                    =~= acc + (seq!['\''] + literal_text(s, i + 2, true, false)->Some_0));
            } else {
                let text = if fresh { seq!['\''] } else { acc };
                lemma_literal_render(s, i + 1, false, Seq::empty(), t);
                let ps = lex(s, i + 1, false, Seq::empty())->Ok_0;
                lemma_render_append(seq![PartView::Literal(text)], ps, t);
                lemma_render_single(PartView::Literal(text), t);
                let rest = literal_text(s, i + 1, false, true)->Some_0;
                assert(Seq::<char>::empty() + rest =~= rest);
                if fresh {
                    assert(acc =~= Seq::<char>::empty());
                    assert(text + rest =~= acc + (seq!['\''] + rest));
                } else {
                    assert(text + rest =~= acc + (Seq::<char>::empty() + rest));
                }
            }
        } else if c == '\'' {
            lemma_literal_render(s, i + 1, true, Seq::empty(), t);
            assert(acc =~= Seq::<char>::empty());
            assert(Seq::<char>::empty() + literal_text(s, i + 1, true, true)->Some_0
                =~= literal_text(s, i + 1, true, true)->Some_0);
        } else {
            lemma_literal_render(s, i + 1, false, Seq::empty(), t);
            let ps = lex(s, i + 1, false, Seq::empty())->Ok_0;
            lemma_render_append(seq![PartView::LiteralChar(c)], ps, t);
            lemma_render_single(PartView::LiteralChar(c), t);
            let rest = literal_text(s, i + 1, false, true)->Some_0;
            assert(Seq::<char>::empty() + rest =~= rest);
            assert(acc =~= Seq::<char>::empty());
            assert(acc + (seq![c] + rest) =~= seq![c] + (Seq::<char>::empty() + rest));
        }
    }
}

/// A pattern made of quoted text and punctuation alone compiles, and renders
/// its literal content for every instant.
pub proof fn law_literal_passthrough(p: Seq<char>, t: ZonedDateTime)
    requires
        literal_text(p, 0, false, true) is Some,
    ensures
        compile(p) matches Ok(ps) && render(ps, t) == literal_text(p, 0, false, true)->Some_0,
{
    lemma_literal_render(p, 0, false, Seq::empty(), t);
    assert(Seq::<char>::empty() + literal_text(p, 0, false, true)->Some_0
        =~= literal_text(p, 0, false, true)->Some_0);
}

/// The value and width of a numeric part for the instant `t`.
pub open spec fn numeric_field(p: PartView, t: ZonedDateTime) -> Option<(int, nat)> {
    match p {
        PartView::Year(n) => Some((year_value(t.year as int, n), n)),
        PartView::Month(n) => if n <= 2 { Some((t.month as int, n)) } else { None },
        PartView::Day(n) => Some((t.day as int, n)),
        PartView::Hour12(n) => Some((hour12(t.hour as int), n)),
        PartView::Hour24(n) => Some((t.hour as int, n)),
        PartView::Minute(n) => Some((t.minute as int, n)),
        PartView::Second(n) => Some((t.second as int, n)),
        PartView::Millis(n) => Some((t.nanosecond as int / 1_000_000, n)),
        PartView::DayOfYear(n) => Some((t.ordinal as int, n)),
        _ => None,
    }
}

/// A numeric field is at least as long as its width and as its digits, and
/// ends with all of its digits: padding never truncates.
pub proof fn law_numeric_pad(p: PartView, t: ZonedDateTime)
    requires
        numeric_field(p, t) is Some,
    ensures
        ({
            let (v, n) = numeric_field(p, t)->Some_0;
            let d = digits((if v < 0 { -v } else { v }) as nat);
            let r = render_part(p, t);
            &&& r == padded_number(v, n)
            &&& r.len() >= n
            &&& r.len() >= d.len()
            &&& r.subrange(r.len() - d.len(), r.len() as int) == d
        }),
{
    let (v, n) = numeric_field(p, t)->Some_0;
    let d = digits((if v < 0 { -v } else { v }) as nat);
    let r = render_part(p, t);
    assert(r == padded_number(v, n));
    assert(r.subrange(r.len() - d.len(), r.len() as int) =~= d);
}

pub open spec fn is_letter(c: char) -> bool {
    ('a' <= c && c <= 'z') || ('A' <= c && c <= 'Z')
}

/// Months of one or two letters are digits; of three, a three-letter name;
/// of four or more, the full name.
pub proof fn law_month_width(n: nat, t: ZonedDateTime)
    requires
        t.wf(),
    ensures
        n <= 2 ==> forall|i: int| 0 <= i < render_part(PartView::Month(n), t).len()
            ==> is_digit(#[trigger] render_part(PartView::Month(n), t)[i]),
        n == 3 ==> render_part(PartView::Month(n), t).len() == 3
            && forall|i: int| 0 <= i < 3 ==> is_letter(#[trigger] render_part(PartView::Month(n), t)[i]),
        n >= 4 ==> render_part(PartView::Month(n), t) == month_name(t.month as int, false),
{
    if n <= 2 {
        let r = render_part(PartView::Month(n), t);
        let d = digits(t.month as nat);
        lemma_digits_are_digits(t.month as nat);
        assert forall|i: int| 0 <= i < r.len() implies is_digit(#[trigger] r[i]) by {
            if d.len() < n {
                if i >= n - d.len() {
                    assert(r[i] == d[i - (n - d.len())]);
                }
            }
        }
    }
    if n == 3 {
        reveal_strlit("Jan");
        reveal_strlit("Feb");
        reveal_strlit("Mar");
        reveal_strlit("Apr");
        reveal_strlit("May");
        reveal_strlit("Jun");
        reveal_strlit("Jul");
        reveal_strlit("Aug");
        reveal_strlit("Sep");
        reveal_strlit("Oct");
        reveal_strlit("Nov");
        reveal_strlit("Dec");
    }
}

proof fn lemma_digits_nonempty(n: nat)
    ensures
        digits(n).len() >= 1,
{
    lemma_digits_are_digits(n);
}

proof fn lemma_join_nonempty(segs: Seq<Seq<char>>)
    requires
        segs.len() >= 1,
        forall|i: int| 0 <= i < segs.len() ==> (#[trigger] segs[i]).len() >= 1,
    ensures
        join(segs).len() >= 1,
    decreases segs.len(),
{
    if segs.len() > 1 {
        assert(segs.last() == segs[segs.len() - 1]);
    }
}

proof fn lemma_units_text_nonempty(ms: nat, ks: Seq<int>)
    requires
        ms == 0 || ks.len() >= 1,
    ensures
        units_text(ms, ks).len() >= 1,
{
    reveal_strlit("0ms");
    if ms > 0 {
        let segs = ks.map_values(|k: int| segment_text(ms, k));
        assert forall|i: int| 0 <= i < segs.len() implies (#[trigger] segs[i]).len() >= 1 by {
            let k = ks[i];
            lemma_digits_nonempty(crate::humanize::unit_value(ms, k));
        }
        lemma_join_nonempty(segs);
    }
}

/// Duration text is never empty, and a span of zero is `0ms`, in the full
/// and in the compact form.
pub proof fn law_human_nonempty(ms: nat)
    ensures
        human_text(ms).len() >= 1,
        compact_text(ms).len() >= 1,
        human_text(0) == "0ms"@,
        compact_text(0) == "0ms"@,
{
    if ms > 0 {
        crate::humanize::lemma_bounds_ordered(ms);
    }
    lemma_units_text_nonempty(ms, human_units(ms));
    lemma_units_text_nonempty(ms, compact_units(ms));
}

/// Duration text writes its units largest first, each at most once: the
/// unit indices (0 days through 4 milliseconds) strictly increase, in the full
/// and in the compact form.
pub proof fn law_human_units_ordered(ms: nat)
    requires
        ms > 0,
    ensures
        human_text(ms) == join(human_units(ms).map_values(|k: int| segment_text(ms, k))),
        compact_text(ms) == join(compact_units(ms).map_values(|k: int| segment_text(ms, k))),
        forall|i: int, j: int| 0 <= i < j < human_units(ms).len()
            ==> human_units(ms)[i] < human_units(ms)[j],
        forall|i: int, j: int| 0 <= i < j < compact_units(ms).len()
            ==> compact_units(ms)[i] < compact_units(ms)[j],
        forall|i: int| 0 <= i < human_units(ms).len() ==> 0 <= #[trigger] human_units(ms)[i] <= 4,
        forall|i: int| 0 <= i < compact_units(ms).len() ==> 0 <= #[trigger] compact_units(ms)[i] <= 4,
{
    crate::humanize::lemma_bounds_ordered(ms);
}

} // verus!
