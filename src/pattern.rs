//! The pattern language and its compiler.
use vstd::prelude::*;
use crate::text::chars_of;

verus! {

/// One token of a compiled pattern. Counted variants carry the length of the
/// run of their letter.
#[derive(Clone, Debug)]
pub enum Part {
    Era,
    Year(usize),
    Month(usize),
    Day(usize),
    Hour12(usize),
    Hour24(usize),
    Minute(usize),
    Second(usize),
    Millis(usize),
    AmPm(usize),
    Weekday(usize),
    DayOfYear(usize),
    Zone(usize),
    LiteralChar(char),
    Literal(String),
}

/// The mathematical value of a [`Part`].
pub enum PartView {
    Era,
    Year(nat),
    Month(nat),
    Day(nat),
    Hour12(nat),
    Hour24(nat),
    Minute(nat),
    Second(nat),
    Millis(nat),
    AmPm(nat),
    Weekday(nat),
    DayOfYear(nat),
    Zone(nat),
    LiteralChar(char),
    Literal(Seq<char>),
}

impl View for Part {
    type V = PartView;

    open spec fn view(&self) -> PartView {
        match self {
            Part::Era => PartView::Era,
            Part::Year(n) => PartView::Year(*n as nat),
            Part::Month(n) => PartView::Month(*n as nat),
            Part::Day(n) => PartView::Day(*n as nat),
            Part::Hour12(n) => PartView::Hour12(*n as nat),
            Part::Hour24(n) => PartView::Hour24(*n as nat),
            Part::Minute(n) => PartView::Minute(*n as nat),
            Part::Second(n) => PartView::Second(*n as nat),
            Part::Millis(n) => PartView::Millis(*n as nat),
            Part::AmPm(n) => PartView::AmPm(*n as nat),
            Part::Weekday(n) => PartView::Weekday(*n as nat),
            Part::DayOfYear(n) => PartView::DayOfYear(*n as nat),
            Part::Zone(n) => PartView::Zone(*n as nat),
            Part::LiteralChar(c) => PartView::LiteralChar(*c),
            Part::Literal(s) => PartView::Literal(s@),
        }
    }
}

/// The error of compiling a pattern.
#[derive(Clone, Debug)]
pub enum ParseError {
    /// The message names the offending character: `Illegal char: X`.
    Format(String),
}

impl View for ParseError {
    type V = Seq<char>;

    open spec fn view(&self) -> Seq<char> {
        match self {
            ParseError::Format(m) => m@,
        }
    }
}

/// The message for an illegal character.
pub open spec fn illegal_char_message(c: char) -> Seq<char> {
    seq!['I', 'l', 'l', 'e', 'g', 'a', 'l', ' ', 'c', 'h', 'a', 'r', ':', ' ', c]
}

/// Characters that stand for themselves outside quotes.
pub open spec fn is_punct(c: char) -> bool {
    c == ',' || c == '.' || c == ':' || c == '-' || c == ' ' || c == '/'
}

/// Letters that start a field run.
pub open spec fn is_specifier(c: char) -> bool {
    c == 'G' || c == 'y' || c == 'M' || c == 'd' || c == 'h' || c == 'H' || c == 'm' || c == 's'
        || c == 'S' || c == 'a' || c == 'E' || c == 'D' || c == 'z'
}

/// The field a run of `n` letters `c` stands for.
pub open spec fn field_part(c: char, n: nat) -> PartView {
    if c == 'G' { PartView::Era }
    else if c == 'y' { PartView::Year(n) }
    else if c == 'M' { PartView::Month(n) }
    else if c == 'd' { PartView::Day(n) }
    else if c == 'h' { PartView::Hour12(n) }
    else if c == 'H' { PartView::Hour24(n) }
    else if c == 'm' { PartView::Minute(n) }
    else if c == 's' { PartView::Second(n) }
    else if c == 'S' { PartView::Millis(n) }
    else if c == 'a' { PartView::AmPm(n) }
    else if c == 'E' { PartView::Weekday(n) }
    else if c == 'D' { PartView::DayOfYear(n) }
    else { PartView::Zone(n) }
}

/// How many characters equal to `c` follow one another from index `i` on.
pub open spec fn run_len(s: Seq<char>, i: int, c: char) -> nat
    decreases s.len() - i,
{
    if 0 <= i < s.len() && s[i] == c {
        1 + run_len(s, i + 1, c)
    } else {
        0
    }
}

/// `ps` in front of the parts of `r`; an error stays as it is.
pub open spec fn prepend(ps: Seq<PartView>, r: Result<Seq<PartView>, char>) -> Result<Seq<PartView>, char> {
    match r {
        Ok(qs) => Ok(ps + qs),
        Err(c) => Err(c),
    }
}

/// The parts of `s` from index `i` on, where `quoted` says whether a quote is
/// open and `acc` holds the quoted text read so far; or the first character
/// that is neither punctuation, a field letter nor quoted.
/// A quote left open at the end keeps the text read inside it.
pub open spec fn lex(s: Seq<char>, i: int, quoted: bool, acc: Seq<char>) -> Result<Seq<PartView>, char>
    decreases s.len() - i
    via lex_decreases

{
    if i < 0 || i >= s.len() {
        if quoted && acc.len() > 0 {
            Ok(seq![PartView::Literal(acc)])
        } else {
            Ok(Seq::empty())
        }
    } else {
        let c = s[i];
        if quoted {
            if c != '\'' {
                lex(s, i + 1, true, acc.push(c))
            } else if i + 1 < s.len() && s[i + 1] == '\'' {
                lex(s, i + 2, true, acc.push('\''))
            } else {
                let text = if acc.len() == 0 { seq!['\''] } else { acc };
                prepend(seq![PartView::Literal(text)], lex(s, i + 1, false, Seq::empty()))
            }
        } else if c == '\'' {
            lex(s, i + 1, true, Seq::empty())
        } else if is_punct(c) {
            prepend(seq![PartView::LiteralChar(c)], lex(s, i + 1, false, Seq::empty()))
        } else if is_specifier(c) {
            let n = 1 + run_len(s, i + 1, c);
            prepend(seq![field_part(c, n)], lex(s, i + 1 + run_len(s, i + 1, c), false, Seq::empty()))
        } else {
            Err(c)
        }
    }
}

proof fn lemma_run_len_bound(s: Seq<char>, i: int, c: char)
    requires
        0 <= i,
    ensures
        i + run_len(s, i, c) <= s.len() || run_len(s, i, c) == 0,
    decreases s.len() - i,
{
    if 0 <= i < s.len() && s[i] == c {
        lemma_run_len_bound(s, i + 1, c);
    }
}

#[via_fn]
proof fn lex_decreases(s: Seq<char>, i: int, quoted: bool, acc: Seq<char>) {
    if 0 <= i < s.len() {
        lemma_run_len_bound(s, i + 1, s[i]);
    }
}

/// The count of a counted part.
pub open spec fn count_of(p: PartView) -> Option<nat> {
    match p {
        PartView::Year(n) | PartView::Month(n) | PartView::Day(n) | PartView::Hour12(n)
        | PartView::Hour24(n) | PartView::Minute(n) | PartView::Second(n) | PartView::Millis(n)
        | PartView::AmPm(n) | PartView::Weekday(n) | PartView::DayOfYear(n) | PartView::Zone(n) => Some(n),
        _ => None,
    }
}

/// Every counted part counts at least one letter.
pub open spec fn counts_positive(ps: Seq<PartView>) -> bool {
    forall|i: int| 0 <= i < ps.len() ==> (count_of(#[trigger] ps[i]) matches Some(n) ==> n >= 1)
}

proof fn lemma_prepend_counts(p: PartView, r: Result<Seq<PartView>, char>)
    requires
        count_of(p) matches Some(n) ==> n >= 1,
        r matches Ok(qs) ==> counts_positive(qs),
    ensures
        prepend(seq![p], r) matches Ok(ps) ==> counts_positive(ps),
{
    if let Ok(qs) = r {
        let ps = seq![p] + qs;
        assert forall|i: int| 0 <= i < ps.len() implies (count_of(#[trigger] ps[i]) matches Some(n) ==> n >= 1) by {
            if i > 0 {
                assert(ps[i] == qs[i - 1]);
            }
        }
    }
}

proof fn lemma_lex_counts_positive(s: Seq<char>, i: int, quoted: bool, acc: Seq<char>)
    ensures
        lex(s, i, quoted, acc) matches Ok(ps) ==> counts_positive(ps),
    decreases s.len() - i,
{
    if i < 0 || i >= s.len() {
    } else {
        let c = s[i];
        if quoted {
            if c != '\'' {
                lemma_lex_counts_positive(s, i + 1, true, acc.push(c));
            } else if i + 1 < s.len() && s[i + 1] == '\'' {
                lemma_lex_counts_positive(s, i + 2, true, acc.push('\''));
            } else {
                let text = if acc.len() == 0 { seq!['\''] } else { acc };
                lemma_lex_counts_positive(s, i + 1, false, Seq::empty());
                lemma_prepend_counts(PartView::Literal(text), lex(s, i + 1, false, Seq::empty()));
            }
        } else if c == '\'' {
            lemma_lex_counts_positive(s, i + 1, true, Seq::empty());
        } else if is_punct(c) {
            lemma_lex_counts_positive(s, i + 1, false, Seq::empty());
            lemma_prepend_counts(PartView::LiteralChar(c), lex(s, i + 1, false, Seq::empty()));
        } else if is_specifier(c) {
            let j = i + 1 + run_len(s, i + 1, c);
            lemma_run_len_bound(s, i + 1, c);
            lemma_lex_counts_positive(s, j, false, Seq::empty());
            lemma_prepend_counts(field_part(c, 1 + run_len(s, i + 1, c)), lex(s, j, false, Seq::empty()));
        }
    }
}

/// The compiled form of the pattern `s`, or its first illegal character.
pub open spec fn compile(s: Seq<char>) -> Result<Seq<PartView>, char> {
    lex(s, 0, false, Seq::empty())
}

/// A compiled pattern: an ordered sequence of parts, rendered against any
/// number of instants.
#[derive(Clone, Debug)]
pub struct SimpleDateFormat {
    parts: Vec<Part>,
}

impl View for SimpleDateFormat {
    type V = Seq<PartView>;

    closed spec fn view(&self) -> Seq<PartView> {
        self.parts@.map_values(|p: Part| p@)
    }
}

impl SimpleDateFormat {
    /// Compiles the pattern `f`; see [`fmt`].
    pub fn new(f: &str) -> (r: Result<SimpleDateFormat, ParseError>)
        ensures
            match compile(f@) {
                Ok(ps) => r matches Ok(d) && d@ == ps,
                Err(c) => r matches Err(e) && e@ == illegal_char_message(c),
            },
            r matches Ok(d) ==> counts_positive(d@),
    {
        fmt(f)
    }

    /// The parts, in order.
    pub fn parts(&self) -> (r: &Vec<Part>)
        ensures
            r@.map_values(|p: Part| p@) == self@,
    {
        &self.parts
    }
}

/// A pattern string converts to its compiled form, as [`fmt`] gives it.
impl<'a> TryFrom<&'a str> for SimpleDateFormat {
    type Error = ParseError;

    fn try_from(f: &'a str) -> (r: Result<SimpleDateFormat, ParseError>)
        ensures
            match compile(f@) {
                Ok(ps) => r matches Ok(d) && d@ == ps,
                Err(c) => r matches Err(e) && e@ == illegal_char_message(c),
            },
            r matches Ok(d) ==> counts_positive(d@),
    {
        fmt(f)
    }
}

impl<'a> vstd::std_specs::convert::TryFromSpecImpl<&'a str> for SimpleDateFormat {
    open spec fn obeys_try_from_spec() -> bool {
        false
    }

    open spec fn try_from_spec(f: &'a str) -> Result<SimpleDateFormat, ParseError> {
        arbitrary()
    }
}

fn is_punct_char(c: char) -> (r: bool)
    ensures
        r == is_punct(c),
{
    c == ',' || c == '.' || c == ':' || c == '-' || c == ' ' || c == '/'
}

/// The part for a run of `n` letters `c`, or `None` where `c` is no field letter.
fn field_part_of(c: char, n: usize) -> (r: Option<Part>)
    ensures
        is_specifier(c) <==> r is Some,
        r matches Some(p) ==> p@ == field_part(c, n as nat),
{
    if c == 'G' { Some(Part::Era) }
    else if c == 'y' { Some(Part::Year(n)) }
    else if c == 'M' { Some(Part::Month(n)) }
    else if c == 'd' { Some(Part::Day(n)) }
    else if c == 'h' { Some(Part::Hour12(n)) }
    else if c == 'H' { Some(Part::Hour24(n)) }
    else if c == 'm' { Some(Part::Minute(n)) }
    else if c == 's' { Some(Part::Second(n)) }
    else if c == 'S' { Some(Part::Millis(n)) }
    else if c == 'a' { Some(Part::AmPm(n)) }
    else if c == 'E' { Some(Part::Weekday(n)) }
    else if c == 'D' { Some(Part::DayOfYear(n)) }
    else if c == 'z' { Some(Part::Zone(n)) }
    else { None }
}

/// The index after the run of `c` that starts at `i`.
fn run_end(s: &Vec<char>, i: usize, c: char) -> (j: usize)
    requires
        i <= s.len(),
    ensures
        j == i + run_len(s@, i as int, c),
        j <= s.len(),
    decreases s.len() - i,
{
    if i < s.len() && s[i] == c {
        run_end(s, i + 1, c)
    } else {
        i
    }
}

fn illegal_char_error(c: char) -> (e: ParseError)
    ensures
        e@ == illegal_char_message(c),
{
    let mut m = String::new();
    m.push('I');
    m.push('l');
    m.push('l');
    m.push('e');
    m.push('g');
    m.push('a');
    m.push('l');
    m.push(' ');
    m.push('c');
    m.push('h');
    m.push('a');
    m.push('r');
    m.push(':');
    m.push(' ');
    m.push(c);
    proof {
        assert(m@ =~= illegal_char_message(c));
    }
    ParseError::Format(m)
}

proof fn lemma_prepend_prepend(a: Seq<PartView>, b: Seq<PartView>, r: Result<Seq<PartView>, char>)
    ensures
        prepend(a, prepend(b, r)) == prepend(a + b, r),
{
    if let Ok(qs) = r {
        assert(a + (b + qs) =~= (a + b) + qs);
    }
}

/// Compiles a pattern string. Quoted text (with `''` for a quote) and the
/// punctuation `, . : - /` and space stand for themselves; runs of the field
/// letters `G y M d h H m s S a E D z` become counted fields; any other
/// character outside quotes is refused.
pub fn fmt(f: &str) -> (r: Result<SimpleDateFormat, ParseError>)
    ensures
        match compile(f@) {
            Ok(ps) => r matches Ok(d) && d@ == ps,
            Err(c) => r matches Err(e) && e@ == illegal_char_message(c),
        },
        r matches Ok(d) ==> counts_positive(d@),
{
    let s = chars_of(f);
    let mut parts: Vec<Part> = Vec::new();
    let mut quoted = false;
    let mut lit = String::new();
    let mut lit_empty = true;
    let mut i: usize = 0;
    while i < s.len()
        invariant
            i <= s.len(),
            s@ == f@,
            lit_empty == (lit@.len() == 0),
            !quoted ==> lit@.len() == 0,
            compile(s@) == prepend(parts@.map_values(|p: Part| p@), lex(s@, i as int, quoted, lit@)),
        decreases s.len() - i,
    {
        let c = s[i];
        let ghost before = parts@.map_values(|p: Part| p@);
        let ghost acc0 = lit@;
        if !quoted {
            assert(lit@ =~= Seq::<char>::empty());
        }
        if quoted {
            if c != '\'' {
                lit.push(c);
                lit_empty = false;
                i = i + 1;
            } else if i + 1 < s.len() && s[i + 1] == '\'' {
                lit.push('\'');
                lit_empty = false;
                i = i + 2;
            } else {
                if lit_empty {
                    lit.push('\'');
                }
                let ghost text = lit@;
                assert(text =~= if acc0.len() == 0 { seq!['\''] } else { acc0 });
                parts.push(Part::Literal(lit));
                lit = String::new();
                lit_empty = true;
                quoted = false;
                i = i + 1;
                proof {
                    assert(parts@.map_values(|p: Part| p@) =~= before + seq![PartView::Literal(text)]);
                    lemma_prepend_prepend(before, seq![PartView::Literal(text)], lex(s@, i as int, false, Seq::empty()));
                }
            }
        } else if c == '\'' {
            quoted = true;
            i = i + 1;
            assert(lit@ =~= Seq::<char>::empty());
        } else if is_punct_char(c) {
            parts.push(Part::LiteralChar(c));
            i = i + 1;
            proof {
                assert(parts@.map_values(|p: Part| p@) =~= before + seq![PartView::LiteralChar(c)]);
                lemma_prepend_prepend(before, seq![PartView::LiteralChar(c)], lex(s@, i as int, false, Seq::empty()));
            }
        } else {
            let j = run_end(&s, i + 1, c);
            match field_part_of(c, j - i) {
                Some(p) => {
                    let ghost pv = p@;
                    parts.push(p);
                    i = j;
                    proof {
                        assert(parts@.map_values(|p: Part| p@) =~= before + seq![pv]);
                        lemma_prepend_prepend(before, seq![pv], lex(s@, i as int, false, Seq::empty()));
                    }
                },
                None => {
                    return Err(illegal_char_error(c));
                },
            }
        }
    }
    if quoted && !lit_empty {
        let ghost before = parts@.map_values(|p: Part| p@);
        let ghost text = lit@;
        parts.push(Part::Literal(lit));
        proof {
            assert(parts@.map_values(|p: Part| p@) =~= before + seq![PartView::Literal(text)]);
        }
    } else {
        proof {
            assert(parts@.map_values(|p: Part| p@) =~= parts@.map_values(|p: Part| p@) + Seq::<PartView>::empty());
        }
    }
    proof {
        lemma_lex_counts_positive(s@, 0, false, Seq::empty());
    }
    Ok(SimpleDateFormat { parts })
}

} // verus!
