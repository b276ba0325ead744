//! Character-level helpers: decimal digits, zero padding, char sequences.
use vstd::prelude::*;

verus! {

/// Relies on `String::push`: the character is appended at the end.
pub assume_specification[ String::push ](s: &mut String, ch: char)
    ensures
        final(s)@ == old(s)@.push(ch),
;

/// The ASCII digit for a value below ten.
pub open spec fn digit_char(d: nat) -> char {
    if d == 0 { '0' }
    else if d == 1 { '1' }
    else if d == 2 { '2' }
    else if d == 3 { '3' }
    else if d == 4 { '4' }
    else if d == 5 { '5' }
    else if d == 6 { '6' }
    else if d == 7 { '7' }
    else if d == 8 { '8' }
    else { '9' }
}

/// Base-ten digits of `n`, most significant first, without leading zeros.
pub open spec fn digits(n: nat) -> Seq<char>
    decreases n,
{
    if n < 10 {
        seq![digit_char(n)]
    } else {
        digits(n / 10).push(digit_char(n % 10))
    }
}

/// `s` left-padded with `'0'` up to width `w`; never truncated.
pub open spec fn zero_pad(s: Seq<char>, w: nat) -> Seq<char> {
    if s.len() < w {
        Seq::new((w - s.len()) as nat, |_i: int| '0') + s
    } else {
        s
    }
}

/// A signed value in base ten, its magnitude padded to width `w`; a minus sign
/// stands in front of the padding.
pub open spec fn padded_number(v: int, w: nat) -> Seq<char> {
    if v < 0 {
        seq!['-'] + zero_pad(digits((-v) as nat), w)
    } else {
        zero_pad(digits(v as nat), w)
    }
}

pub open spec fn is_digit(c: char) -> bool {
    '0' <= c && c <= '9'
}

pub proof fn lemma_digits_are_digits(n: nat)
    ensures
        digits(n).len() >= 1,
        forall|i: int| 0 <= i < digits(n).len() ==> is_digit(#[trigger] digits(n)[i]),
    decreases n,
{
    if n >= 10 {
        lemma_digits_are_digits(n / 10);
    }
}

fn digit_of(d: u128) -> (c: char)
    requires
        d < 10,
    ensures
        c == digit_char(d as nat),
{
    if d == 0 { '0' }
    else if d == 1 { '1' }
    else if d == 2 { '2' }
    else if d == 3 { '3' }
    else if d == 4 { '4' }
    else if d == 5 { '5' }
    else if d == 6 { '6' }
    else if d == 7 { '7' }
    else if d == 8 { '8' }
    else { '9' }
}

/// The decimal digits of `n`, most significant first.
pub fn decimal_chars(n: u128) -> (v: Vec<char>)
    ensures
        v@ == digits(n as nat),
    decreases n,
{
    let mut v: Vec<char> = if n >= 10 { decimal_chars(n / 10) } else { Vec::new() };
    v.push(digit_of(n % 10));
    proof {
        if n < 10 {
            assert(v@ =~= digits(n as nat));
        }
    }
    v
}

/// Appends every character of `cs` to `out`.
pub fn push_all(out: &mut String, cs: &Vec<char>)
    ensures
        final(out)@ == old(out)@ + cs@,
{
    let mut i: usize = 0;
    while i < cs.len()
        invariant
            i <= cs.len(),
            out@ == old(out)@ + cs@.take(i as int),
        decreases cs.len() - i,
    {
        out.push(cs[i]);
        i = i + 1;
        proof {
            assert(cs@.take(i as int) =~= cs@.take(i - 1).push(cs@[i - 1]));
        }
    }
    assert(cs@.take(i as int) =~= cs@);
}

/// Appends the decimal digits of `n` to `out`.
pub fn push_decimal(out: &mut String, n: u128)
    ensures
        final(out)@ == old(out)@ + digits(n as nat),
{
    let ds = decimal_chars(n);
    push_all(out, &ds);
}

/// Appends `v` in base ten, its magnitude zero-padded to width `w`.
pub fn push_padded(out: &mut String, v: i64, w: usize)
    ensures
        final(out)@ == old(out)@ + padded_number(v as int, w as nat),
{
    let mag: u128 = if v < 0 { (-(v as i128)) as u128 } else { v as u128 };
    if v < 0 {
        out.push('-');
    }
    let ds = decimal_chars(mag);
    let len = ds.len();
    let start = Ghost(out@);
    let mut k: usize = len;
    while k < w
        invariant
            len <= k,
            k <= w || k == len,
            out@ == start@ + Seq::new((k - len) as nat, |_i: int| '0'),
        decreases w - k,
    {
        out.push('0');
        k = k + 1;
        proof {
            assert(out@ =~= start@ + Seq::new((k - len) as nat, |_i: int| '0'));
        }
    }
    push_all(out, &ds);
    proof {
        if v < 0 {
            assert(start@ == old(out)@.push('-'));
            assert(old(out)@.push('-') =~= old(out)@ + seq!['-']);
        } else {
            assert(start@ == old(out)@);
        }
        assert(zero_pad(ds@, w as nat) =~= Seq::new((k - len) as nat, |_i: int| '0') + ds@);
        assert(final(out)@ =~= old(out)@ + padded_number(v as int, w as nat));
    }
}

/// The characters of `s`, in order.
pub fn chars_of(s: &str) -> (v: Vec<char>)
    ensures
        v@ == s@,
{
    let mut v: Vec<char> = Vec::new();
    for c in it: s.chars()
        invariant
            v@ == it.seq().take(it.index() as int),
    {
        v.push(c);
    }
    v
}

} // verus!
