//! Decimal and hexadecimal numerals, and padding.

use vstd::prelude::*;

use crate::text::chars;

verus! {

/// The numeral for a value below sixteen.
pub open spec fn digit(n: int) -> char {
    if n == 0 { '0' }
    else if n == 1 { '1' }
    else if n == 2 { '2' }
    else if n == 3 { '3' }
    else if n == 4 { '4' }
    else if n == 5 { '5' }
    else if n == 6 { '6' }
    else if n == 7 { '7' }
    else if n == 8 { '8' }
    else if n == 9 { '9' }
    else if n == 10 { 'a' }
    else if n == 11 { 'b' }
    else if n == 12 { 'c' }
    else if n == 13 { 'd' }
    else if n == 14 { 'e' }
    else { 'f' }
}

/// The numeral for a value below sixteen.
pub fn digit_char(n: u64) -> (r: char)
    ensures
        r == digit(n as int),
{
    if n == 0 { '0' }
    else if n == 1 { '1' }
    else if n == 2 { '2' }
    else if n == 3 { '3' }
    else if n == 4 { '4' }
    else if n == 5 { '5' }
    else if n == 6 { '6' }
    else if n == 7 { '7' }
    else if n == 8 { '8' }
    else if n == 9 { '9' }
    else if n == 10 { 'a' }
    else if n == 11 { 'b' }
    else if n == 12 { 'c' }
    else if n == 13 { 'd' }
    else if n == 14 { 'e' }
    else { 'f' }
}

/// `n` in decimal, without leading zeros.
pub open spec fn dec(n: nat) -> Seq<char>
    decreases n,
{
    if n < 10 {
        seq![digit(n as int)]
    } else {
        dec(n / 10).push(digit((n % 10) as int))
    }
}

/// `n` in decimal, without leading zeros.
pub fn decimal(n: u64) -> (r: String)
    ensures
        r@ == dec(n as nat),
    decreases n,
{
    if n < 10 {
        let mut out = String::new();
        out.push(digit_char(n));
        assert(out@ =~= seq![digit(n as int)]);
        out
    } else {
        let mut out = decimal(n / 10);
        out.push(digit_char(n % 10));
        out
    }
}

/// `n` in decimal, without leading zeros.
pub fn decimal_usize(n: usize) -> (r: String)
    ensures
        r@ == dec(n as nat),
{
    decimal(n as u64)
}

/// The value of an ASCII decimal digit.
pub open spec fn digit_value(c: char) -> Option<nat> {
    if '0' <= c && c <= '9' {
        Some((c as u32 - 48) as nat)
    } else {
        None
    }
}

/// The value of a run of ASCII decimal digits; none when another character is in it.
pub open spec fn digits_value(s: Seq<char>) -> Option<nat>
    decreases s.len(),
{
    if s.len() == 0 {
        Some(0)
    } else {
        match (digits_value(s.drop_last()), digit_value(s.last())) {
            (Some(head), Some(d)) => Some(10 * head + d),
            _ => None,
        }
    }
}

/// What is left of a numeral after one optional leading plus sign.
pub open spec fn unsigned_part(s: Seq<char>) -> Seq<char> {
    if s.len() > 0 && s[0] == '+' {
        s.drop_first()
    } else {
        s
    }
}

/// The value of an unsigned decimal numeral no larger than `max`: an optional
/// plus sign, then one digit or more.
pub open spec fn parsed(s: Seq<char>, max: nat) -> Option<nat> {
    let t = unsigned_part(s);
    if t.len() == 0 {
        None
    } else {
        match digits_value(t) {
            Some(n) => if n <= max { Some(n) } else { None },
            None => None,
        }
    }
}

/// A numeral's value never shrinks as digits are added.
pub proof fn lemma_digits_grow(s: Seq<char>, n: int)
    requires
        0 <= n <= s.len(),
        digits_value(s) is Some,
    ensures
        digits_value(s.take(n)) is Some,
        digits_value(s.take(n)).unwrap() <= digits_value(s).unwrap(),
    decreases s.len() - n,
{
    if n == s.len() {
        assert(s.take(n) =~= s);
    } else {
        lemma_digits_grow(s.drop_last(), n);
        assert(s.drop_last().take(n) =~= s.take(n));
    }
}

/// The value of an unsigned decimal numeral no larger than `max`.
pub fn parse_unsigned(s: &str, max: u64) -> (r: Option<u64>)
    ensures
        r is Some <==> parsed(s@, max as nat) is Some,
        r is Some ==> r.unwrap() as nat == parsed(s@, max as nat).unwrap(),
{
    let v = chars(s);
    let start: usize = if v.len() > 0 && v[0] == '+' { 1 } else { 0 };
    let ghost t = unsigned_part(s@);
    assert(t =~= v@.skip(start as int));
    if start == v.len() {
        return None;
    }
    let mut i: usize = start;
    let mut n: u64 = 0;
    assert(t.take(0) =~= Seq::<char>::empty());
    while i < v.len()
        invariant
            start <= i <= v@.len(),
            t == v@.skip(start as int),
            t == unsigned_part(s@),
            t.len() > 0,
            digits_value(t.take(i - start)) == Some(n as nat),
            n <= max,
        decreases v.len() - i,
    {
        let c = v[i];
        proof {
            assert(t[i - start] == c);
            assert(t.take(i - start + 1).drop_last() =~= t.take(i - start));
            if digits_value(t) is Some {
                lemma_digits_grow(t, i - start + 1);
            }
        }
        if !('0' <= c && c <= '9') {
            return None;
        }
        let d: u64 = (c as u32 - 48) as u64;
        if n > max / 10 {
            assert(10 * n > max);
            return None;
        }
        if d > max || 10 * n > max - d {
            return None;
        }
        n = 10 * n + d;
        i += 1;
    }
    assert(t.take(t.len() as int) =~= t);
    Some(n)
}

/// A run of `n` copies of `c`.
pub open spec fn run_of(c: char, n: int) -> Seq<char> {
    Seq::new(if n < 0 { 0 } else { n as nat }, |i: int| c)
}

/// `s` filled with spaces on the right to at least `n` characters.
pub open spec fn padded_right(s: Seq<char>, n: int) -> Seq<char> {
    s + run_of(' ', n - s.len())
}

/// `s` filled with spaces on the left to at least `n` characters.
pub open spec fn padded_left(s: Seq<char>, n: int) -> Seq<char> {
    run_of(' ', n - s.len()) + s
}

/// A run of `n` copies of `c`.
pub fn run_string(c: char, n: usize) -> (r: String)
    ensures
        r@ == run_of(c, n as int),
{
    let mut out = String::new();
    let mut i: usize = 0;
    assert(out@ =~= run_of(c, 0));
    while i < n
        invariant
            i <= n,
            out@ == run_of(c, i as int),
        decreases n - i,
    {
        out.push(c);
        i += 1;
        assert(out@ =~= run_of(c, i as int));
    }
    out
}

/// `s` filled with spaces on the right to at least `n` characters.
pub fn pad_right(s: &str, n: usize) -> (r: String)
    ensures
        r@ == padded_right(s@, n as int),
{
    let have = chars(s).len();
    let mut out = s.to_owned();
    if have < n {
        out.push_str(run_string(' ', n - have).as_str());
    }
    assert(out@ =~= padded_right(s@, n as int));
    out
}

/// `s` filled with spaces on the left to at least `n` characters.
pub fn pad_left(s: &str, n: usize) -> (r: String)
    ensures
        r@ == padded_left(s@, n as int),
{
    let have = chars(s).len();
    let mut out = if have < n { run_string(' ', n - have) } else { String::new() };
    out.push_str(s);
    assert(out@ =~= padded_left(s@, n as int));
    out
}

/// Reading back a printed number gives the number.
pub proof fn dec_reads_back(n: nat, max: nat)
    requires
        n <= max,
    ensures
        parsed(dec(n), max) == Some(n),
{
    lemma_dec_digits(n);
}

proof fn lemma_dec_digits(n: nat)
    ensures
        digits_value(dec(n)) == Some(n),
        dec(n).len() > 0,
        dec(n)[0] != '+',
    decreases n,
{
    if n < 10 {
        let s = dec(n);
        assert(s.drop_last() =~= Seq::<char>::empty());
        assert(digits_value(s.drop_last()) == Some(0nat));
        assert(digit_value(s.last()) == Some(n));
    } else {
        lemma_dec_digits(n / 10);
        let s = dec(n);
        assert(s.drop_last() =~= dec(n / 10));
        assert(digit_value(s.last()) == Some(n % 10));
    }
}

} // verus!
