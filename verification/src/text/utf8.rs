//! Byte lengths of text, and cuts that fall between characters.

use vstd::prelude::*;
use vstd::utf8::{encode_scalar, encode_utf8};

use crate::text::{chars, collect};

verus! {

/// The number of bytes in the UTF-8 encoding of `c`.
pub open spec fn width(c: char) -> nat {
    let u = c as u32;
    if u <= 0x7f {
        1
    } else if u <= 0x7ff {
        2
    } else if u <= 0xffff {
        3
    } else {
        4
    }
}

/// The number of bytes in the UTF-8 encoding of `s`.
pub open spec fn utf8_len(s: Seq<char>) -> nat
    decreases s.len(),
{
    if s.len() == 0 {
        0
    } else {
        width(s[0]) + utf8_len(s.drop_first())
    }
}

/// The byte length is the length of the encoding.
pub proof fn lemma_utf8_len(s: Seq<char>)
    ensures
        encode_utf8(s).len() == utf8_len(s),
    decreases s.len(),
{
    if s.len() > 0 {
        lemma_utf8_len(s.drop_first());
        vstd::utf8::char_is_scalar(s[0]);
        assert(encode_scalar(s[0] as u32).len() == width(s[0]));
    }
}

/// Byte lengths add up over concatenation.
pub proof fn lemma_utf8_len_concat(a: Seq<char>, b: Seq<char>)
    ensures
        utf8_len(a + b) == utf8_len(a) + utf8_len(b),
    decreases a.len(),
{
    if a.len() == 0 {
        assert(a + b =~= b);
    } else {
        lemma_utf8_len_concat(a.drop_first(), b);
        assert((a + b).drop_first() =~= a.drop_first() + b);
    }
}

/// The number of bytes in the UTF-8 encoding of `c`.
pub fn char_width(c: char) -> (r: usize)
    ensures
        r == width(c),
{
    let u = c as u32;
    if u <= 0x7f {
        1
    } else if u <= 0x7ff {
        2
    } else if u <= 0xffff {
        3
    } else {
        4
    }
}

/// The number of bytes in the UTF-8 encoding of `s`.
pub fn byte_len(s: &str) -> (r: usize)
    ensures
        r == utf8_len(s@),
{
    proof {
        lemma_utf8_len(s@);
    }
    s.as_bytes().len()
}

/// How many leading characters of `s` fit in `max` bytes.
pub open spec fn fit_count(s: Seq<char>, max: int) -> nat
    decreases s.len(),
{
    if s.len() == 0 || width(s[0]) > max {
        0
    } else {
        1 + fit_count(s.drop_first(), max - width(s[0]))
    }
}

/// The longest prefix of `s` whose encoding fits in `max` bytes.
pub open spec fn fit_front(s: Seq<char>, max: int) -> Seq<char> {
    s.take(fit_count(s, max) as int)
}

/// The longest prefix really is a prefix, fits, and could not be longer.
pub proof fn lemma_fit(s: Seq<char>, max: int)
    requires
        max >= 0,
    ensures
        fit_count(s, max) <= s.len(),
        utf8_len(fit_front(s, max)) <= max,
        fit_count(s, max) < s.len() ==> utf8_len(s.take(fit_count(s, max) + 1int)) > max,
        utf8_len(s) <= max ==> fit_front(s, max) == s,
    decreases s.len(),
{
    if s.len() == 0 {
        assert(fit_front(s, max) =~= s);
    } else if width(s[0]) > max {
        assert(s.take(0int) =~= Seq::<char>::empty());
        assert(s.take(1int).drop_first() =~= Seq::<char>::empty());
    } else {
        let t = s.drop_first();
        lemma_fit(t, max - width(s[0]));
        let n = fit_count(t, max - width(s[0])) as int;
        assert(s.take(n + 1).drop_first() =~= t.take(n));
        if n < t.len() {
            assert(s.take(n + 2).drop_first() =~= t.take(n + 1));
        }
        if utf8_len(s) <= max {
            assert(s.take(n + 1) =~= s);
        }
    }
}

proof fn lemma_fit_step(s: Seq<char>, max: int, i: int)
    requires
        0 <= i <= s.len(),
        utf8_len(s.take(i)) <= max,
        i == s.len() || utf8_len(s.take(i)) + width(s[i]) > max,
    ensures
        fit_count(s, max) == i,
    decreases i,
{
    if i > 0 {
        let t = s.drop_first();
        assert(s.take(i).drop_first() =~= t.take(i - 1));
        lemma_fit_step(t, max - width(s[0]), i - 1);
    } else {
        assert(s.take(0int) =~= Seq::<char>::empty());
    }
}

/// The longest prefix of `s` whose encoding fits in `max` bytes.
pub fn fit_prefix(s: &str, max: usize) -> (r: String)
    ensures
        r@ == fit_front(s@, max as int),
{
    let v = chars(s);
    let mut i: usize = 0;
    let mut left: usize = max;
    while i < v.len() && char_width(v[i]) <= left
        invariant
            i <= v@.len(),
            left <= max,
            utf8_len(v@.take(i as int)) == max - left,
        decreases v.len() - i,
    {
        proof {
            let one = seq![v@[i as int]];
            assert(v@.take(i + 1) =~= v@.take(i as int) + one);
            lemma_utf8_len_concat(v@.take(i as int), one);
            assert(one.drop_first() =~= Seq::<char>::empty());
            assert(utf8_len(one) == width(v@[i as int])) by {
                reveal_with_fuel(utf8_len, 2);
            }
        }
        left -= char_width(v[i]);
        i += 1;
    }
    proof {
        lemma_fit_step(v@, max as int, i as int);
        assert(v@.subrange(0, i as int) =~= v@.take(i as int));
    }
    collect(&v, 0, i)
}

/// The shortest suffix of `s` that starts between characters at or after byte
/// `from`: the characters whose first byte is not before it.
pub open spec fn tail_from(s: Seq<char>, from: int) -> Seq<char>
    decreases s.len(),
{
    if s.len() == 0 || from <= 0 {
        s
    } else {
        tail_from(s.drop_first(), from - width(s[0]))
    }
}

/// The characters of `s` whose first byte is at or after byte `from`.
pub fn suffix_from(s: &str, from: usize) -> (r: String)
    ensures
        r@ == tail_from(s@, from as int),
{
    let v = chars(s);
    let mut i: usize = 0;
    let mut left: usize = from;
    assert(v@.skip(0) =~= v@);
    while i < v.len() && left > 0
        invariant
            i <= v@.len(),
            tail_from(v@.skip(i as int), left as int) == tail_from(v@, from as int),
        decreases v.len() - i,
    {
        let w = char_width(v[i]);
        proof {
            assert(v@.skip(i as int).drop_first() =~= v@.skip(i + 1));
            if left < w {
                let t = v@.skip(i + 1);
                assert(tail_from(t, left - w) == t);
                assert(tail_from(t, 0) == t);
            }
        }
        left = if w <= left { left - w } else { 0 };
        i += 1;
    }
    proof {
        assert(v@.subrange(i as int, v@.len() as int) =~= v@.skip(i as int));
    }
    collect(&v, i, v.len())
}

} // verus!
