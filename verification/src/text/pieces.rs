//! Cutting text into pieces and putting pieces together.

use vstd::prelude::*;

use crate::text::affix::{
    closes, holds, is_space, is_white, lemma_drop_front, lemma_holds_between, lemma_holds_wider,
    match_at, opens, space, stands_at, trimmed_start,
};
use crate::text::{chars, collect, texts};

verus! {

/// The position of the first `c` in `s`, or the length when there is none.
pub open spec fn first_of(s: Seq<char>, c: char) -> nat
    decreases s.len(),
{
    if s.len() == 0 || s[0] == c {
        0
    } else {
        1 + first_of(s.drop_first(), c)
    }
}

/// The first position is the one that no earlier one precedes.
pub proof fn lemma_first_of(s: Seq<char>, c: char, n: int)
    requires
        0 <= n <= s.len(),
        forall|k: int| 0 <= k < n ==> #[trigger] s[k] != c,
        n == s.len() || s[n] == c,
    ensures
        first_of(s, c) == n,
    decreases n,
{
    if n > 0 {
        assert(s[0] != c);
        assert forall|k: int| 0 <= k < n - 1 implies #[trigger] s.drop_first()[k] != c by {
            assert(s.drop_first()[k] == s[k + 1]);
        }
        lemma_first_of(s.drop_first(), c, n - 1);
    }
}

/// Bounds and meaning of the first position.
pub proof fn lemma_first_of_meaning(s: Seq<char>, c: char)
    ensures
        0 <= first_of(s, c) <= s.len(),
        first_of(s, c) < s.len() ==> s[first_of(s, c) as int] == c,
        forall|k: int| 0 <= k < first_of(s, c) ==> #[trigger] s[k] != c,
        first_of(s, c) < s.len() <==> s.contains(c),
    decreases s.len(),
{
    if s.len() > 0 && s[0] != c {
        let t = s.drop_first();
        lemma_first_of_meaning(t, c);
        assert forall|k: int| 0 <= k < first_of(s, c) implies #[trigger] s[k] != c by {
            if k > 0 {
                assert(t[k - 1] == s[k]);
            }
        }
        if s.contains(c) {
            let j = choose|j: int| 0 <= j < s.len() && s[j] == c;
            assert(t[j - 1] == c);
        }
    }
}

/// The position of the first `c` at or after `from`, or the length.
pub fn index_from(v: &Vec<char>, c: char, from: usize) -> (r: usize)
    requires
        from <= v@.len(),
    ensures
        from <= r <= v@.len(),
        r == from + first_of(v@.skip(from as int), c),
        forall|k: int| from <= k < r ==> v@[k] != c,
        r < v@.len() ==> v@[r as int] == c,
{
    let mut i: usize = from;
    while i < v.len() && v[i] != c
        invariant
            from <= i <= v@.len(),
            forall|k: int| from <= k < i ==> v@[k] != c,
        decreases v.len() - i,
    {
        i += 1;
    }
    proof {
        lemma_first_of(v@.skip(from as int), c, i - from);
    }
    i
}

/// Whether `s` holds the character `c`.
pub fn contains_char(s: &str, c: char) -> (r: bool)
    ensures
        r == s@.contains(c),
{
    let v = chars(s);
    let i = index_from(&v, c, 0);
    i < v.len()
}

/// The parts of `s` before and after its first `c`; none when it has none.
pub open spec fn cut_once(s: Seq<char>, c: char) -> Option<(Seq<char>, Seq<char>)> {
    let i = first_of(s, c) as int;
    if i < s.len() {
        Some((s.take(i), s.skip(i + 1)))
    } else {
        None
    }
}

/// The parts of `s` before and after its first `c`; none when it has none.
pub fn split_once(s: &str, c: char) -> (r: Option<(String, String)>)
    ensures
        r is Some <==> cut_once(s@, c) is Some,
        r is Some ==> cut_once(s@, c) == Some((r.unwrap().0@, r.unwrap().1@)),
{
    let v = chars(s);
    let i = index_from(&v, c, 0);
    assert(v@.skip(0) =~= v@);
    if i == v.len() {
        return None;
    }
    proof {
        assert(v@.subrange(0, i as int) =~= v@.take(i as int));
        assert(v@.subrange(i + 1, v@.len() as int) =~= v@.skip(i + 1));
    }
    Some((collect(&v, 0, i), collect(&v, i + 1, v.len())))
}

/// The pieces of `s` between occurrences of `c`, empty ones kept.
pub open spec fn cut_all(s: Seq<char>, c: char) -> Seq<Seq<char>>
    decreases s.len(),
{
    let i = first_of(s, c) as int;
    if i < s.len() {
        seq![s.take(i)] + cut_all(s.skip(i + 1), c)
    } else {
        seq![s]
    }
}

/// The pieces of `s` between occurrences of `c`, empty ones kept.
pub fn split(s: &str, c: char) -> (r: Vec<String>)
    ensures
        texts(r@) == cut_all(s@, c),
{
    let v = chars(s);
    let mut out: Vec<String> = Vec::new();
    let mut start: usize = 0;
    proof {
        assert(v@.skip(0) =~= v@);
        assert(texts(out@) + cut_all(v@, c) =~= cut_all(v@, c));
    }
    loop
        invariant_except_break
            texts(out@) + cut_all(v@.skip(start as int), c) == cut_all(v@, c),
        invariant
            start <= v@.len(),
        ensures
            texts(out@) == cut_all(v@, c),
        decreases v@.len() - start,
    {
        let i = index_from(&v, c, start);
        let piece = collect(&v, start, i);
        let ghost rest = v@.skip(start as int);
        let ghost before = texts(out@);
        proof {
            lemma_first_of_meaning(rest, c);
        }
        out.push(piece);
        proof {
            assert(texts(out@) =~= before.push(piece@));
            assert(piece@ =~= rest.take(i - start));
            if i < v@.len() {
                assert(rest.skip(i - start + 1) =~= v@.skip(i + 1));
                assert(before.push(piece@) + cut_all(v@.skip(i + 1), c) =~= before + (seq![
                    piece@,
                ] + cut_all(v@.skip(i + 1), c)));
            } else {
                assert(piece@ =~= rest);
                assert(before.push(piece@) =~= before + seq![rest]);
            }
        }
        if i == v.len() {
            break;
        }
        start = i + 1;
    }
    out
}

/// A line without the carriage return that stood before its newline.
pub open spec fn without_cr(s: Seq<char>) -> Seq<char> {
    if s.len() > 0 && s.last() == '\r' {
        s.drop_last()
    } else {
        s
    }
}

/// The lines of `s`: each ends at a newline, or at a carriage return and a
/// newline, and the last one may lack its ending.
pub open spec fn lines_of(s: Seq<char>) -> Seq<Seq<char>>
    decreases s.len(),
{
    let i = first_of(s, '\n') as int;
    if s.len() == 0 {
        seq![]
    } else if i < s.len() {
        seq![without_cr(s.take(i))] + lines_of(s.skip(i + 1))
    } else {
        seq![s]
    }
}

/// The lines of `s`, without their endings.
pub fn lines(s: &str) -> (r: Vec<String>)
    ensures
        texts(r@) == lines_of(s@),
{
    let v = chars(s);
    let mut out: Vec<String> = Vec::new();
    let mut start: usize = 0;
    proof {
        assert(v@.skip(0) =~= v@);
        assert(texts(out@) + lines_of(v@) =~= lines_of(v@));
    }
    while start < v.len()
        invariant
            start <= v@.len(),
            texts(out@) + lines_of(v@.skip(start as int)) == lines_of(v@),
        decreases v@.len() - start,
    {
        let i = index_from(&v, '\n', start);
        let ghost rest = v@.skip(start as int);
        let ghost before = texts(out@);
        proof {
            lemma_first_of_meaning(rest, '\n');
        }
        if i == v.len() {
            let piece = collect(&v, start, i);
            out.push(piece);
            proof {
                assert(texts(out@) =~= before.push(piece@));
                assert(piece@ =~= rest);
                assert(before.push(piece@) =~= before + seq![rest]);
                assert(v@.skip(i as int) =~= Seq::<char>::empty());
                assert(lines_of(v@.skip(i as int)) =~= Seq::<Seq<char>>::empty());
                assert(texts(out@) + lines_of(v@.skip(i as int)) =~= texts(out@));
            }
            start = i;
        } else {
            let stop: usize = if i > start && v[i - 1] == '\r' { i - 1 } else { i };
            let piece = collect(&v, start, stop);
            out.push(piece);
            proof {
                assert(texts(out@) =~= before.push(piece@));
                let line = rest.take(i - start);
                if i > start {
                    assert(line.last() == v@[i - 1]);
                }
                assert(piece@ =~= without_cr(line));
                assert(rest.skip(i - start + 1) =~= v@.skip(i + 1));
                assert(before.push(piece@) + lines_of(v@.skip(i + 1)) =~= before + (seq![piece@]
                    + lines_of(v@.skip(i + 1))));
            }
            start = i + 1;
        }
    }
    proof {
        assert(v@.skip(start as int) =~= Seq::<char>::empty());
        assert(lines_of(v@.skip(start as int)) =~= Seq::<Seq<char>>::empty());
        assert(texts(out@) + lines_of(v@.skip(start as int)) =~= texts(out@));
    }
    out
}

/// The length of the run without whitespace that opens `s`.
pub open spec fn word_end(s: Seq<char>) -> int
    decreases s.len(),
{
    if s.len() == 0 || is_space(s[0]) {
        0
    } else {
        1 + word_end(s.drop_first())
    }
}

/// The opening run without whitespace ends at the first space or at the end.
pub proof fn lemma_word_end(s: Seq<char>, n: int)
    requires
        0 <= n <= s.len(),
        forall|k: int| 0 <= k < n ==> !is_space(#[trigger] s[k]),
        n == s.len() || is_space(s[n]),
    ensures
        word_end(s) == n,
    decreases n,
{
    if n > 0 {
        assert(!is_space(s[0]));
        assert forall|k: int| 0 <= k < n - 1 implies !is_space(#[trigger] s.drop_first()[k]) by {
            assert(s.drop_first()[k] == s[k + 1]);
        }
        lemma_word_end(s.drop_first(), n - 1);
    }
}

proof fn lemma_trimmed_start_shorter(s: Seq<char>)
    ensures
        trimmed_start(s).len() <= s.len(),
        trimmed_start(s).len() > 0 ==> !is_space(trimmed_start(s)[0]),
{
    crate::text::affix::lemma_drop_front_suffix(s, space());
}

/// The runs without whitespace in `s`, in order.
pub open spec fn words_of(s: Seq<char>) -> Seq<Seq<char>>
    decreases s.len(),
    via words_of_shrinks
{
    let t = trimmed_start(s);
    if t.len() == 0 {
        seq![]
    } else {
        seq![t.take(word_end(t))] + words_of(t.skip(word_end(t)))
    }
}

proof fn lemma_word_end_bounds(s: Seq<char>)
    ensures
        0 <= word_end(s) <= s.len(),
        s.len() > 0 && !is_space(s[0]) ==> word_end(s) > 0,
    decreases s.len(),
{
    if s.len() > 0 && !is_space(s[0]) {
        lemma_word_end_bounds(s.drop_first());
    }
}

#[via_fn]
proof fn words_of_shrinks(s: Seq<char>) {
    lemma_trimmed_start_shorter(s);
    lemma_word_end_bounds(trimmed_start(s));
}

/// The runs without whitespace in `s`, in order.
pub fn words(s: &str) -> (r: Vec<String>)
    ensures
        texts(r@) == words_of(s@),
{
    let v = chars(s);
    let mut out: Vec<String> = Vec::new();
    let mut start: usize = 0;
    proof {
        assert(v@.skip(0) =~= v@);
        assert(texts(out@) + words_of(v@) =~= words_of(v@));
    }
    loop
        invariant_except_break
            texts(out@) + words_of(v@.skip(start as int)) == words_of(v@),
        invariant
            start <= v@.len(),
        ensures
            texts(out@) == words_of(v@),
        decreases v@.len() - start,
    {
        let ghost rest = v@.skip(start as int);
        let ghost before = texts(out@);
        let mut i: usize = start;
        while i < v.len() && is_white(v[i])
            invariant
                start <= i <= v@.len(),
                forall|k: int| start <= k < i ==> is_space(#[trigger] v@[k]),
            decreases v@.len() - i,
        {
            i += 1;
        }
        proof {
            lemma_drop_front(rest, space(), i - start);
            assert(rest.skip(i - start) =~= v@.skip(i as int));
        }
        if i == v.len() {
            proof {
                assert(trimmed_start(rest).len() == 0);
                assert(words_of(rest) =~= Seq::<Seq<char>>::empty());
                assert(before + words_of(rest) =~= before);
            }
            break;
        }
        let mut j: usize = i;
        while j < v.len() && !is_white(v[j])
            invariant
                i <= j <= v@.len(),
                forall|k: int| i <= k < j ==> !is_space(#[trigger] v@[k]),
            decreases v@.len() - j,
        {
            j += 1;
        }
        let piece = collect(&v, i, j);
        out.push(piece);
        proof {
            let t = v@.skip(i as int);
            lemma_word_end(t, j - i);
            assert(piece@ =~= t.take(j - i));
            assert(t.skip(j - i) =~= v@.skip(j as int));
            assert(texts(out@) =~= before.push(piece@));
            assert(before.push(piece@) + words_of(v@.skip(j as int)) =~= before + (seq![piece@]
                + words_of(v@.skip(j as int))));
            assert(j > i) by {
                if j == i {
                    assert(is_space(v@[i as int]));
                }
            }
        }
        start = j;
    }
    out
}

/// The parts one after another, with `sep` between neighbours.
pub open spec fn joined(parts: Seq<Seq<char>>, sep: Seq<char>) -> Seq<char>
    decreases parts.len(),
{
    if parts.len() == 0 {
        seq![]
    } else if parts.len() == 1 {
        parts[0]
    } else {
        joined(parts.drop_last(), sep) + sep + parts.last()
    }
}

/// A text joined with others stands in what they make.
pub proof fn lemma_joined_holds(v: Seq<Seq<char>>, sep: Seq<char>, i: int)
    requires
        0 <= i < v.len(),
    ensures
        holds(joined(v, sep), v[i]),
    decreases v.len(),
{
    if v.len() == 1 {
        assert(joined(v, sep) =~= Seq::empty() + v[0] + Seq::empty());
        lemma_holds_between(Seq::empty(), v[0], Seq::empty());
    } else if i == v.len() - 1 {
        let head = joined(v.drop_last(), sep) + sep;
        assert(joined(v, sep) =~= head + v[i] + Seq::empty());
        lemma_holds_between(head, v[i], Seq::empty());
    } else {
        lemma_joined_holds(v.drop_last(), sep, i);
        let head = joined(v.drop_last(), sep);
        assert(joined(v, sep) =~= Seq::empty() + head + (sep + v.last()));
        lemma_holds_wider(Seq::empty(), head, sep + v.last(), v[i]);
    }
}

/// Texts one behind the other.
pub open spec fn chained(v: Seq<Seq<char>>) -> Seq<char>
    decreases v.len(),
{
    if v.len() == 0 {
        seq![]
    } else if v.len() == 1 {
        v[0]
    } else {
        chained(v.drop_last()) + v.last()
    }
}

/// One more text goes behind the others.
pub proof fn lemma_chained_push(v: Seq<Seq<char>>, x: Seq<char>)
    ensures
        v.len() > 0 ==> chained(v.push(x)) == chained(v) + x,
        chained(Seq::empty().push(x)) == x,
{
    assert(v.push(x).drop_last() =~= v);
}

/// Each of the texts stands in what they make, the first at its front and the
/// last at its end.
pub proof fn lemma_chained_holds(v: Seq<Seq<char>>, i: int)
    requires
        0 <= i < v.len(),
    ensures
        holds(chained(v), v[i]),
        i == 0 ==> opens(chained(v), v[0]),
        i == v.len() - 1 ==> closes(chained(v), v[i]),
    decreases v.len(),
{
    if v.len() == 1 {
        assert(v[0] =~= Seq::empty() + v[0] + Seq::empty());
        lemma_holds_between(Seq::empty(), v[0], Seq::empty());
        assert(v[0].take(v[0].len() as int) =~= v[0]);
        assert(v[0].skip(0) =~= v[0]);
    } else {
        let head = chained(v.drop_last());
        assert(chained(v) =~= head + v.last() + Seq::empty());
        if i == v.len() - 1 {
            lemma_holds_between(head, v[i], Seq::empty());
            assert(chained(v).skip(chained(v).len() - v[i].len()) =~= v[i]);
        } else {
            lemma_chained_holds(v.drop_last(), i);
            assert(chained(v) =~= Seq::empty() + head + v.last());
            lemma_holds_wider(Seq::empty(), head, v.last(), v[i]);
            if i == 0 {
                assert(chained(v).take(v[0].len() as int) =~= head.take(v[0].len() as int));
            }
        }
    }
}

/// Joining one part and more puts the part and a separator in front.
pub proof fn lemma_joined_front(x: Seq<char>, rest: Seq<Seq<char>>, sep: Seq<char>)
    requires
        rest.len() > 0,
    ensures
        joined(seq![x] + rest, sep) == x + sep + joined(rest, sep),
    decreases rest.len(),
{
    let v = seq![x] + rest;
    assert(v.last() == rest.last());
    assert(v.drop_last() =~= seq![x] + rest.drop_last());
    if rest.len() == 1 {
        assert(rest.drop_last() =~= Seq::empty());
        assert(v.drop_last() =~= seq![x]);
        assert(joined(seq![x], sep) == x);
    } else {
        lemma_joined_front(x, rest.drop_last(), sep);
        assert(x + sep + joined(rest.drop_last(), sep) + sep + rest.last() =~= x + sep + (joined(
            rest.drop_last(),
            sep,
        ) + sep + rest.last()));
    }
}

/// The parts one after another, with `sep` between neighbours.
pub fn join(parts: &Vec<String>, sep: &str) -> (r: String)
    ensures
        r@ == joined(texts(parts@), sep@),
{
    let mut out = String::new();
    let mut i: usize = 0;
    let ghost all = texts(parts@);
    assert(out@ =~= joined(all.take(0), sep@));
    while i < parts.len()
        invariant
            i <= parts@.len(),
            all == texts(parts@),
            out@ == joined(all.take(i as int), sep@),
        decreases parts.len() - i,
    {
        proof {
            assert(all.take(i + 1).drop_last() =~= all.take(i as int));
            assert(all.take(i + 1).last() == parts@[i as int]@);
            assert(out@.len() == 0 || i > 0);
        }
        if i > 0 {
            out.push_str(sep);
        }
        out.push_str(parts[i].as_str());
        proof {
            if i == 0 {
                assert(out@ =~= parts@[0]@);
            }
        }
        i += 1;
    }
    assert(all.take(parts@.len() as int) =~= all);
    out
}

/// `s` with every occurrence of `from`, found left to right without overlap,
/// replaced by `to`. Nothing is replaced when `from` is empty.
pub open spec fn replaced(s: Seq<char>, from: Seq<char>, to: Seq<char>) -> Seq<char>
    decreases s.len(),
{
    if from.len() == 0 || s.len() == 0 {
        s
    } else if stands_at(s, from, 0) {
        to + replaced(s.skip(from.len() as int), from, to)
    } else {
        seq![s[0]] + replaced(s.drop_first(), from, to)
    }
}

/// `s` with every occurrence of the non-empty `from` replaced by `to`.
pub fn replace(s: &str, from: &str, to: &str) -> (r: String)
    requires
        from@.len() > 0,
    ensures
        r@ == replaced(s@, from@, to@),
{
    let v = chars(s);
    let w = chars(from);
    let mut out = String::new();
    let mut i: usize = 0;
    proof {
        assert(v@.skip(0) =~= v@);
        assert(out@ + replaced(v@, from@, to@) =~= replaced(v@, from@, to@));
    }
    while i < v.len()
        invariant
            i <= v@.len(),
            w@ == from@,
            w@.len() > 0,
            out@ + replaced(v@.skip(i as int), from@, to@) == replaced(v@, from@, to@),
        decreases v@.len() - i,
    {
        let ghost rest = v@.skip(i as int);
        let ghost before = out@;
        let here = match_at(&v, &w, i);
        proof {
            assert(here == stands_at(rest, from@, 0)) by {
                if i + w@.len() <= v@.len() {
                    assert(rest.subrange(0, from@.len() as int) =~= v@.subrange(
                        i as int,
                        i + from@.len(),
                    ));
                }
            }
        }
        if here {
            out.push_str(to);
            i += w.len();
            proof {
                assert(rest.skip(from@.len() as int) =~= v@.skip(i as int));
                assert(out@ + replaced(v@.skip(i as int), from@, to@) =~= before + (to@
                    + replaced(v@.skip(i as int), from@, to@)));
            }
        } else {
            out.push(v[i]);
            proof {
                assert(rest.drop_first() =~= v@.skip(i + 1));
                assert(out@ + replaced(v@.skip(i + 1), from@, to@) =~= before + (seq![rest[0]]
                    + replaced(v@.skip(i + 1), from@, to@)));
            }
            i += 1;
        }
    }
    proof {
        assert(v@.skip(i as int) =~= Seq::<char>::empty());
        assert(out@ + Seq::<char>::empty() =~= out@);
    }
    out
}

/// The position of the first `p` in `s`; past every place it could stand when
/// there is none.
pub open spec fn first_at(s: Seq<char>, p: Seq<char>, i: int) -> int
    decreases s.len() + 1 - i,
{
    if i < 0 || i + p.len() > s.len() {
        s.len() as int + 1
    } else if stands_at(s, p, i) {
        i
    } else {
        first_at(s, p, i + 1)
    }
}

/// The parts of `s` before and after its first `p`; none when it has none.
pub open spec fn cut_at(s: Seq<char>, p: Seq<char>) -> Option<(Seq<char>, Seq<char>)> {
    let i = first_at(s, p, 0);
    if i <= s.len() {
        Some((s.take(i), s.skip(i + p.len())))
    } else {
        None
    }
}

/// The parts of `s` before and after its first `p`; none when it has none.
pub fn split_once_str(s: &str, p: &str) -> (r: Option<(String, String)>)
    ensures
        match r {
            Some(parts) => cut_at(s@, p@) == Some((parts.0@, parts.1@)),
            None => cut_at(s@, p@) is None,
        },
{
    let v = chars(s);
    let w = chars(p);
    let mut i: usize = 0;
    while i < v.len() && w.len() <= v.len() - i
        invariant
            i <= v@.len(),
            v@ == s@,
            w@ == p@,
            first_at(s@, p@, 0) == first_at(s@, p@, i as int),
        decreases v.len() - i,
    {
        if match_at(&v, &w, i) {
            proof {
                assert(v@.subrange(0, i as int) =~= v@.take(i as int));
                assert(v@.subrange(i + w@.len(), v@.len() as int) =~= v@.skip(i + w@.len()));
            }
            return Some((collect(&v, 0, i), collect(&v, i + w.len(), v.len())));
        }
        i += 1;
    }
    if i == v.len() && w.len() == 0 {
        proof {
            assert(v@.subrange(0, i as int) =~= v@.take(i as int));
            assert(v@.subrange(i as int, i as int) =~= w@);
            assert(stands_at(s@, p@, i as int));
            assert(v@.subrange(v@.len() as int, v@.len() as int) =~= v@.skip(i as int));
        }
        return Some((collect(&v, 0, i), collect(&v, i, v.len())));
    }
    None
}

/// The first `n` characters of `s`, or all of them.
pub open spec fn leading(s: Seq<char>, n: int) -> Seq<char> {
    if n <= s.len() {
        s.take(n)
    } else {
        s
    }
}

/// The first `n` characters of `s`, or all of them.
pub fn take_chars(s: &str, n: usize) -> (r: String)
    ensures
        r@ == leading(s@, n as int),
{
    let v = chars(s);
    let stop: usize = if n <= v.len() { n } else { v.len() };
    proof {
        assert(v@.subrange(0, stop as int) =~= leading(s@, n as int));
    }
    collect(&v, 0, stop)
}

/// The number of characters in `s`.
pub fn count_chars(s: &str) -> (r: usize)
    ensures
        r == s@.len(),
{
    chars(s).len()
}

/// Each character of `s` with the ASCII capitals made small.
pub open spec fn lowered(s: Seq<char>) -> Seq<char> {
    Seq::new(s.len(), |i: int| lower(s[i]))
}

/// The small letter for an ASCII capital, any other character unchanged.
pub open spec fn lower(c: char) -> char {
    if 'A' <= c && c <= 'Z' {
        ((c as u8) + 32) as u8 as char
    } else {
        c
    }
}

/// The small letter for an ASCII capital, any other character unchanged.
pub fn lower_char(c: char) -> (r: char)
    ensures
        r == lower(c),
{
    if 'A' <= c && c <= 'Z' {
        ((c as u8) + 32) as char
    } else {
        c
    }
}

/// `s` with its ASCII capitals made small.
pub fn to_lower(s: &str) -> (r: String)
    ensures
        r@ == lowered(s@),
{
    let v = chars(s);
    let mut out = String::new();
    let mut i: usize = 0;
    while i < v.len()
        invariant
            i <= v@.len(),
            out@ == lowered(v@).take(i as int),
        decreases v.len() - i,
    {
        out.push(lower_char(v[i]));
        i += 1;
        assert(out@ =~= lowered(v@).take(i as int));
    }
    assert(lowered(v@).take(v@.len() as int) =~= lowered(v@));
    out
}

} // verus!
