//! Prefixes, suffixes, and trimming.

use vstd::prelude::*;

use crate::text::{chars, collect};

verus! {

/// The characters with the Unicode `White_Space` property.
pub open spec fn is_space(c: char) -> bool {
    let u = c as u32;
    ||| 0x9 <= u <= 0xd
    ||| u == 0x20
    ||| u == 0x85
    ||| u == 0xa0
    ||| u == 0x1680
    ||| 0x2000 <= u <= 0x200a
    ||| u == 0x2028
    ||| u == 0x2029
    ||| u == 0x202f
    ||| u == 0x205f
    ||| u == 0x3000
}

/// Whether `c` has the Unicode `White_Space` property.
pub fn is_white(c: char) -> (r: bool)
    ensures
        r == is_space(c),
{
    let u = c as u32;
    (0x9 <= u && u <= 0xd) || u == 0x20 || u == 0x85 || u == 0xa0 || u == 0x1680 || (0x2000 <= u
        && u <= 0x200a) || u == 0x2028 || u == 0x2029 || u == 0x202f || u == 0x205f || u == 0x3000
}

/// The `White_Space` property as a predicate value.
pub open spec fn space() -> spec_fn(char) -> bool {
    |c: char| is_space(c)
}

/// Membership in a set of characters as a predicate value.
pub open spec fn one_of(set: Seq<char>) -> spec_fn(char) -> bool {
    |c: char| set.contains(c)
}

/// `s` without the longest run of leading characters that satisfy `p`.
pub open spec fn drop_front(s: Seq<char>, p: spec_fn(char) -> bool) -> Seq<char>
    decreases s.len(),
{
    if s.len() > 0 && p(s[0]) {
        drop_front(s.drop_first(), p)
    } else {
        s
    }
}

/// `s` without the longest run of trailing characters that satisfy `p`.
pub open spec fn drop_back(s: Seq<char>, p: spec_fn(char) -> bool) -> Seq<char>
    decreases s.len(),
{
    if s.len() > 0 && p(s.last()) {
        drop_back(s.drop_last(), p)
    } else {
        s
    }
}

/// `s` without leading whitespace.
pub open spec fn trimmed_start(s: Seq<char>) -> Seq<char> {
    drop_front(s, space())
}

/// `s` without trailing whitespace.
pub open spec fn trimmed_end(s: Seq<char>) -> Seq<char> {
    drop_back(s, space())
}

/// `s` without leading and trailing whitespace.
pub open spec fn trimmed(s: Seq<char>) -> Seq<char> {
    trimmed_end(trimmed_start(s))
}

/// Dropping leading characters leaves a suffix that opens on a kept one.
pub proof fn lemma_drop_front(s: Seq<char>, p: spec_fn(char) -> bool, n: int)
    requires
        0 <= n <= s.len(),
        forall|k: int| 0 <= k < n ==> p(#[trigger] s[k]),
        n == s.len() || !p(s[n]),
    ensures
        drop_front(s, p) == s.skip(n),
    decreases n,
{
    if n > 0 {
        assert forall|k: int| 0 <= k < n - 1 implies p(#[trigger] s.drop_first()[k]) by {
            assert(s.drop_first()[k] == s[k + 1]);
        }
        lemma_drop_front(s.drop_first(), p, n - 1);
        assert(s.drop_first().skip(n - 1) =~= s.skip(n));
    } else {
        assert(s.skip(0) =~= s);
    }
}

/// Dropping trailing characters leaves a prefix that closes on a kept one.
pub proof fn lemma_drop_back(s: Seq<char>, p: spec_fn(char) -> bool, n: int)
    requires
        0 <= n <= s.len(),
        forall|k: int| n <= k < s.len() ==> p(#[trigger] s[k]),
        n == 0 || !p(s[n - 1]),
    ensures
        drop_back(s, p) == s.take(n),
    decreases s.len() - n,
{
    if n < s.len() {
        assert(p(s[s.len() - 1]));
        assert forall|k: int| n <= k < s.drop_last().len() implies p(
            #[trigger] s.drop_last()[k],
        ) by {
            assert(s.drop_last()[k] == s[k]);
        }
        if n > 0 {
            assert(s.drop_last()[n - 1] == s[n - 1]);
        }
        lemma_drop_back(s.drop_last(), p, n);
        assert(s.drop_last().take(n) =~= s.take(n));
    } else {
        assert(s.take(n) =~= s);
    }
}

/// What is left after dropping trailing characters is a prefix.
pub proof fn lemma_drop_back_prefix(s: Seq<char>, p: spec_fn(char) -> bool)
    ensures
        drop_back(s, p).len() <= s.len(),
        drop_back(s, p) == s.take(drop_back(s, p).len() as int),
        drop_back(s, p).len() > 0 ==> !p(drop_back(s, p).last()),
        forall|k: int| drop_back(s, p).len() <= k < s.len() ==> p(#[trigger] s[k]),
    decreases s.len(),
{
    if s.len() > 0 && p(s.last()) {
        lemma_drop_back_prefix(s.drop_last(), p);
        let n = drop_back(s, p).len() as int;
        assert(s.drop_last().take(n) =~= s.take(n));
        assert forall|k: int| n <= k < s.len() implies p(#[trigger] s[k]) by {
            if k < s.len() - 1 {
                assert(s.drop_last()[k] == s[k]);
            }
        }
    } else {
        assert(s.take(s.len() as int) =~= s);
    }
}

/// What is left after dropping leading characters is a suffix.
pub proof fn lemma_drop_front_suffix(s: Seq<char>, p: spec_fn(char) -> bool)
    ensures
        drop_front(s, p).len() <= s.len(),
        drop_front(s, p) == s.skip(s.len() - drop_front(s, p).len()),
        drop_front(s, p).len() > 0 ==> !p(drop_front(s, p)[0]),
    decreases s.len(),
{
    if s.len() > 0 && p(s[0]) {
        lemma_drop_front_suffix(s.drop_first(), p);
        let d = drop_front(s, p);
        assert(s.drop_first().skip(s.len() - 1 - d.len()) =~= s.skip(s.len() - d.len()));
    } else {
        assert(s.skip(0) =~= s);
    }
}

/// `s` without leading whitespace.
pub fn trim_start(s: &str) -> (r: String)
    ensures
        r@ == trimmed_start(s@),
{
    let v = chars(s);
    let mut i: usize = 0;
    while i < v.len() && is_white(v[i])
        invariant
            i <= v@.len(),
            forall|k: int| 0 <= k < i ==> is_space(#[trigger] v@[k]),
        decreases v.len() - i,
    {
        i += 1;
    }
    proof {
        lemma_drop_front(v@, space(), i as int);
        assert(v@.subrange(i as int, v@.len() as int) =~= v@.skip(i as int));
    }
    collect(&v, i, v.len())
}

/// `s` without trailing whitespace.
pub fn trim_end(s: &str) -> (r: String)
    ensures
        r@ == trimmed_end(s@),
{
    let v = chars(s);
    let mut n: usize = v.len();
    while n > 0 && is_white(v[n - 1])
        invariant
            n <= v@.len(),
            forall|k: int| n <= k < v@.len() ==> is_space(#[trigger] v@[k]),
        decreases n,
    {
        n -= 1;
    }
    proof {
        lemma_drop_back(v@, space(), n as int);
        assert(v@.subrange(0, n as int) =~= v@.take(n as int));
    }
    collect(&v, 0, n)
}

/// `s` without leading and trailing whitespace.
pub fn trim(s: &str) -> (r: String)
    ensures
        r@ == trimmed(s@),
{
    trim_end(trim_start(s).as_str())
}

fn in_set(set: &Vec<char>, c: char) -> (r: bool)
    ensures
        r == set@.contains(c),
{
    let mut i: usize = 0;
    while i < set.len()
        invariant
            i <= set@.len(),
            forall|k: int| 0 <= k < i ==> set@[k] != c,
        decreases set.len() - i,
    {
        if set[i] == c {
            return true;
        }
        i += 1;
    }
    false
}

/// `s` without the leading characters that occur in `set`.
pub fn trim_start_of(s: &str, set: &str) -> (r: String)
    ensures
        r@ == drop_front(s@, one_of(set@)),
{
    let v = chars(s);
    let w = chars(set);
    let mut i: usize = 0;
    while i < v.len() && in_set(&w, v[i])
        invariant
            i <= v@.len(),
            forall|k: int| 0 <= k < i ==> w@.contains(#[trigger] v@[k]),
        decreases v.len() - i,
    {
        i += 1;
    }
    proof {
        lemma_drop_front(v@, one_of(set@), i as int);
        assert(v@.subrange(i as int, v@.len() as int) =~= v@.skip(i as int));
    }
    collect(&v, i, v.len())
}

/// `s` without the trailing characters that occur in `set`.
pub fn trim_end_of(s: &str, set: &str) -> (r: String)
    ensures
        r@ == drop_back(s@, one_of(set@)),
{
    let v = chars(s);
    let w = chars(set);
    let mut n: usize = v.len();
    while n > 0 && in_set(&w, v[n - 1])
        invariant
            n <= v@.len(),
            forall|k: int| n <= k < v@.len() ==> w@.contains(#[trigger] v@[k]),
        decreases n,
    {
        n -= 1;
    }
    proof {
        lemma_drop_back(v@, one_of(set@), n as int);
        assert(v@.subrange(0, n as int) =~= v@.take(n as int));
    }
    collect(&v, 0, n)
}

/// True when `s` opens with `p`.
pub open spec fn opens(s: Seq<char>, p: Seq<char>) -> bool {
    p.len() <= s.len() && s.take(p.len() as int) == p
}

/// True when `s` closes with `p`.
pub open spec fn closes(s: Seq<char>, p: Seq<char>) -> bool {
    p.len() <= s.len() && s.skip(s.len() - p.len()) == p
}

/// True when `p` stands in `s` at position `i`.
pub open spec fn stands_at(s: Seq<char>, p: Seq<char>, i: int) -> bool {
    0 <= i && i + p.len() <= s.len() && s.subrange(i, i + p.len()) == p
}

/// True when `p` occurs somewhere in `s`.
pub open spec fn holds(s: Seq<char>, p: Seq<char>) -> bool {
    exists|i: int| #[trigger] stands_at(s, p, i)
}

/// A text between two others occurs in what they make together.
pub proof fn lemma_holds_between(a: Seq<char>, p: Seq<char>, b: Seq<char>)
    ensures
        holds(a + p + b, p),
{
    let s = a + p + b;
    assert(s.subrange(a.len() as int, (a.len() + p.len()) as int) =~= p);
    assert(stands_at(s, p, a.len() as int));
}

/// What occurs in a text occurs in every text that has it in front or behind.
pub proof fn lemma_holds_wider(a: Seq<char>, s: Seq<char>, b: Seq<char>, p: Seq<char>)
    requires
        holds(s, p),
    ensures
        holds(a + s + b, p),
{
    let i = choose|i: int| #[trigger] stands_at(s, p, i);
    let w = a + s + b;
    assert(w.subrange(a.len() + i, a.len() + i + p.len()) =~= s.subrange(i, i + p.len()));
    assert(stands_at(w, p, a.len() + i));
}

/// What occurs in a text that occurs in another occurs in the other.
pub proof fn lemma_holds_through(s: Seq<char>, m: Seq<char>, p: Seq<char>)
    requires
        holds(s, m),
        holds(m, p),
    ensures
        holds(s, p),
{
    let i = choose|i: int| #[trigger] stands_at(s, m, i);
    let j = choose|j: int| #[trigger] stands_at(m, p, j);
    assert(s.subrange(i + j, i + j + p.len()) =~= m.subrange(j, j + p.len())) by {
        assert(forall|k: int|
            0 <= k < m.len() ==> #[trigger] s.subrange(i, i + m.len())[k] == s[i + k]);
    }
    assert(stands_at(s, p, i + j));
}

/// Whether `p` stands in `v` at `i`.
pub fn match_at(v: &Vec<char>, p: &Vec<char>, i: usize) -> (r: bool)
    requires
        i <= v@.len(),
    ensures
        r == stands_at(v@, p@, i as int),
{
    if p.len() > v.len() - i {
        return false;
    }
    let n: usize = v.len();
    let mut k: usize = 0;
    while k < p.len()
        invariant
            k <= p@.len(),
            n == v@.len(),
            i + p@.len() <= n,
            forall|j: int| 0 <= j < k ==> v@[i + j] == p@[j],
        decreases p.len() - k,
    {
        if v[i + k] != p[k] {
            assert(v@.subrange(i as int, i + p@.len())[k as int] != p@[k as int]);
            return false;
        }
        k += 1;
    }
    assert(v@.subrange(i as int, i + p@.len()) =~= p@);
    true
}

/// Whether `s` opens with `p`.
pub fn starts_with(s: &str, p: &str) -> (r: bool)
    ensures
        r == opens(s@, p@),
{
    let v = chars(s);
    let w = chars(p);
    proof {
        if w@.len() <= v@.len() {
            assert(v@.subrange(0, w@.len() as int) =~= v@.take(w@.len() as int));
        }
    }
    match_at(&v, &w, 0)
}

/// Whether `s` closes with `p`.
pub fn ends_with(s: &str, p: &str) -> (r: bool)
    ensures
        r == closes(s@, p@),
{
    let v = chars(s);
    let w = chars(p);
    if w.len() > v.len() {
        return false;
    }
    let at: usize = v.len() - w.len();
    proof {
        assert(v@.subrange(at as int, at + w@.len()) =~= v@.skip(at as int));
    }
    match_at(&v, &w, at)
}

/// Whether `p` occurs in `s`.
pub fn contains(s: &str, p: &str) -> (r: bool)
    ensures
        r == holds(s@, p@),
{
    let v = chars(s);
    let w = chars(p);
    let mut i: usize = 0;
    while i < v.len()
        invariant
            i <= v@.len(),
            v@ == s@,
            w@ == p@,
            forall|k: int| 0 <= k < i ==> !#[trigger] stands_at(s@, p@, k),
        decreases v.len() - i,
    {
        if match_at(&v, &w, i) {
            return true;
        }
        i += 1;
    }
    let last = match_at(&v, &w, i);
    proof {
        if !last {
            assert forall|k: int| !#[trigger] stands_at(s@, p@, k) by {}
        }
    }
    last
}

/// The rest of `s` after the prefix `p`, when it has it.
pub open spec fn after_prefix(s: Seq<char>, p: Seq<char>) -> Option<Seq<char>> {
    if opens(s, p) {
        Some(s.skip(p.len() as int))
    } else {
        None
    }
}

/// The rest of `s` before the suffix `p`, when it has it.
pub open spec fn before_suffix(s: Seq<char>, p: Seq<char>) -> Option<Seq<char>> {
    if closes(s, p) {
        Some(s.take(s.len() - p.len()))
    } else {
        None
    }
}

/// The rest of `s` after the prefix `p`, when it has it.
pub fn strip_prefix(s: &str, p: &str) -> (r: Option<String>)
    ensures
        crate::text::opt(r) == after_prefix(s@, p@),
{
    if !starts_with(s, p) {
        return None;
    }
    let v = chars(s);
    let n = chars(p).len();
    proof {
        assert(v@.subrange(n as int, v@.len() as int) =~= v@.skip(n as int));
    }
    Some(collect(&v, n, v.len()))
}

/// The rest of `s` before the suffix `p`, when it has it.
pub fn strip_suffix(s: &str, p: &str) -> (r: Option<String>)
    ensures
        crate::text::opt(r) == before_suffix(s@, p@),
{
    if !ends_with(s, p) {
        return None;
    }
    let v = chars(s);
    let n = chars(p).len();
    proof {
        assert(v@.subrange(0, v@.len() - n) =~= v@.take(v@.len() - n));
    }
    Some(collect(&v, 0, v.len() - n))
}

/// Whether nothing but whitespace is in `s`.
pub fn is_blank(s: &str) -> (r: bool)
    ensures
        r == (trimmed(s@).len() == 0),
{
    trim(s).as_str().is_empty()
}

} // verus!
