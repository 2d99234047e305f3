//! Text cut to a size, with a mark where something is missing.

use vstd::prelude::*;

use crate::text::utf8::{
    byte_len, fit_front, fit_prefix, lemma_fit, suffix_from, tail_from, utf8_len,
};
use crate::text::cat2;

verus! {

/// `s`, or as much of its front as fits in `max` bytes and a mark that the rest
/// is missing.
pub open spec fn truncated(s: Seq<char>, max: int) -> Seq<char> {
    if utf8_len(s) <= max {
        s
    } else {
        fit_front(s, max) + "\n... [truncated]"@
    }
}

/// `s`, or a mark that the front is missing and as much of its end as fits in
/// `max` bytes.
pub open spec fn truncated_head(s: Seq<char>, max: int) -> Seq<char> {
    if utf8_len(s) <= max {
        s
    } else {
        "... [truncated]\n"@ + tail_from(s, utf8_len(s) - max)
    }
}

/// `text`, or as much of its front as fits in `max` bytes and a mark.
pub fn truncate(text: &str, max: usize) -> (r: String)
    ensures
        r@ == truncated(text@, max as int),
{
    if byte_len(text) <= max {
        return text.to_owned();
    }
    cat2(fit_prefix(text, max).as_str(), "\n... [truncated]")
}

/// `text`, or a mark and as much of its end as fits in `max` bytes.
pub fn truncate_head(text: &str, max: usize) -> (r: String)
    ensures
        r@ == truncated_head(text@, max as int),
{
    let size = byte_len(text);
    if size <= max {
        return text.to_owned();
    }
    cat2("... [truncated]\n", suffix_from(text, size - max).as_str())
}

/// A cut text keeps a prefix of the original that fits, and nothing that fits
/// is cut.
pub proof fn truncated_keeps_a_fitting_prefix(s: Seq<char>, max: int)
    requires
        max >= 0,
    ensures
        utf8_len(s) <= max ==> truncated(s, max) == s,
        utf8_len(s) > max ==> exists|n: int|
            0 <= n <= s.len() && utf8_len(s.take(n)) <= max && (n < s.len() ==> utf8_len(
                s.take(n + 1),
            ) > max) && truncated(s, max) == #[trigger] s.take(n) + "\n... [truncated]"@,
{
    lemma_fit(s, max);
    if utf8_len(s) > max {
        let n = crate::text::utf8::fit_count(s, max) as int;
        assert(truncated(s, max) == s.take(n) + "\n... [truncated]"@);
    }
}

proof fn lemma_tail_fits(s: Seq<char>, from: int)
    ensures
        utf8_len(tail_from(s, from)) <= utf8_len(s),
        0 <= from <= utf8_len(s) ==> utf8_len(tail_from(s, from)) <= utf8_len(s) - from,
        tail_from(s, from).len() <= s.len(),
        tail_from(s, from) == s.skip(s.len() - tail_from(s, from).len()),
        tail_from(s, from).len() < s.len() ==> utf8_len(
            s.skip(s.len() - tail_from(s, from).len() - 1),
        ) > utf8_len(s) - from,
    decreases s.len(),
{
    if s.len() == 0 || from <= 0 {
        assert(s.skip(0) =~= s);
    } else {
        let t = s.drop_first();
        let w = crate::text::utf8::width(s[0]);
        lemma_tail_fits(t, from - w);
        let d = tail_from(s, from);
        assert(t.skip(t.len() - d.len()) =~= s.skip(s.len() - d.len()));
        if from < w {
            assert(tail_from(t, from - w) == t);
        }
        if d.len() == t.len() {
            assert(s.skip(0) =~= s);
        } else {
            assert(t.skip(t.len() - d.len() - 1) =~= s.skip(s.len() - d.len() - 1));
        }
    }
}

/// A text cut at the front keeps the longest suffix of the original that fits,
/// and nothing that fits is cut.
pub proof fn truncated_head_keeps_a_fitting_suffix(s: Seq<char>, max: int)
    requires
        max >= 0,
    ensures
        utf8_len(s) <= max ==> truncated_head(s, max) == s,
        utf8_len(s) > max ==> exists|n: int|
            0 < n <= s.len() && utf8_len(s.skip(n)) <= max && utf8_len(s.skip(n - 1)) > max
                && truncated_head(s, max) == "... [truncated]\n"@ + #[trigger] s.skip(n),
{
    if utf8_len(s) > max {
        lemma_tail_fits(s, utf8_len(s) - max);
        let n = s.len() - tail_from(s, utf8_len(s) - max).len();
        assert(s.skip(0) =~= s);
        assert(truncated_head(s, max) == "... [truncated]\n"@ + s.skip(n));
    }
}

} // verus!
