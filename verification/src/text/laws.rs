//! What holds of every text that is cut, trimmed, replaced and put together.

use vstd::prelude::*;

use crate::text::affix::{
    after_prefix, closes, drop_back, drop_front, holds, is_space, lemma_drop_back_prefix,
    lemma_drop_front_suffix, opens, space, stands_at, trimmed, trimmed_end, trimmed_start,
};
use crate::text::number::{padded_left, padded_right};
use crate::text::path::joined_path;
use crate::text::pieces::{
    cut_all, cut_once, first_of, joined, lemma_first_of, lemma_first_of_meaning, lemma_joined_front,
    lines_of, lower, lowered, replaced, without_cr, word_end, words_of,
};

verus! {

/// A text without line breaks is one line, and an empty one is none; such a text,
/// a line break and a rest are that line, without a carriage return at its end,
/// and the lines of the rest.
pub proof fn lines_end_at_line_breaks(x: Seq<char>, rest: Seq<char>)
    requires
        !x.contains('\n'),
    ensures
        x.len() > 0 ==> lines_of(x) == seq![x],
        lines_of(Seq::empty()).len() == 0,
        lines_of(x + seq!['\n'] + rest) == seq![without_cr(x)] + lines_of(rest),
        x.len() > 0 && x.last() != '\r' ==> without_cr(x) == x,
        without_cr(x.push('\r')) == x,
{
    lemma_first_of_meaning(x, '\n');
    let s = x + seq!['\n'] + rest;
    let n = x.len() as int;
    assert forall|k: int| 0 <= k < n implies #[trigger] s[k] != '\n' by {
        assert(s[k] == x[k]);
    }
    assert(s[n] == '\n');
    lemma_first_of(s, '\n', n);
    assert(s.take(n) =~= x);
    assert(s.skip(n + 1) =~= rest);
    assert(x.push('\r').drop_last() =~= x);
}

/// No line has a line break in it.
pub proof fn lines_have_no_line_break(s: Seq<char>)
    ensures
        forall|i: int| 0 <= i < lines_of(s).len() ==> !(#[trigger] lines_of(s)[i]).contains('\n'),
    decreases s.len(),
{
    lemma_first_of_meaning(s, '\n');
    let i = first_of(s, '\n') as int;
    if s.len() > 0 && i < s.len() {
        let rest = s.skip(i + 1);
        let line = without_cr(s.take(i));
        lines_have_no_line_break(rest);
        let all = lines_of(s);
        assert forall|k: int| 0 <= k < all.len() implies !(#[trigger] all[k]).contains('\n') by {
            if k > 0 {
                assert(all[k] == lines_of(rest)[k - 1]);
            } else {
                assert forall|j: int| 0 <= j < line.len() implies line[j] != '\n' by {
                    assert(line[j] == s[j]);
                }
            }
        }
    }
}

/// The pieces between the marks, put together with the mark, are the text; no
/// piece has a mark in it.
pub proof fn pieces_make_the_text(s: Seq<char>, c: char)
    ensures
        cut_all(s, c).len() > 0,
        joined(cut_all(s, c), seq![c]) == s,
        forall|i: int| 0 <= i < cut_all(s, c).len() ==> !(#[trigger] cut_all(s, c)[i]).contains(c),
    decreases s.len(),
{
    lemma_first_of_meaning(s, c);
    let i = first_of(s, c) as int;
    if i < s.len() {
        let rest = s.skip(i + 1);
        pieces_make_the_text(rest, c);
        lemma_joined_front(s.take(i), cut_all(rest, c), seq![c]);
        assert(s =~= s.take(i) + seq![c] + rest);
        let all = cut_all(s, c);
        assert forall|k: int| 0 <= k < all.len() implies !(#[trigger] all[k]).contains(c) by {
            if k > 0 {
                assert(all[k] == cut_all(rest, c)[k - 1]);
            } else {
                assert forall|j: int| 0 <= j < i implies s.take(i)[j] != c by {
                    assert(s.take(i)[j] == s[j]);
                }
            }
        }
    }
}

/// A text is cut at its first mark: what stands before it and what stands behind.
pub proof fn a_text_is_cut_at_its_first_mark(a: Seq<char>, b: Seq<char>, c: char)
    requires
        !a.contains(c),
    ensures
        cut_once(a + seq![c] + b, c) == Some((a, b)),
        cut_once(a, c) is None,
{
    let s = a + seq![c] + b;
    let n = a.len() as int;
    assert forall|k: int| 0 <= k < n implies #[trigger] s[k] != c by {
        assert(s[k] == a[k]);
    }
    assert(s[n] == c);
    lemma_first_of(s, c, n);
    assert(s.take(n) =~= a);
    assert(s.skip(n + 1) =~= b);
    lemma_first_of_meaning(a, c);
}

/// Trimming takes the blanks off both ends and nothing else.
pub proof fn trimming_takes_blanks_off_the_ends(s: Seq<char>)
    ensures
        ({
            let front = s.take(s.len() - trimmed_start(s).len());
            let back = trimmed_start(s).skip(trimmed(s).len() as int);
            &&& s == front + trimmed(s) + back
            &&& forall|i: int| 0 <= i < front.len() ==> is_space(#[trigger] front[i])
            &&& forall|i: int| 0 <= i < back.len() ==> is_space(#[trigger] back[i])
        }),
        trimmed(s).len() > 0 ==> !is_space(trimmed(s)[0]) && !is_space(trimmed(s).last()),
        (forall|i: int| 0 <= i < s.len() ==> is_space(#[trigger] s[i])) ==> trimmed(s).len() == 0,
        trimmed(s).len() <= s.len(),
{
    let t = trimmed_start(s);
    let d = trimmed(s);
    lemma_drop_front_suffix(s, space());
    lemma_drop_back_prefix(t, space());
    let front = s.take(s.len() - t.len());
    let back = t.skip(d.len() as int);
    assert(s =~= front + t);
    assert(t =~= d + back);
    assert(s =~= front + d + back);
    lemma_front_blank(s);
    assert forall|i: int| 0 <= i < front.len() implies is_space(#[trigger] front[i]) by {
        assert(front[i] == s[i]);
    }
    assert forall|i: int| 0 <= i < back.len() implies is_space(#[trigger] back[i]) by {
        assert(back[i] == t[d.len() + i]);
        assert(space()(t[d.len() + i]));
    }
    if d.len() > 0 {
        assert(d[0] == t[0]);
        assert(!space()(t[0]));
        assert(!space()(d.last()));
        if forall|i: int| 0 <= i < s.len() ==> is_space(#[trigger] s[i]) {
            assert(s[s.len() - t.len()] == t[0]);
        }
    }
}

proof fn lemma_front_blank(s: Seq<char>)
    ensures
        trimmed_start(s).len() <= s.len(),
        forall|i: int| 0 <= i < s.len() - trimmed_start(s).len() ==> is_space(#[trigger] s[i]),
    decreases s.len(),
{
    if s.len() > 0 && space()(s[0]) {
        let t = s.drop_first();
        lemma_front_blank(t);
        assert forall|i: int| 0 <= i < s.len() - trimmed_start(s).len() implies is_space(
            #[trigger] s[i],
        ) by {
            if i > 0 {
                assert(t[i - 1] == s[i]);
            }
        }
    }
}

/// A text between blanks is what trimming leaves.
pub proof fn trimming_leaves_the_text(front: Seq<char>, t: Seq<char>, back: Seq<char>)
    requires
        forall|i: int| 0 <= i < front.len() ==> is_space(#[trigger] front[i]),
        forall|i: int| 0 <= i < back.len() ==> is_space(#[trigger] back[i]),
        t.len() > 0,
        !is_space(t[0]),
        !is_space(t.last()),
    ensures
        trimmed(front + t + back) == t,
{
    let s = front + t + back;
    let n = front.len() as int;
    assert forall|k: int| 0 <= k < n implies space()(#[trigger] s[k]) by {
        assert(s[k] == front[k]);
    }
    assert(s[n] == t[0]);
    crate::text::affix::lemma_drop_front(s, space(), n);
    let u = s.skip(n);
    assert(u =~= t + back);
    let m = t.len() as int;
    assert forall|k: int| m <= k < u.len() implies space()(#[trigger] u[k]) by {
        assert(u[k] == back[k - m]);
    }
    assert(u[m - 1] == t.last());
    crate::text::affix::lemma_drop_back(u, space(), m);
    assert(u.take(m) =~= t);
}

/// What follows a prefix is the rest of the text, and a text without the prefix
/// has none.
pub proof fn what_follows_a_prefix(p: Seq<char>, rest: Seq<char>, s: Seq<char>)
    ensures
        after_prefix(p + rest, p) == Some(rest),
        after_prefix(s, p) is Some <==> opens(s, p),
{
    assert((p + rest).take(p.len() as int) =~= p);
    assert((p + rest).skip(p.len() as int) =~= rest);
}

/// A text without the one that is to be replaced stays, and where it stands
/// between two such texts the new one takes its place.
pub proof fn replacing_puts_one_in_the_others_place(s: Seq<char>, from: Seq<char>, to: Seq<char>)
    requires
        from.len() > 0,
        !holds(s, from),
    ensures
        replaced(s, from, to) == s,
    decreases s.len(),
{
    if s.len() > 0 {
        let t = s.drop_first();
        assert(!stands_at(s, from, 0));
        if holds(t, from) {
            let i = choose|i: int| #[trigger] stands_at(t, from, i);
            assert(s.subrange(i + 1, i + 1 + from.len()) =~= t.subrange(i, i + from.len()));
            assert(stands_at(s, from, i + 1));
        }
        replacing_puts_one_in_the_others_place(t, from, to);
        assert(s =~= seq![s[0]] + t);
    }
}

/// Where the text to be replaced stands first, the new one takes its place and
/// the rest is gone over alike.
pub proof fn replacing_goes_on_behind(from: Seq<char>, to: Seq<char>, rest: Seq<char>)
    requires
        from.len() > 0,
    ensures
        replaced(from + rest, from, to) == to + replaced(rest, from, to),
{
    let s = from + rest;
    assert(s.subrange(0, from.len() as int) =~= from);
    assert(stands_at(s, from, 0));
    assert(s.skip(from.len() as int) =~= rest);
}

/// Small letters stay, capitals become small, and everything else stays, place
/// by place.
pub proof fn lowering_touches_capitals_alone(s: Seq<char>, i: int)
    requires
        0 <= i < s.len(),
    ensures
        lowered(s).len() == s.len(),
        !('A' <= s[i] <= 'Z') ==> lowered(s)[i] == s[i],
        'A' <= s[i] <= 'Z' ==> lowered(s)[i] as u32 == s[i] as u32 + 32,
        lower(lower(s[i])) == lower(s[i]),
{
    let c = s[i];
    if 'A' <= c && c <= 'Z' {
        assert(c as u8 as u32 == c as u32);
    }
}

/// A word has no blank in it and is not empty.
pub proof fn words_have_no_blank(s: Seq<char>)
    ensures
        forall|i: int|
            0 <= i < words_of(s).len() ==> (#[trigger] words_of(s)[i]).len() > 0 && forall|k: int|
                0 <= k < words_of(s)[i].len() ==> !is_space(#[trigger] words_of(s)[i][k]),
    decreases s.len(),
{
    let t = trimmed_start(s);
    lemma_drop_front_suffix(s, space());
    if t.len() > 0 {
        lemma_word(t);
        assert(!space()(t[0]));
        let n = word_end(t);
        let rest = t.skip(n);
        words_have_no_blank(rest);
        let all = words_of(s);
        assert(all == seq![t.take(n)] + words_of(rest));
        assert forall|i: int| 0 <= i < all.len() implies (#[trigger] all[i]).len() > 0
            && forall|k: int| 0 <= k < all[i].len() ==> !is_space(#[trigger] all[i][k]) by {
            if i > 0 {
                assert(all[i] == words_of(rest)[i - 1]);
            } else {
                assert forall|k: int| 0 <= k < all[0].len() implies !is_space(
                    #[trigger] all[0][k],
                ) by {
                    assert(all[0][k] == t[k]);
                }
            }
        }
    }
}

proof fn lemma_word(t: Seq<char>)
    ensures
        0 <= word_end(t) <= t.len(),
        t.len() > 0 && !is_space(t[0]) ==> word_end(t) > 0,
        forall|k: int| 0 <= k < word_end(t) ==> !is_space(#[trigger] t[k]),
    decreases t.len(),
{
    if t.len() > 0 && !is_space(t[0]) {
        let u = t.drop_first();
        lemma_word(u);
        assert forall|k: int| 0 <= k < word_end(t) implies !is_space(#[trigger] t[k]) by {
            if k > 0 {
                assert(u[k - 1] == t[k]);
            }
        }
    }
}

/// Padding keeps the text at its side, fills with blanks up to the width, and
/// never cuts.
pub proof fn padding_fills_up(s: Seq<char>, n: int)
    ensures
        opens(padded_right(s, n), s),
        closes(padded_left(s, n), s),
        padded_right(s, n).len() == if s.len() < n { n } else { s.len() as int },
        padded_left(s, n).len() == if s.len() < n { n } else { s.len() as int },
        forall|i: int|
            s.len() <= i < padded_right(s, n).len() ==> #[trigger] padded_right(s, n)[i] == ' ',
        forall|i: int|
            0 <= i < padded_left(s, n).len() - s.len() ==> #[trigger] padded_left(s, n)[i] == ' ',
{
    let r = padded_right(s, n);
    let l = padded_left(s, n);
    assert(r.take(s.len() as int) =~= s);
    assert(l.skip(l.len() - s.len()) =~= s);
}

/// A path in a directory is the directory, one slash, and the name.
pub proof fn a_path_has_one_slash(dir: Seq<char>, name: Seq<char>)
    ensures
        opens(joined_path(dir, name), dir),
        closes(joined_path(dir, name), name),
        dir.len() > 0 && dir.last() != '/' ==> joined_path(dir, name) == dir + seq!['/'] + name,
        dir.len() == 0 || dir.last() == '/' ==> joined_path(dir, name) == dir + name,
{
    let p = joined_path(dir, name);
    reveal_strlit("/");
    assert("/"@ =~= seq!['/']);
    assert(p.take(dir.len() as int) =~= dir);
    assert(p.skip(p.len() - name.len()) =~= name);
}

/// Dropping what is not there changes nothing.
pub proof fn nothing_to_drop(s: Seq<char>, p: spec_fn(char) -> bool)
    requires
        s.len() > 0,
        !p(s[0]),
        !p(s.last()),
    ensures
        drop_front(s, p) == s,
        drop_back(s, p) == s,
        trimmed_end(s) == drop_back(s, space()),
{
}

/// The lines of two texts, the first of which ends its last line, are those of
/// the one and then those of the other.
pub proof fn lines_follow_one_another(a: Seq<char>, b: Seq<char>)
    requires
        a.len() == 0 || a.last() == '\n',
    ensures
        lines_of(a + b) == lines_of(a) + lines_of(b),
    decreases a.len(),
{
    if a.len() == 0 {
        assert(a + b =~= b);
        assert(lines_of(a) + lines_of(b) =~= lines_of(b));
    } else {
        lemma_first_of_meaning(a, '\n');
        assert(a[a.len() - 1] == '\n');
        assert(a.contains('\n'));
        let i = first_of(a, '\n') as int;
        let s = a + b;
        assert forall|k: int| 0 <= k < i implies #[trigger] s[k] != '\n' by {
            assert(s[k] == a[k]);
        }
        assert(s[i] == '\n');
        lemma_first_of(s, '\n', i);
        assert(s.take(i) =~= a.take(i));
        let rest = a.skip(i + 1);
        assert(s.skip(i + 1) =~= rest + b);
        if rest.len() > 0 {
            assert(rest.last() == a.last());
        }
        lines_follow_one_another(rest, b);
        assert(lines_of(s) =~= lines_of(a) + lines_of(b));
    }
}

/// Blanks are the space, the tab and the line breaks; letters, digits and marks
/// are none.
pub proof fn blanks_are_blank(c: char)
    ensures
        c == ' ' || c == '\t' || c == '\n' || c == '\r' ==> is_space(c),
        '!' <= c <= '~' ==> !is_space(c),
{
}

} // verus!
