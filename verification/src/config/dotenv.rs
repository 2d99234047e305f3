//! The `.env` files that keys are kept in.

use vstd::prelude::*;

use crate::text::affix::{
    after_prefix, before_suffix, is_space, lemma_drop_front, opens, space, starts_with,
    strip_prefix, strip_suffix, trim, trim_start, trimmed, trimmed_start,
};
use crate::text::pieces::{
    first_of, join, joined, lemma_first_of, lemma_first_of_meaning, lemma_joined_front, lines,
    lines_of, without_cr,
};
use crate::text::{cat2, cat3, cat4, chars, opt, same, texts};

verus! {

/// True when a line assigns a variable.
pub open spec fn is_assignment(line: Seq<char>, var: Seq<char>) -> bool {
    match after_prefix(trimmed_start(line), var) {
        Some(rest) => opens(rest, "="@),
        None => false,
    }
}

/// Whether a line assigns a variable.
pub fn assigns(line: &str, var: &str) -> (r: bool)
    ensures
        r == is_assignment(line@, var@),
{
    match strip_prefix(trim_start(line).as_str(), var) {
        Some(rest) => starts_with(rest.as_str(), "="),
        None => false,
    }
}

/// A value without the quotes around it.
pub open spec fn unquoted(s: Seq<char>) -> Seq<char> {
    match peeled(s, "\""@) {
        Some(inner) => inner,
        None => match peeled(s, "'"@) {
            Some(inner) => inner,
            None => s,
        },
    }
}

/// What stands between a mark at the front and the same mark at the end.
pub open spec fn peeled(s: Seq<char>, mark: Seq<char>) -> Option<Seq<char>> {
    match after_prefix(s, mark) {
        Some(rest) => before_suffix(rest, mark),
        None => None,
    }
}

fn peel(s: &str, mark: &str) -> (r: Option<String>)
    ensures
        opt(r) == peeled(s@, mark@),
{
    match strip_prefix(s, mark) {
        Some(rest) => strip_suffix(rest.as_str(), mark),
        None => None,
    }
}

/// The value that a line assigns to a variable.
pub open spec fn assigned(line: Seq<char>, var: Seq<char>) -> Option<Seq<char>> {
    match after_prefix(trimmed_start(line), var) {
        Some(rest) => match after_prefix(rest, "="@) {
            Some(value) => Some(unquoted(trimmed(value))),
            None => None,
        },
        None => None,
    }
}

/// The value that a line assigns to a variable.
pub fn assignment(line: &str, var: &str) -> (r: Option<String>)
    ensures
        opt(r) == assigned(line@, var@),
{
    let rest = match strip_prefix(trim_start(line).as_str(), var) {
        Some(rest) => rest,
        None => return None,
    };
    let value = match strip_prefix(rest.as_str(), "=") {
        Some(v) => trim(v.as_str()),
        None => return None,
    };
    match peel(value.as_str(), "\"") {
        Some(inner) => return Some(inner),
        None => {},
    }
    match peel(value.as_str(), "'") {
        Some(inner) => Some(inner),
        None => Some(value),
    }
}

/// The value of the last line that assigns a variable.
pub open spec fn last_assigned(v: Seq<Seq<char>>, var: Seq<char>) -> Option<Seq<char>>
    decreases v.len(),
{
    if v.len() == 0 {
        None
    } else if assigned(v.last(), var) is Some {
        assigned(v.last(), var)
    } else {
        last_assigned(v.drop_last(), var)
    }
}

/// The value that a file gives a variable.
pub fn file_value(text: &str, var: &str) -> (r: Option<String>)
    ensures
        opt(r) == last_assigned(lines_of(text@), var@),
{
    let v = lines(text);
    let ghost all = texts(v@);
    let mut n: usize = v.len();
    assert(all.take(n as int) =~= all);
    while n > 0
        invariant
            n <= v@.len(),
            all == texts(v@),
            all == lines_of(text@),
            last_assigned(all.take(n as int), var@) == last_assigned(all, var@),
        decreases n,
    {
        proof {
            assert(all.take(n as int).last() == v@[n - 1]@);
            assert(all.take(n as int).drop_last() =~= all.take(n - 1));
        }
        match assignment(v[n - 1].as_str(), var) {
            Some(value) => return Some(value),
            None => {},
        }
        n -= 1;
    }
    None
}

/// The lines that do not assign a variable.
pub open spec fn other_lines(v: Seq<Seq<char>>, var: Seq<char>) -> Seq<Seq<char>>
    decreases v.len(),
{
    if v.len() == 0 {
        Seq::empty()
    } else if is_assignment(v.last(), var) {
        other_lines(v.drop_last(), var)
    } else {
        other_lines(v.drop_last(), var).push(v.last())
    }
}

fn lines_without(text: &str, var: &str) -> (r: (Vec<String>, usize))
    ensures
        texts(r.0@) == other_lines(lines_of(text@), var@),
        r.1 == lines_of(text@).len(),
{
    let v = lines(text);
    let ghost all = texts(v@);
    let mut out: Vec<String> = Vec::new();
    let mut i: usize = 0;
    assert(texts(out@) =~= other_lines(all.take(0), var@));
    while i < v.len()
        invariant
            i <= v@.len(),
            all == texts(v@),
            texts(out@) == other_lines(all.take(i as int), var@),
        decreases v.len() - i,
    {
        proof {
            assert(all.take(i + 1).drop_last() =~= all.take(i as int));
            assert(all.take(i + 1).last() == v@[i as int]@);
        }
        let ghost had = texts(out@);
        if !assigns(v[i].as_str(), var) {
            let line = v[i].clone();
            out.push(line);
            assert(texts(out@) =~= had.push(line@));
        }
        i += 1;
    }
    assert(all.take(all.len() as int) =~= all);
    (out, v.len())
}

/// True when a line of a file assigns a variable.
pub open spec fn sets(text: Seq<char>, var: Seq<char>) -> bool {
    exists|i: int|
        0 <= i < lines_of(text).len() && is_assignment(#[trigger] lines_of(text)[i], var)
}

/// Whether a file assigns a variable.
pub fn env_has_key(text: &str, var: &str) -> (r: bool)
    ensures
        r == sets(text@, var@),
{
    let v = lines(text);
    let ghost all = texts(v@);
    let mut i: usize = 0;
    while i < v.len()
        invariant
            i <= v@.len(),
            all == texts(v@),
            all == lines_of(text@),
            forall|k: int| 0 <= k < i ==> !is_assignment(#[trigger] all[k], var@),
        decreases v.len() - i,
    {
        if assigns(v[i].as_str(), var) {
            assert(is_assignment(all[i as int], var@));
            return true;
        }
        i += 1;
    }
    false
}

/// A file with a variable set: every line that assigned it is dropped, and the
/// new one comes last.
pub open spec fn with_var(text: Seq<char>, var: Seq<char>, value: Seq<char>) -> Seq<char> {
    joined(other_lines(lines_of(text), var).push(var + "="@ + value), "\n"@) + "\n"@
}

/// A file with a variable set. The loader takes the last match, so no earlier
/// one may survive.
pub fn set_env_key(text: &str, var: &str, value: &str) -> (r: String)
    ensures
        r@ == with_var(text@, var@, value@),
{
    let (kept, _) = lines_without(text, var);
    let mut all = kept;
    let ghost had = texts(all@);
    let line = cat3(var, "=", value);
    all.push(line);
    assert(texts(all@) =~= had.push(line@));
    cat2(join(&all, "\n").as_str(), "\n")
}

/// A file without a variable; none when it did not assign it.
pub open spec fn without_var(text: Seq<char>, var: Seq<char>) -> Option<Seq<char>> {
    let kept = other_lines(lines_of(text), var);
    if kept.len() == lines_of(text).len() {
        None
    } else {
        let body = joined(kept, "\n"@);
        if body.len() == 0 {
            Some(body)
        } else {
            Some(body + "\n"@)
        }
    }
}

/// A file without a variable, every other line kept; none when it did not
/// assign it.
pub fn remove_env_key(text: &str, var: &str) -> (r: Option<String>)
    ensures
        opt(r) == without_var(text@, var@),
{
    let (kept, count) = lines_without(text, var);
    assert(texts(kept@).len() == kept@.len());
    if kept.len() == count {
        return None;
    }
    let out = join(&kept, "\n");
    if out.as_str().is_empty() {
        Some(out)
    } else {
        Some(cat2(out.as_str(), "\n"))
    }
}

/// A file with a line added at its end.
pub open spec fn with_line(content: Seq<char>, line: Seq<char>) -> Seq<char> {
    content + crate::settings::yaml::missing_newline(content) + line + "\n"@
}

/// A file with a line added at its end.
pub fn append_line(content: &str, line: &str) -> (r: String)
    ensures
        r@ == with_line(content@, line@),
{
    let v = chars(content);
    if v.len() > 0 && v[v.len() - 1] != '\n' {
        cat4(content, "\n", line, "\n")
    } else {
        assert(content@ + Seq::<char>::empty() =~= content@);
        cat3(content, line, "\n")
    }
}

/// True when a line of a file is the entry.
pub open spec fn lists(text: Seq<char>, entry: Seq<char>) -> bool {
    exists|i: int| 0 <= i < lines_of(text).len() && trimmed(#[trigger] lines_of(text)[i]) == entry
}

/// An ignore file with an entry added; none when it lists it already.
pub fn ensure_gitignored(existing: &str, entry: &str) -> (r: Option<String>)
    ensures
        lists(existing@, entry@) ==> r is None,
        !lists(existing@, entry@) ==> opt(r) == Some(with_line(existing@, entry@)),
{
    let v = lines(existing);
    let ghost all = texts(v@);
    let mut i: usize = 0;
    while i < v.len()
        invariant
            i <= v@.len(),
            all == texts(v@),
            all == lines_of(existing@),
            forall|k: int| 0 <= k < i ==> trimmed(#[trigger] all[k]) != entry@,
        decreases v.len() - i,
    {
        if same(trim(v[i].as_str()).as_str(), entry) {
            assert(trimmed(all[i as int]) == entry@);
            return None;
        }
        i += 1;
    }
    Some(append_line(existing, entry))
}

/// No line feed is in any of the lines.
pub open spec fn one_liners(v: Seq<Seq<char>>) -> bool {
    forall|i: int| 0 <= i < v.len() ==> !(#[trigger] v[i]).contains('\n')
}

proof fn lemma_newline()
    ensures
        "\n"@ == seq!['\n'],
{
    reveal_strlit("\n");
    assert("\n"@ =~= seq!['\n']);
}

/// Lines that were written read back as themselves, but for a carriage return
/// at their end.
proof fn lemma_lines_read_back(v: Seq<Seq<char>>)
    requires
        v.len() > 0,
        one_liners(v),
    ensures
        lines_of(joined(v, "\n"@) + "\n"@) == v.map_values(|l: Seq<char>| without_cr(l)),
    decreases v.len(),
{
    lemma_newline();
    let nl = "\n"@;
    let t = joined(v, nl) + nl;
    let x = v[0];
    let rest = v.drop_first();
    assert(!v[0].contains('\n'));
    assert(v =~= seq![x] + rest);
    let want = v.map_values(|l: Seq<char>| without_cr(l));
    if rest.len() == 0 {
        assert(v =~= seq![x]);
        assert(joined(v, nl) == x);
        assert forall|k: int| 0 <= k < x.len() implies #[trigger] t[k] != '\n' by {
            assert(t[k] == x[k]);
        }
        lemma_first_of(t, '\n', x.len() as int);
        assert(t.take(x.len() as int) =~= x);
        assert(t.skip(x.len() + 1int) =~= Seq::empty());
        assert(lines_of(t.skip(x.len() + 1int)) =~= Seq::empty());
        assert(lines_of(t) =~= want);
    } else {
        lemma_joined_front(x, rest, nl);
        let tail = joined(rest, nl) + nl;
        assert(t =~= x + nl + tail);
        assert forall|k: int| 0 <= k < x.len() implies #[trigger] t[k] != '\n' by {
            assert(t[k] == x[k]);
        }
        lemma_first_of(t, '\n', x.len() as int);
        assert(t.take(x.len() as int) =~= x);
        assert(t.skip(x.len() + 1int) =~= tail);
        assert forall|k: int| 0 <= k < rest.len() implies !(#[trigger] rest[k]).contains('\n') by {
            assert(rest[k] == v[k + 1]);
        }
        lemma_lines_read_back(rest);
        assert(lines_of(t) =~= want);
    }
}

proof fn lemma_lines_one_liners(t: Seq<char>)
    ensures
        one_liners(lines_of(t)),
    decreases t.len(),
{
    lemma_first_of_meaning(t, '\n');
    let i = first_of(t, '\n') as int;
    if t.len() > 0 && i < t.len() {
        lemma_lines_one_liners(t.skip(i + 1));
        let all = lines_of(t);
        let rest = lines_of(t.skip(i + 1));
        assert forall|k: int| 0 <= k < all.len() implies !(#[trigger] all[k]).contains('\n') by {
            if k == 0 {
                let l = t.take(i);
                assert(all[0] == without_cr(l));
                if all[0].contains('\n') {
                    let j = choose|j: int| 0 <= j < all[0].len() && all[0][j] == '\n';
                    assert(l[j] == '\n');
                    assert(t[j] == '\n');
                }
            } else {
                assert(all[k] == rest[k - 1]);
            }
        }
    }
}

proof fn lemma_other_lines(v: Seq<Seq<char>>, var: Seq<char>)
    requires
        one_liners(v),
    ensures
        one_liners(other_lines(v, var)),
        forall|i: int|
            0 <= i < other_lines(v, var).len() ==> !is_assignment(
                #[trigger] other_lines(v, var)[i],
                var,
            ),
        other_lines(v, var).len() <= v.len(),
        other_lines(v, var).len() == v.len() ==> other_lines(v, var) == v,
    decreases v.len(),
{
    if v.len() > 0 {
        let head = v.drop_last();
        assert forall|k: int| 0 <= k < head.len() implies !(#[trigger] head[k]).contains('\n') by {
            assert(head[k] == v[k]);
        }
        assert(!v[v.len() - 1].contains('\n'));
        lemma_other_lines(head, var);
        assert(v =~= head.push(v.last()));
    }
}

/// True for the names that variables have: not empty, no line feed in them, and
/// no whitespace in front.
pub open spec fn is_var(var: Seq<char>) -> bool {
    var.len() > 0 && !var.contains('\n') && !is_space(var[0])
}

proof fn lemma_own_line(var: Seq<char>, value: Seq<char>)
    requires
        is_var(var),
    ensures
        assigned(var + "="@ + value, var) == Some(unquoted(trimmed(value))),
{
    reveal_strlit("=");
    let line = var + "="@ + value;
    assert(line[0] == var[0]);
    lemma_drop_front(line, space(), 0);
    assert(line.skip(0) =~= line);
    assert(line.take(var.len() as int) =~= var);
    let rest = line.skip(var.len() as int);
    assert(rest =~= "="@ + value);
    assert(rest.take(1) =~= "="@);
    assert(rest.skip(1) =~= value);
}

/// A variable that was set is what the file gives: the value, trimmed and
/// without quotes around it. A value that is neither padded nor quoted reads
/// back as itself.
pub proof fn a_var_set_reads_back(text: Seq<char>, var: Seq<char>, value: Seq<char>)
    requires
        is_var(var),
        !value.contains('\n'),
        !value.contains('\r'),
    ensures
        last_assigned(lines_of(with_var(text, var, value)), var) == Some(unquoted(trimmed(value))),
        trimmed(value) == value && unquoted(value) == value ==> last_assigned(
            lines_of(with_var(text, var, value)),
            var,
        ) == Some(value),
{
    reveal_strlit("=");
    let kept = other_lines(lines_of(text), var);
    let line = var + "="@ + value;
    let v = kept.push(line);
    lemma_lines_one_liners(text);
    lemma_other_lines(lines_of(text), var);
    lemma_own_line_whole(var, value);
    assert forall|k: int| 0 <= k < v.len() implies !(#[trigger] v[k]).contains('\n') by {
        if k < kept.len() {
            assert(v[k] == kept[k]);
        }
    }
    lemma_lines_read_back(v);
    let back = v.map_values(|l: Seq<char>| without_cr(l));
    assert(without_cr(line) == line) by {
        if value.len() > 0 {
            assert(line.last() == value.last());
            assert(value[value.len() - 1] == value.last());
        } else {
            assert(line.last() == '=');
        }
    }
    assert(back.last() == line);
    lemma_own_line(var, value);
}

proof fn lemma_cr_assigns(line: Seq<char>, var: Seq<char>)
    requires
        var.len() > 0 ==> !is_space(var[0]),
        is_assignment(without_cr(line), var),
    ensures
        is_assignment(line, var),
{
    reveal_strlit("=");
    if line.len() > 0 && line.last() == '\r' {
        let short = line.drop_last();
        crate::text::affix::lemma_drop_front_suffix(short, space());
        let t = trimmed_start(short);
        let n = short.len() - t.len();
        lemma_leading(short, n);
        assert forall|k: int| 0 <= k < n implies space()(#[trigger] line[k]) by {
            assert(short[k] == line[k]);
        }
        assert(t[0] == short[n]);
        if var.len() > 0 {
            assert(t.take(var.len() as int)[0] == var[0]);
            assert(line[n] == var[0]);
        } else {
            assert(t.skip(0) =~= t);
            assert(t.take(1)[0] == "="@[0]);
            assert(line[n] == '=');
        }
        lemma_drop_front(line, space(), n);
        let u = trimmed_start(line);
        assert(u =~= t.push('\r'));
        assert(u.take(var.len() as int) =~= t.take(var.len() as int));
        let rest = t.skip(var.len() as int);
        assert(u.skip(var.len() as int) =~= rest.push('\r'));
        assert(rest.push('\r').take(1) =~= rest.take(1));
    }
}

proof fn lemma_leading(s: Seq<char>, n: int)
    requires
        n == s.len() - trimmed_start(s).len(),
    ensures
        forall|k: int| 0 <= k < n ==> space()(#[trigger] s[k]),
    decreases s.len(),
{
    if s.len() > 0 && space()(s[0]) {
        lemma_leading(s.drop_first(), n - 1);
        assert forall|k: int| 0 <= k < n implies space()(#[trigger] s[k]) by {
            if k > 0 {
                assert(s.drop_first()[k - 1] == s[k]);
            }
        }
    }
}

/// Setting a variable leaves exactly one line that assigns it, and every other
/// line where it was.
pub proof fn setting_a_var_keeps_the_rest(text: Seq<char>, var: Seq<char>, value: Seq<char>)
    requires
        is_var(var),
        !value.contains('\n'),
    ensures
        ({
            let kept = other_lines(lines_of(text), var);
            let now = lines_of(with_var(text, var, value));
            &&& now.len() == kept.len() + 1
            &&& forall|i: int| 0 <= i < kept.len() ==> #[trigger] now[i] == without_cr(kept[i])
            &&& forall|i: int| 0 <= i < kept.len() ==> !is_assignment(#[trigger] now[i], var)
        }),
{
    reveal_strlit("=");
    let kept = other_lines(lines_of(text), var);
    let line = var + "="@ + value;
    let v = kept.push(line);
    lemma_lines_one_liners(text);
    lemma_other_lines(lines_of(text), var);
    lemma_own_line_whole(var, value);
    assert forall|k: int| 0 <= k < v.len() implies !(#[trigger] v[k]).contains('\n') by {
        if k < kept.len() {
            assert(v[k] == kept[k]);
        }
    }
    lemma_lines_read_back(v);
    let now = lines_of(with_var(text, var, value));
    assert forall|i: int| 0 <= i < kept.len() implies #[trigger] now[i] == without_cr(kept[i]) by {
        assert(v[i] == kept[i]);
    }
    assert forall|i: int| 0 <= i < kept.len() implies !is_assignment(#[trigger] now[i], var) by {
        if is_assignment(now[i], var) {
            lemma_cr_assigns(kept[i], var);
            assert(!is_assignment(kept[i], var));
        }
    }
}

/// A variable that was removed is assigned nowhere, and nothing changes where
/// it was not assigned.
pub proof fn a_var_removed_is_gone(text: Seq<char>, var: Seq<char>)
    requires
        is_var(var),
    ensures
        match without_var(text, var) {
            Some(now) => forall|i: int|
                0 <= i < lines_of(now).len() ==> !is_assignment(#[trigger] lines_of(now)[i], var),
            None => forall|i: int|
                0 <= i < lines_of(text).len() ==> !is_assignment(
                    #[trigger] lines_of(text)[i],
                    var,
                ),
        },
{
    let all = lines_of(text);
    let kept = other_lines(all, var);
    lemma_lines_one_liners(text);
    lemma_other_lines(all, var);
    lemma_newline();
    match without_var(text, var) {
        Some(now) => {
            if joined(kept, "\n"@).len() == 0 {
                assert(lines_of(now) =~= Seq::empty());
            } else {
                assert(kept.len() > 0);
                lemma_lines_read_back(kept);
                assert forall|i: int| 0 <= i < lines_of(now).len() implies !is_assignment(
                    #[trigger] lines_of(now)[i],
                    var,
                ) by {
                    assert(lines_of(now)[i] == without_cr(kept[i]));
                    if is_assignment(lines_of(now)[i], var) {
                        lemma_cr_assigns(kept[i], var);
                        assert(!is_assignment(kept[i], var));
                    }
                }
            }
        },
        None => {},
    }
}

/// The lines that hold anything.
pub open spec fn filled(v: Seq<Seq<char>>) -> Seq<Seq<char>>
    decreases v.len(),
{
    if v.len() == 0 {
        Seq::empty()
    } else if v.last().len() == 0 {
        filled(v.drop_last())
    } else {
        filled(v.drop_last()).push(v.last())
    }
}

proof fn lemma_nothing_assigned(v: Seq<Seq<char>>, var: Seq<char>)
    requires
        forall|i: int| 0 <= i < v.len() ==> !is_assignment(#[trigger] v[i], var),
    ensures
        other_lines(v, var) == v,
    decreases v.len(),
{
    if v.len() > 0 {
        let head = v.drop_last();
        assert forall|i: int| 0 <= i < head.len() implies !is_assignment(
            #[trigger] head[i],
            var,
        ) by {
            assert(head[i] == v[i]);
        }
        lemma_nothing_assigned(head, var);
        assert(!is_assignment(v[v.len() - 1], var));
        assert(v =~= head.push(v.last()));
    }
}

proof fn lemma_subset(v: Seq<Seq<char>>, var: Seq<char>)
    requires
        forall|i: int| 0 <= i < v.len() ==> without_cr(#[trigger] v[i]) == v[i],
    ensures
        forall|i: int|
            0 <= i < other_lines(v, var).len() ==> without_cr(#[trigger] other_lines(v, var)[i])
                == other_lines(v, var)[i],
    decreases v.len(),
{
    if v.len() > 0 {
        let head = v.drop_last();
        assert forall|i: int| 0 <= i < head.len() implies without_cr(#[trigger] head[i])
            == head[i] by {
            assert(head[i] == v[i]);
        }
        lemma_subset(head, var);
        assert(without_cr(v[v.len() - 1]) == v[v.len() - 1]);
        let kept = other_lines(v, var);
        let first = other_lines(head, var);
        assert forall|i: int| 0 <= i < kept.len() implies without_cr(#[trigger] kept[i])
            == kept[i] by {
            if i < first.len() {
                assert(kept[i] == first[i]);
            } else {
                assert(kept[i] == v[v.len() - 1]);
            }
        }
    }
}

/// Removing a variable takes out the lines that assign it and nothing else: it
/// does so just where a line assigns it, what is left are the other lines in
/// their order, empty ones aside, and a second removal finds nothing. A line
/// that ends in two carriage returns would lose one of them, so there is none.
pub proof fn removing_a_var_keeps_the_rest(text: Seq<char>, var: Seq<char>)
    requires
        var.len() > 0 ==> !is_space(var[0]),
        forall|i: int|
            0 <= i < lines_of(text).len() ==> without_cr(#[trigger] lines_of(text)[i])
                == lines_of(text)[i],
    ensures
        without_var(text, var) is Some <==> sets(text, var),
        match without_var(text, var) {
            Some(now) => {
                &&& filled(lines_of(now)) == filled(other_lines(lines_of(text), var))
                &&& without_var(now, var) is None
            },
            None => true,
        },
{
    let all = lines_of(text);
    let kept = other_lines(all, var);
    lemma_lines_one_liners(text);
    lemma_other_lines(all, var);
    lemma_newline();
    if !sets(text, var) {
        assert forall|i: int| 0 <= i < all.len() implies !is_assignment(#[trigger] all[i], var) by {
            assert(!is_assignment(lines_of(text)[i], var));
        }
        lemma_nothing_assigned(all, var);
    } else {
        let k = choose|k: int| 0 <= k < all.len() && is_assignment(#[trigger] all[k], var);
        if kept.len() == all.len() {
            assert(!is_assignment(kept[k], var));
        }
        let now = without_var(text, var)->Some_0;
        let left = lines_of(now);
        if joined(kept, "\n"@).len() == 0 {
            assert(left =~= Seq::empty());
            if kept.len() > 0 {
                if kept.len() == 1 {
                    assert(joined(kept, "\n"@) == kept[0]);
                    assert(kept.drop_last() =~= Seq::empty());
                    assert(filled(kept.drop_last()) =~= Seq::empty());
                } else {
                    assert(joined(kept, "\n"@) == joined(kept.drop_last(), "\n"@) + "\n"@
                        + kept.last());
                    assert(false);
                }
            }
            assert(filled(left) =~= filled(kept));
        } else {
            assert(kept.len() > 0);
            lemma_lines_read_back(kept);
            lemma_subset(all, var);
            assert(left =~= kept);
        }
        assert forall|i: int| 0 <= i < left.len() implies !is_assignment(
            #[trigger] left[i],
            var,
        ) by {
            assert(left[i] == kept[i]);
        }
        lemma_nothing_assigned(left, var);
    }
}

/// Right after a variable was set there is a line to remove.
pub proof fn a_var_set_can_be_removed(text: Seq<char>, var: Seq<char>, value: Seq<char>)
    requires
        is_var(var),
        !value.contains('\n'),
    ensures
        sets(with_var(text, var, value), var),
        without_var(with_var(text, var, value), var) is Some,
{
    reveal_strlit("=");
    let t = with_var(text, var, value);
    let kept = other_lines(lines_of(text), var);
    let now = lines_of(t);
    let line = var + "="@ + value;
    let v = kept.push(line);
    lemma_lines_one_liners(text);
    lemma_other_lines(lines_of(text), var);
    lemma_own_line_whole(var, value);
    assert forall|k: int| 0 <= k < v.len() implies !(#[trigger] v[k]).contains('\n') by {
        if k < kept.len() {
            assert(v[k] == kept[k]);
        }
    }
    lemma_lines_read_back(v);
    let n = kept.len() as int;
    assert(v[n] == line);
    assert(now[n] == without_cr(line));
    let short = if value.len() > 0 && value.last() == '\r' {
        value.drop_last()
    } else {
        value
    };
    assert(without_cr(line) =~= var + "="@ + short) by {
        if value.len() > 0 {
            assert(line.last() == value.last());
        } else {
            assert(line.last() == '=');
        }
    }
    lemma_own_line(var, short);
    assert(is_assignment(now[n], var));
    lemma_lines_one_liners(t);
    lemma_other_lines(now, var);
    if other_lines(now, var).len() == now.len() {
        assert(!is_assignment(other_lines(now, var)[n], var));
    }
}

proof fn lemma_own_line_whole(var: Seq<char>, value: Seq<char>)
    requires
        !var.contains('\n'),
        !value.contains('\n'),
    ensures
        !(var + "="@ + value).contains('\n'),
{
    reveal_strlit("=");
    let line = var + "="@ + value;
    if line.contains('\n') {
        let k = choose|k: int| 0 <= k < line.len() && line[k] == '\n';
        if k < var.len() {
            assert(var[k] == '\n');
        } else if k > var.len() {
            assert(value[k - var.len() - 1] == '\n');
        }
    }
}

} // verus!
