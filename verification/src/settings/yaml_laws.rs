//! What holds of every edit of a configuration file.

use vstd::prelude::*;

use crate::settings::yaml::{
    all_keyed, blank, comment, depth, ending, gap_after, header_index, indent, is_header, is_item,
    key_line, keyed, level_at, missing_newline, names, pinned, pinned_keys, place, raw_lines,
    rejoined, saves, scalar, scan, section_empty, slot_of, unkeyed, value_end_from, value_end_of,
    Saved, SlotV, Write,
};
use crate::text::affix::{
    drop_back, is_space, lemma_drop_back_prefix, lemma_drop_front, opens, space, trimmed,
    trimmed_start,
};
use crate::text::number::run_of;
use crate::text::pieces::{
    cut_all, first_of, joined, lemma_first_of, lemma_first_of_meaning, lemma_joined_front, replaced,
};
use crate::text::utf8::{lemma_utf8_len_concat, utf8_len};

verus! {

proof fn lemma_newline()
    ensures
        "\n"@ == seq!['\n'],
{
    reveal_strlit("\n");
    assert("\n"@ =~= seq!['\n']);
}

/// Cutting a text in two at one of the marks cuts the pieces in two.
proof fn lemma_cut_concat(a: Seq<char>, b: Seq<char>, c: char)
    ensures
        cut_all(a + seq![c] + b, c) == cut_all(a, c) + cut_all(b, c),
    decreases a.len(),
{
    let t = a + seq![c] + b;
    lemma_first_of_meaning(a, c);
    let i = first_of(a, c) as int;
    if i < a.len() {
        lemma_first_of(t, c, i);
        let rest = a.skip(i + 1);
        lemma_cut_concat(rest, b, c);
        assert(t.take(i) =~= a.take(i));
        assert(t.skip(i + 1) =~= rest + seq![c] + b);
        assert(cut_all(t, c) =~= cut_all(a, c) + cut_all(b, c));
    } else {
        assert forall|k: int| 0 <= k < a.len() implies #[trigger] t[k] != c by {
            assert(t[k] == a[k]);
        }
        lemma_first_of(t, c, a.len() as int);
        assert(t.take(a.len() as int) =~= a);
        assert(t.skip(a.len() + 1int) =~= b);
        assert(cut_all(t, c) =~= cut_all(a, c) + cut_all(b, c));
    }
}

proof fn lemma_joined_cut(t: Seq<char>, c: char)
    ensures
        joined(cut_all(t, c), seq![c]) == t,
        cut_all(t, c).len() > 0,
    decreases t.len(),
{
    lemma_first_of_meaning(t, c);
    let i = first_of(t, c) as int;
    if i < t.len() {
        let rest = t.skip(i + 1);
        lemma_joined_cut(rest, c);
        lemma_joined_front(t.take(i), cut_all(rest, c), seq![c]);
        assert(t.take(i) + seq![c] + rest =~= t);
    }
}

/// No line feed is in any of the lines.
pub open spec fn unbroken(lines: Seq<Seq<char>>) -> bool {
    forall|i: int| 0 <= i < lines.len() ==> !(#[trigger] lines[i]).contains('\n')
}

proof fn lemma_cut_unbroken(t: Seq<char>)
    ensures
        unbroken(cut_all(t, '\n')),
    decreases t.len(),
{
    lemma_first_of_meaning(t, '\n');
    let i = first_of(t, '\n') as int;
    if i < t.len() {
        lemma_cut_unbroken(t.skip(i + 1));
        let rest = cut_all(t.skip(i + 1), '\n');
        let all = cut_all(t, '\n');
        assert forall|k: int| 0 <= k < all.len() implies !(#[trigger] all[k]).contains('\n') by {
            if k == 0 {
                assert(all[0] == t.take(i));
            } else {
                assert(all[k] == rest[k - 1]);
            }
        }
    }
}

proof fn lemma_cut_joined(lines: Seq<Seq<char>>)
    requires
        lines.len() > 0,
        unbroken(lines),
    ensures
        cut_all(joined(lines, seq!['\n']), '\n') == lines,
    decreases lines.len(),
{
    let last = lines.last();
    assert(!lines[lines.len() - 1].contains('\n'));
    lemma_first_of_meaning(last, '\n');
    assert(cut_all(last, '\n') =~= seq![last]);
    if lines.len() == 1 {
        assert(lines =~= seq![last]);
    } else {
        let head = lines.drop_last();
        assert forall|k: int| 0 <= k < head.len() implies !(#[trigger] head[k]).contains('\n') by {
            assert(head[k] == lines[k]);
        }
        lemma_cut_joined(head);
        lemma_cut_concat(joined(head, seq!['\n']), last, '\n');
        assert(joined(lines, seq!['\n']) == joined(head, seq!['\n']) + seq!['\n'] + last);
        assert(lines =~= head + seq![last]);
    }
}

proof fn lemma_raw_unbroken(t: Seq<char>)
    ensures
        unbroken(raw_lines(t)),
{
    lemma_cut_unbroken(t);
    lemma_joined_cut(t, '\n');
    let all = cut_all(t, '\n');
    if t.len() > 0 && t.last() == '\n' {
        assert forall|k: int| 0 <= k < all.drop_last().len() implies !(
        #[trigger] all.drop_last()[k]).contains('\n') by {
            assert(all.drop_last()[k] == all[k]);
        }
    }
}

proof fn lemma_cut_final(t: Seq<char>)
    requires
        t.len() > 0,
        t.last() == '\n',
    ensures
        cut_all(t, '\n') == cut_all(t.drop_last(), '\n') + seq![Seq::<char>::empty()],
{
    let a = t.drop_last();
    let none = Seq::<char>::empty();
    assert(a + seq!['\n'] + none =~= t);
    lemma_cut_concat(a, none, '\n');
    assert(cut_all(none, '\n') =~= seq![none]);
}

/// A file taken apart into lines and put together again is the same file.
pub proof fn rejoining_restores(text: Seq<char>)
    requires
        text.len() > 0,
    ensures
        rejoined(raw_lines(text), text) == text,
{
    lemma_newline();
    if text.last() == '\n' {
        let a = text.drop_last();
        lemma_cut_final(text);
        lemma_joined_cut(a, '\n');
        assert((cut_all(a, '\n') + seq![Seq::<char>::empty()]).drop_last() =~= cut_all(a, '\n'));
        assert(a + seq!['\n'] =~= text);
    } else {
        lemma_joined_cut(text, '\n');
    }
}

proof fn lemma_raw_of_rejoined(lines: Seq<Seq<char>>, original: Seq<char>)
    requires
        lines.len() > 0,
        unbroken(lines),
        original.len() == 0 || original.last() == '\n' || lines.last().len() > 0,
    ensures
        raw_lines(rejoined(lines, original)) == lines,
{
    lemma_newline();
    lemma_cut_joined(lines);
    let body = joined(lines, seq!['\n']);
    if original.len() == 0 || original.last() == '\n' {
        let t = body + seq!['\n'];
        assert(t.drop_last() =~= body);
        lemma_cut_final(t);
        assert((lines + seq![Seq::<char>::empty()]).drop_last() =~= lines);
    } else {
        let last = lines.last();
        assert(!lines[lines.len() - 1].contains('\n'));
        assert(body.len() > 0 && body.last() == last.last()) by {
            if lines.len() > 1 {
                assert(body == joined(lines.drop_last(), seq!['\n']) + seq!['\n'] + last);
            }
        }
        assert(last.last() != '\n') by {
            assert(last[last.len() - 1] == last.last());
        }
    }
}

proof fn lemma_spaces(n: int)
    requires
        n >= 0,
    ensures
        utf8_len(run_of(' ', n)) == n,
    decreases n,
{
    if n > 0 {
        lemma_spaces(n - 1);
        assert(run_of(' ', n).drop_first() =~= run_of(' ', n - 1));
    }
}

/// True for the names that sections and keys have: no line feed in them, and no
/// whitespace in front.
pub open spec fn is_name(s: Seq<char>) -> bool {
    !s.contains('\n') && (s.len() > 0 ==> !is_space(s[0]))
}

proof fn lemma_key_line(d: int, key: Seq<char>, value: Seq<char>)
    requires
        d >= 0,
        is_name(key),
    ensures
        indent(key_line(d, key, value)) == d,
        !blank(key_line(d, key, value)),
        names(trimmed_start(key_line(d, key, value)), key),
        key_line(d, key, value).len() > 0,
{
    reveal_strlit(": ");
    reveal_strlit(":");
    let line = key_line(d, key, value);
    let rest = key + ": "@ + value;
    assert(line =~= run_of(' ', d) + rest);
    assert forall|k: int| 0 <= k < d implies space()(#[trigger] line[k]) by {
        assert(line[k] == ' ');
    }
    assert(line[d] == rest[0]);
    lemma_drop_front(line, space(), d);
    assert(line.skip(d) =~= rest);
    lemma_spaces(d);
    lemma_utf8_len_concat(run_of(' ', d), rest);
    assert(rest.take(key.len() + 1int) =~= key + ":"@);
    lemma_drop_back_prefix(rest, space());
    let k = key.len() as int;
    assert(rest[k] == ':');
    assert(!is_space(rest[k]));
    if blank(line) {
        assert(trimmed(line) == drop_back(rest, space()));
        assert(space()(rest[k]));
    }
}

proof fn lemma_indent_nonneg(line: Seq<char>)
    ensures
        indent(line) >= 0,
{
    crate::text::affix::lemma_drop_front_suffix(line, space());
    let t = trimmed_start(line);
    let n = line.len() - t.len();
    assert(line =~= line.take(n) + t);
    lemma_utf8_len_concat(line.take(n), t);
}

proof fn lemma_scan_result(
    a: Seq<Seq<char>>,
    i: int,
    level: Option<int>,
    gap: Option<int>,
    key: Seq<char>,
)
    requires
        0 <= i <= a.len(),
        level is Some ==> level.unwrap() > 0,
        gap is Some ==> 0 <= gap.unwrap() < i,
    ensures
        match scan(a, i, level, gap, key) {
            SlotV::At(n, d) => i <= n < a.len() && d > 0 && indent(a[n]) == d,
            SlotV::Insert(n, d) => (i <= n <= a.len() || gap == Some(n)) && d > 0,
            SlotV::Missing => false,
        },
    decreases a.len() - i,
{
    if i < a.len() {
        lemma_indent_nonneg(a[i]);
        if blank(a[i]) {
            lemma_scan_result(a, i + 1, level, gap, key);
        } else {
            lemma_scan_result(a, i + 1, level, gap_after(gap, a[i], i), key);
            if indent(a[i]) != 0 {
                lemma_scan_result(a, i + 1, Some(level_at(level, a[i])), None, key);
            }
        }
    }
}

/// A key that goes before the comments that close a section has the depth that
/// was known when they began.
proof fn lemma_scan_gap(a: Seq<Seq<char>>, i: int, level: Option<int>, g: int, key: Seq<char>)
    requires
        0 <= g < i <= a.len(),
        level is Some ==> level.unwrap() > 0,
    ensures
        match scan(a, i, level, Some(g), key) {
            SlotV::Insert(n, d) => n == g ==> d == depth(level),
            _ => true,
        },
    decreases a.len() - i,
{
    if i < a.len() {
        lemma_indent_nonneg(a[i]);
        if blank(a[i]) {
            lemma_scan_gap(a, i + 1, level, g, key);
        } else if indent(a[i]) == 0 {
            lemma_scan_gap(a, i + 1, level, g, key);
        } else {
            lemma_scan_result(a, i + 1, level, None, key);
            lemma_scan_result(a, i + 1, Some(level_at(level, a[i])), None, key);
        }
    }
}

proof fn lemma_scan_meets(
    a: Seq<Seq<char>>,
    b: Seq<Seq<char>>,
    i: int,
    level: Option<int>,
    gap: Option<int>,
    key: Seq<char>,
    n: int,
    d: int,
)
    requires
        0 <= i <= n <= a.len(),
        n < b.len(),
        forall|k: int| i <= k < n ==> #[trigger] a[k] == b[k],
        level is Some ==> level.unwrap() > 0,
        gap is Some ==> 0 <= gap.unwrap() < i,
        scan(a, i, level, gap, key) == SlotV::At(n, d) || scan(a, i, level, gap, key)
            == SlotV::Insert(n, d),
        !blank(b[n]),
        indent(b[n]) == d,
        d > 0,
        names(trimmed_start(b[n]), key),
    ensures
        scan(b, i, level, gap, key) == SlotV::At(n, d),
    decreases n - i,
{
    if i < n {
        assert(a[i] == b[i]);
        lemma_indent_nonneg(a[i]);
        if blank(a[i]) {
            lemma_scan_meets(a, b, i + 1, level, gap, key, n, d);
        } else if comment(a[i]) {
            lemma_scan_meets(a, b, i + 1, level, gap_after(gap, a[i], i), key, n, d);
        } else {
            lemma_scan_meets(a, b, i + 1, Some(level_at(level, a[i])), None, key, n, d);
        }
    } else if n < a.len() {
        lemma_indent_nonneg(a[n]);
        lemma_scan_result(a, n + 1, level, gap, key);
        if !blank(a[n]) {
            lemma_scan_result(a, n + 1, level, gap_after(gap, a[n], n), key);
            if indent(a[n]) != 0 {
                lemma_scan_result(a, n + 1, Some(level_at(level, a[n])), None, key);
            } else {
                lemma_scan_gap(a, n + 1, level, place(gap, n), key);
            }
        }
    }
}

proof fn lemma_header_meaning(lines: Seq<Seq<char>>, section: Seq<char>)
    ensures
        header_index(lines, section) <= lines.len(),
        header_index(lines, section) < lines.len() ==> is_header(
            lines[header_index(lines, section) as int],
            section,
        ),
        forall|k: int|
            0 <= k < header_index(lines, section) ==> !is_header(#[trigger] lines[k], section),
    decreases lines.len(),
{
    if lines.len() > 0 && !is_header(lines[0], section) {
        lemma_header_meaning(lines.drop_first(), section);
        assert forall|k: int| 0 <= k < header_index(lines, section) implies !is_header(
            #[trigger] lines[k],
            section,
        ) by {
            if k > 0 {
                assert(lines.drop_first()[k - 1] == lines[k]);
            }
        }
    }
}

proof fn lemma_header_at(lines: Seq<Seq<char>>, section: Seq<char>, n: int)
    requires
        0 <= n < lines.len(),
        forall|k: int| 0 <= k < n ==> !is_header(#[trigger] lines[k], section),
        is_header(lines[n], section),
    ensures
        header_index(lines, section) == n,
    decreases n,
{
    if n > 0 {
        assert(!is_header(lines[0], section));
        assert forall|k: int| 0 <= k < n - 1 implies !is_header(
            #[trigger] lines.drop_first()[k],
            section,
        ) by {
            assert(lines.drop_first()[k] == lines[k + 1]);
        }
        lemma_header_at(lines.drop_first(), section, n - 1);
    }
}

/// The lines of a file once a key was set: those before the key, the key's
/// line, and those after its old value; or a new section behind all of them.
pub open spec fn lines_keyed(
    lines: Seq<Seq<char>>,
    section: Seq<char>,
    key: Seq<char>,
    value: Seq<char>,
) -> Seq<Seq<char>> {
    match slot_of(lines, section, key) {
        SlotV::Missing => lines.push(section + ":"@).push(key_line(2, key, value)),
        SlotV::At(i, d) => lines.take(i).push(key_line(d, key, value) + ending(lines[i]))
            + lines.skip(value_end_of(lines, i)),
        SlotV::Insert(i, d) => lines.take(i).push(key_line(d, key, value)) + lines.skip(i),
    }
}

proof fn lemma_value_end(lines: Seq<Seq<char>>, i: int, own: int, end: int)
    requires
        0 <= end <= i <= lines.len(),
    ensures
        end <= value_end_from(lines, i, own, end) <= lines.len(),
    decreases lines.len() - i,
{
    if i < lines.len() {
        lemma_value_end(lines, i + 1, own, end);
        lemma_value_end(lines, i + 1, own, i + 1);
    }
}

proof fn lemma_key_line_unbroken(d: int, key: Seq<char>, value: Seq<char>)
    requires
        !key.contains('\n'),
        !value.contains('\n'),
    ensures
        !key_line(d, key, value).contains('\n'),
{
    reveal_strlit(": ");
    let line = key_line(d, key, value);
    if line.contains('\n') {
        let k = choose|k: int| 0 <= k < line.len() && line[k] == '\n';
        let s = run_of(' ', d).len();
        if k < s {
            assert(line[k] == ' ');
        } else if k < s + key.len() {
            assert(key[k - s] == '\n');
        } else if k >= s + key.len() + 2 {
            assert(value[k - s - key.len() - 2] == '\n');
        } else {
            assert(line[k] == ": "@[k - s - key.len()]);
        }
    }
}

/// A set line that keeps the ending of an old one is still the key's line.
proof fn lemma_key_line_ending(d: int, key: Seq<char>, value: Seq<char>, was: Seq<char>)
    requires
        d >= 0,
        is_name(key),
        !value.contains('\n'),
    ensures
        ({
            let line = key_line(d, key, value) + ending(was);
            &&& !line.contains('\n')
            &&& line.len() > 0
            &&& indent(line) == d
            &&& !blank(line)
            &&& names(trimmed_start(line), key)
        }),
{
    let whole = value + ending(was);
    assert(key_line(d, key, value) + ending(was) =~= key_line(d, key, whole));
    assert(!whole.contains('\n')) by {
        if whole.contains('\n') {
            let k = choose|k: int| 0 <= k < whole.len() && whole[k] == '\n';
            if k < value.len() {
                assert(value[k] == '\n');
            }
        }
    }
    lemma_key_line_unbroken(d, key, whole);
    lemma_key_line(d, key, whole);
}

/// Setting a key changes the lines of that key and no others: every other line
/// of the file stands as it stood, character for character.
pub proof fn setting_a_key_keeps_the_rest(
    text: Seq<char>,
    section: Seq<char>,
    key: Seq<char>,
    value: Seq<char>,
)
    requires
        is_name(section),
        is_name(key),
        !value.contains('\n'),
    ensures
        raw_lines(keyed(text, section, key, value)) == lines_keyed(
            raw_lines(text),
            section,
            key,
            value,
        ),
{
    let lines = raw_lines(text);
    let fresh = lines_keyed(lines, section, key, value);
    lemma_raw_unbroken(text);
    lemma_header_meaning(lines, section);
    let h = header_index(lines, section) as int;
    match slot_of(lines, section, key) {
        SlotV::Missing => {
            lemma_missing_lines(text, section, key, value);
        },
        SlotV::At(i, d) => {
            lemma_scan_result(lines, h + 1, None, None, key);
            lemma_value_end(lines, i + 1, indent(lines[i]), i + 1);
            lemma_key_line_ending(d, key, value, lines[i]);
            let end = value_end_of(lines, i);
            lemma_patched(lines, text, key_line(d, key, value) + ending(lines[i]), i, end);
        },
        SlotV::Insert(i, d) => {
            lemma_scan_result(lines, h + 1, None, None, key);
            lemma_key_line_unbroken(d, key, value);
            lemma_key_line(d, key, value);
            lemma_patched(lines, text, key_line(d, key, value), i, i);
        },
    }
}

proof fn lemma_patched(lines: Seq<Seq<char>>, text: Seq<char>, line: Seq<char>, i: int, j: int)
    requires
        lines == raw_lines(text),
        unbroken(lines),
        0 <= i <= j <= lines.len(),
        !line.contains('\n'),
        line.len() > 0,
    ensures
        raw_lines(rejoined(lines.take(i).push(line) + lines.skip(j), text)) == lines.take(i).push(
            line,
        ) + lines.skip(j),
{
    let fresh = lines.take(i).push(line) + lines.skip(j);
    assert forall|k: int| 0 <= k < fresh.len() implies !(#[trigger] fresh[k]).contains('\n') by {
        if k < i {
            assert(fresh[k] == lines[k]);
        } else if k > i {
            assert(fresh[k] == lines[k - i - 1 + j]);
        }
    }
    if text.len() > 0 && text.last() != '\n' {
        lemma_last_line(text);
        if j < lines.len() {
            assert(fresh.last() == lines.last());
        } else {
            assert(fresh.last() == line);
        }
    }
    lemma_raw_of_rejoined(fresh, text);
}

proof fn lemma_last_line(t: Seq<char>)
    requires
        t.len() > 0,
        t.last() != '\n',
    ensures
        raw_lines(t).len() > 0,
        raw_lines(t).last().len() > 0,
    decreases t.len(),
{
    lemma_joined_cut(t, '\n');
    lemma_newline();
    let all = cut_all(t, '\n');
    if all.last().len() == 0 {
        if all.len() == 1 {
            assert(joined(all, seq!['\n']) == all[0]);
        } else {
            let head = joined(all.drop_last(), seq!['\n']);
            assert(t == head + seq!['\n'] + all.last());
            assert(t =~= head + seq!['\n']);
        }
    }
}

proof fn lemma_missing_lines(
    text: Seq<char>,
    section: Seq<char>,
    key: Seq<char>,
    value: Seq<char>,
)
    requires
        is_name(section),
        is_name(key),
        !value.contains('\n'),
    ensures
        raw_lines(
            text + missing_newline(text) + (section + ":\n  "@ + key + ": "@ + value) + "\n"@,
        ) == raw_lines(text).push(section + ":"@).push(key_line(2, key, value)),
{
    lemma_newline();
    reveal_strlit(":\n  ");
    reveal_strlit(":");
    let l1 = section + ":"@;
    let l2 = key_line(2, key, value);
    lemma_key_line_unbroken(2, key, value);
    lemma_key_line(2, key, value);
    assert(!l1.contains('\n')) by {
        if l1.contains('\n') {
            let k = choose|k: int| 0 <= k < l1.len() && l1[k] == '\n';
            if k < section.len() {
                assert(section[k] == '\n');
            }
        }
    }
    let block = section + ":\n  "@ + key + ": "@ + value;
    assert(block =~= l1 + seq!['\n'] + l2);
    let all = text + missing_newline(text) + block + "\n"@;
    lemma_first_of_meaning(l1, '\n');
    lemma_first_of_meaning(l2, '\n');
    assert(cut_all(l1, '\n') =~= seq![l1]);
    assert(cut_all(l2, '\n') =~= seq![l2]);
    lemma_cut_concat(l1, l2, '\n');
    assert(cut_all(block, '\n') =~= seq![l1, l2]);
    assert(all.drop_last() =~= text + missing_newline(text) + block);
    assert(all.last() == '\n');
    lemma_cut_final(all);
    let body = all.drop_last();
    assert(raw_lines(all) =~= cut_all(body, '\n'));
    if text.len() == 0 {
        assert(body =~= block);
    } else if text.last() == '\n' {
        let a = text.drop_last();
        assert(body =~= a + seq!['\n'] + block);
        lemma_cut_concat(a, block, '\n');
        lemma_cut_final(text);
        assert(raw_lines(text) =~= cut_all(a, '\n'));
    } else {
        assert(body =~= text + seq!['\n'] + block);
        lemma_cut_concat(text, block, '\n');
    }
    assert(cut_all(body, '\n') =~= raw_lines(text).push(l1).push(l2));
}

/// The ending that the line of a key keeps when it is set.
pub open spec fn kept_ending(
    lines: Seq<Seq<char>>,
    section: Seq<char>,
    key: Seq<char>,
) -> Seq<char> {
    match slot_of(lines, section, key) {
        SlotV::At(i, _) => ending(lines[i]),
        _ => Seq::empty(),
    }
}

/// True when no line from `i` on belongs to a value at depth `own`.
spec fn ended(lines: Seq<Seq<char>>, i: int, own: int) -> bool
    decreases lines.len() - i,
{
    if i < 0 || i >= lines.len() {
        true
    } else if blank(lines[i]) || (indent(lines[i]) <= own && comment(lines[i])) {
        ended(lines, i + 1, own)
    } else {
        indent(lines[i]) < own || (indent(lines[i]) == own && !is_item(trimmed_start(lines[i])))
    }
}

proof fn lemma_ended(lines: Seq<Seq<char>>, i: int, own: int, end: int)
    requires
        0 <= i,
        ended(lines, i, own),
    ensures
        value_end_from(lines, i, own, end) == end,
    decreases lines.len() - i,
{
    if i < lines.len() && (blank(lines[i]) || (indent(lines[i]) <= own && comment(lines[i]))) {
        lemma_ended(lines, i + 1, own, end);
    }
}

proof fn lemma_value_ended(lines: Seq<Seq<char>>, i: int, own: int, end: int)
    requires
        0 <= end <= i <= lines.len(),
        ended(lines, end, own) == ended(lines, i, own),
    ensures
        ended(lines, value_end_from(lines, i, own, end), own),
    decreases lines.len() - i,
{
    if i < lines.len() {
        if blank(lines[i]) || (indent(lines[i]) <= own && comment(lines[i])) {
            lemma_value_ended(lines, i + 1, own, end);
        } else {
            lemma_value_ended(lines, i + 1, own, i + 1);
        }
    }
}

proof fn lemma_ended_shift(a: Seq<Seq<char>>, i: int, b: Seq<Seq<char>>, j: int, own: int)
    requires
        0 <= i <= a.len(),
        0 <= j <= b.len(),
        a.skip(i) == b.skip(j),
    ensures
        ended(a, i, own) == ended(b, j, own),
    decreases a.len() - i,
{
    assert(a.skip(i).len() == a.len() - i);
    assert(b.skip(j).len() == b.len() - j);
    if i < a.len() {
        assert(a.skip(i)[0] == a[i]);
        assert(b.skip(j)[0] == b[j]);
        assert(a.skip(i + 1) =~= a.skip(i).skip(1));
        assert(b.skip(j + 1) =~= b.skip(j).skip(1));
        lemma_ended_shift(a, i + 1, b, j + 1, own);
    }
}

proof fn lemma_empty_ended(lines: Seq<Seq<char>>, i: int, own: int)
    requires
        0 <= i,
        own > 0,
        section_empty(lines, i),
    ensures
        ended(lines, i, own),
    decreases lines.len() - i,
{
    if i < lines.len() && (blank(lines[i]) || (indent(lines[i]) == 0 && comment(lines[i]))) {
        lemma_empty_ended(lines, i + 1, own);
    }
}

/// Nothing of the section follows where a new key of it goes.
proof fn lemma_scan_insert(
    a: Seq<Seq<char>>,
    i: int,
    level: Option<int>,
    gap: Option<int>,
    key: Seq<char>,
)
    requires
        0 <= i <= a.len(),
        gap is Some ==> 0 <= gap.unwrap() < i && section_empty(a, gap.unwrap()) == section_empty(
            a,
            i,
        ),
    ensures
        match scan(a, i, level, gap, key) {
            SlotV::Insert(n, _) => section_empty(a, n),
            _ => true,
        },
    decreases a.len() - i,
{
    if i < a.len() {
        lemma_indent_nonneg(a[i]);
        if blank(a[i]) {
            lemma_scan_insert(a, i + 1, level, gap, key);
        } else if comment(a[i]) {
            lemma_scan_insert(a, i + 1, level, gap_after(gap, a[i], i), key);
        } else if indent(a[i]) != 0 {
            lemma_scan_insert(a, i + 1, Some(level_at(level, a[i])), None, key);
        }
    }
}

/// A key that was set stands on one line, which gives it the value.
proof fn lemma_one_line(
    a: Seq<Seq<char>>,
    section: Seq<char>,
    key: Seq<char>,
    value: Seq<char>,
)
    requires
        is_name(section),
        is_name(key),
        !value.contains('\n'),
    ensures
        ({
            let b = lines_keyed(a, section, key, value);
            match slot_of(b, section, key) {
                SlotV::At(i, d) => {
                    &&& 0 <= i < b.len()
                    &&& d > 0
                    &&& value_end_of(b, i) == i + 1
                    &&& b[i] == key_line(d, key, value) + kept_ending(a, section, key)
                    &&& match slot_of(a, section, key) {
                        SlotV::Missing => i == a.len() + 1 && d == 2,
                        SlotV::At(n, e) => i == n && d == e,
                        SlotV::Insert(n, e) => i == n && d == e,
                    }
                },
                _ => false,
            }
        }),
{
    let b = lines_keyed(a, section, key, value);
    lemma_header_meaning(a, section);
    let h = header_index(a, section) as int;
    if h < a.len() {
        lemma_scan_result(a, h + 1, None, None, key);
    }
    match slot_of(a, section, key) {
        SlotV::Missing => {
            let n = a.len() as int;
            lemma_section_line(section);
            assert(b[n] == section + ":"@);
            assert forall|k: int| 0 <= k < n implies !is_header(#[trigger] b[k], section) by {
                assert(b[k] == a[k]);
            }
            lemma_header_at(b, section, n);
            lemma_key_line(2, key, value);
            assert(b[n + 1] == key_line(2, key, value));
            assert(scan(b, n + 1, None, None, key) == SlotV::At(n + 1, 2));
            assert(value_end_of(b, n + 1) == n + 2);
            assert(b[n + 1] =~= key_line(2, key, value) + kept_ending(a, section, key));
        },
        SlotV::At(i, d) => {
            let end = value_end_of(a, i);
            lemma_value_end(a, i + 1, indent(a[i]), i + 1);
            lemma_key_line_ending(d, key, value, a[i]);
            assert(b[i] == key_line(d, key, value) + ending(a[i]));
            lemma_found(a, b, section, key, h, i, d);
            lemma_value_ended(a, i + 1, d, i + 1);
            assert(b.skip(i + 1) =~= a.skip(end));
            lemma_ended_shift(a, end, b, i + 1, d);
            lemma_ended(b, i + 1, d, i + 1);
        },
        SlotV::Insert(i, d) => {
            lemma_key_line(d, key, value);
            assert(b[i] == key_line(d, key, value));
            assert(b[i] =~= key_line(d, key, value) + kept_ending(a, section, key));
            lemma_found(a, b, section, key, h, i, d);
            lemma_scan_insert(a, h + 1, None, None, key);
            lemma_empty_ended(a, i, d);
            assert(b.skip(i + 1) =~= a.skip(i));
            lemma_ended_shift(a, i, b, i + 1, d);
            lemma_ended(b, i + 1, d, i + 1);
        },
    }
}

/// A key that was set is the one that is found, on a line that gives it the
/// value: so a saved choice is what the next start reads.
pub proof fn a_key_set_is_pinned(
    text: Seq<char>,
    section: Seq<char>,
    key: Seq<char>,
    value: Seq<char>,
)
    requires
        is_name(section),
        is_name(key),
        !value.contains('\n'),
    ensures
        pinned(keyed(text, section, key, value), section, key),
        ({
            let now = raw_lines(keyed(text, section, key, value));
            match slot_of(now, section, key) {
                SlotV::At(i, d) => 0 <= i < now.len() && now[i] == key_line(d, key, value)
                    + kept_ending(raw_lines(text), section, key),
                _ => false,
            }
        }),
{
    setting_a_key_keeps_the_rest(text, section, key, value);
    lemma_one_line(raw_lines(text), section, key, value);
}

proof fn lemma_found(
    a: Seq<Seq<char>>,
    b: Seq<Seq<char>>,
    section: Seq<char>,
    key: Seq<char>,
    h: int,
    i: int,
    d: int,
)
    requires
        h == header_index(a, section),
        0 <= h < i <= a.len(),
        h < a.len(),
        d > 0,
        i < b.len(),
        !blank(b[i]),
        indent(b[i]) == d,
        names(trimmed_start(b[i]), key),
        forall|k: int| 0 <= k < i ==> #[trigger] a[k] == b[k],
        scan(a, h + 1, None, None, key) == SlotV::At(i, d) || scan(a, h + 1, None, None, key)
            == SlotV::Insert(i, d),
    ensures
        slot_of(b, section, key) == SlotV::At(i, d),
{
    lemma_header_meaning(a, section);
    assert forall|k: int| 0 <= k < h implies !is_header(#[trigger] b[k], section) by {
        assert(a[k] == b[k]);
    }
    assert(a[h] == b[h]);
    lemma_header_at(b, section, h);
    lemma_scan_meets(a, b, h + 1, None, None, key, i, d);
}

/// True when a file that is put together from this one ends in a line feed.
spec fn ends_line(t: Seq<char>) -> bool {
    t.len() == 0 || t.last() == '\n'
}

/// Whether the file ends in a line feed once a key was set.
proof fn lemma_keyed_end(text: Seq<char>, section: Seq<char>, key: Seq<char>, value: Seq<char>)
    requires
        is_name(section),
        is_name(key),
        !value.contains('\n'),
    ensures
        ({
            let t = keyed(text, section, key, value);
            &&& t.len() > 0
            &&& ends_line(t) == (ends_line(text) || slot_of(raw_lines(text), section, key)
                is Missing)
        }),
{
    let lines = raw_lines(text);
    let t = keyed(text, section, key, value);
    let fresh = lines_keyed(lines, section, key, value);
    lemma_newline();
    setting_a_key_keeps_the_rest(text, section, key, value);
    lemma_raw_unbroken(t);
    if slot_of(lines, section, key) is Missing {
        assert(t.last() == '\n');
    } else if ends_line(text) {
        assert(t.last() == '\n');
    } else {
        lemma_one_line(lines, section, key, value);
        assert(t == joined(fresh, seq!['\n']));
        assert(fresh == raw_lines(t));
        if ends_line(t) {
            if t.len() == 0 {
                assert(raw_lines(t).len() == 0);
            } else {
                lemma_cut_joined(fresh);
                assert(cut_all(t, '\n') == fresh);
                assert(raw_lines(t) == cut_all(t, '\n').drop_last());
                assert(false);
            }
        }
    }
}

/// The last write wins: a key that was set and is set again leaves the file that
/// the second setting alone would have left. So setting a key to what it is
/// changes nothing.
pub proof fn the_last_setting_wins(
    text: Seq<char>,
    section: Seq<char>,
    key: Seq<char>,
    first: Seq<char>,
    second: Seq<char>,
)
    requires
        is_name(section),
        is_name(key),
        !first.contains('\n'),
        ending(first).len() == 0,
        !second.contains('\n'),
    ensures
        keyed(keyed(text, section, key, first), section, key, second) == keyed(
            text,
            section,
            key,
            second,
        ),
        keyed(keyed(text, section, key, first), section, key, first) == keyed(
            text,
            section,
            key,
            first,
        ),
{
    lemma_set_again(text, section, key, first, second);
    lemma_set_again(text, section, key, first, first);
}

proof fn lemma_set_again(
    text: Seq<char>,
    section: Seq<char>,
    key: Seq<char>,
    first: Seq<char>,
    second: Seq<char>,
)
    requires
        is_name(section),
        is_name(key),
        !first.contains('\n'),
        ending(first).len() == 0,
        !second.contains('\n'),
    ensures
        keyed(keyed(text, section, key, first), section, key, second) == keyed(
            text,
            section,
            key,
            second,
        ),
{
    let a = raw_lines(text);
    let t1 = keyed(text, section, key, first);
    let t2 = keyed(text, section, key, second);
    let b = lines_keyed(a, section, key, first);
    let c = lines_keyed(a, section, key, second);
    setting_a_key_keeps_the_rest(text, section, key, first);
    setting_a_key_keeps_the_rest(text, section, key, second);
    lemma_one_line(a, section, key, first);
    lemma_keyed_end(text, section, key, first);
    lemma_keyed_end(text, section, key, second);
    lemma_header_meaning(a, section);
    let h = header_index(a, section) as int;
    if h < a.len() {
        lemma_scan_result(a, h + 1, None, None, key);
    }
    let i = slot_of(b, section, key)->At_0;
    let d = slot_of(b, section, key)->At_1;
    let e = kept_ending(a, section, key);
    assert(ending(b[i]) =~= e) by {
        reveal_strlit(": ");
        let plain = key_line(d, key, first);
        assert(plain.last() == (if first.len() > 0 {
            first.last()
        } else {
            ' '
        }));
        if e.len() == 0 {
            assert(b[i] =~= plain);
        }
    }
    let again = b.take(i).push(key_line(d, key, second) + e) + b.skip(i + 1);
    match slot_of(a, section, key) {
        SlotV::Missing => {
            assert(key_line(2, key, second) + e =~= key_line(2, key, second));
            assert(again =~= c);
        },
        SlotV::At(n, l) => {
            lemma_value_end(a, n + 1, indent(a[n]), n + 1);
            assert(again =~= c);
        },
        SlotV::Insert(n, l) => {
            assert(key_line(d, key, second) + e =~= key_line(d, key, second));
            assert(again =~= c);
        },
    }
    rejoining_restores(t2);
}

proof fn lemma_has_lines(text: Seq<char>)
    requires
        text.len() > 0,
    ensures
        raw_lines(text).len() > 0,
{
    lemma_joined_cut(text, '\n');
    if text.last() == '\n' {
        lemma_cut_final(text);
        lemma_joined_cut(text.drop_last(), '\n');
    }
}

/// Taking a key out undoes setting it: where the file did not set the key, there
/// was nothing to take out, and afterwards the file is what it was, but for the
/// line feed at its end that a new section adds where there was none. A section
/// that was there must have had a key, since one without any goes with its last
/// key.
pub proof fn taking_out_undoes_setting(
    text: Seq<char>,
    section: Seq<char>,
    key: Seq<char>,
    value: Seq<char>,
)
    requires
        text.len() > 0,
        is_name(section),
        is_name(key),
        !value.contains('\n'),
        !pinned(text, section, key),
        ({
            let lines = raw_lines(text);
            let h = header_index(lines, section) as int;
            h < lines.len() ==> !section_empty(lines, h + 1)
        }),
    ensures
        unkeyed(text, section, key) is None,
        unkeyed(keyed(text, section, key, value), section, key) == Some(
            if slot_of(raw_lines(text), section, key) is Missing {
                text + missing_newline(text)
            } else {
                text
            },
        ),
{
    let a = raw_lines(text);
    let t = keyed(text, section, key, value);
    let b = raw_lines(t);
    setting_a_key_keeps_the_rest(text, section, key, value);
    lemma_one_line(a, section, key, value);
    lemma_keyed_end(text, section, key, value);
    lemma_has_lines(text);
    lemma_newline();
    rejoining_restores(text);
    lemma_header_meaning(a, section);
    let h = header_index(a, section) as int;
    if h < a.len() {
        lemma_scan_result(a, h + 1, None, None, key);
    }
    match slot_of(a, section, key) {
        SlotV::Missing => {
            let n = a.len() as int;
            let header = section + ":"@;
            lemma_section_line(section);
            let c = b.take(n + 1) + b.skip(n + 2);
            assert(c =~= a.push(header));
            assert forall|k: int| 0 <= k < n implies !is_header(#[trigger] c[k], section) by {
                assert(c[k] == a[k]);
            }
            lemma_header_at(c, section, n);
            assert(section_empty(c, n + 1));
            assert(c.remove(n) =~= a);
            assert(rejoined(a, t) =~= text + missing_newline(text));
        },
        SlotV::Insert(i, d) => {
            assert(b.take(i) + b.skip(i + 1) =~= a);
            assert(rejoined(a, t) == rejoined(a, text));
        },
        SlotV::At(_, _) => {},
    }
}

proof fn lemma_section_line(section: Seq<char>)
    requires
        is_name(section),
    ensures
        is_header(section + ":"@, section),
{
    reveal_strlit(":");
    reveal_strlit(" ");
    reveal_strlit("\t");
    let header = section + ":"@;
    assert(header[0] == if section.len() > 0 {
        section[0]
    } else {
        ':'
    });
    assert(header.take(header.len() as int) =~= header);
    assert(header.skip(header.len() as int) =~= Seq::empty());
    assert(blank(Seq::empty()));
    if opens(header, " "@) {
        assert(header.take(1)[0] == " "@[0]);
    }
    if opens(header, "\t"@) {
        assert(header.take(1)[0] == "\t"@[0]);
    }
}

/// What a quoted scalar holds between its quotes: a backslash makes the next
/// character stand for itself.
pub open spec fn unquoted(s: Seq<char>) -> Seq<char>
    decreases s.len(),
{
    if s.len() == 0 {
        Seq::empty()
    } else if s[0] == '\\' && s.len() > 1 {
        seq![s[1]] + unquoted(s.skip(2))
    } else {
        seq![s[0]] + unquoted(s.drop_first())
    }
}

/// How one character stands in a quoted scalar.
pub open spec fn quoted_char(c: char) -> Seq<char> {
    if c == '\\' || c == '"' {
        seq!['\\', c]
    } else {
        seq![c]
    }
}

/// How a text stands in a quoted scalar.
pub open spec fn quoted_text(s: Seq<char>) -> Seq<char>
    decreases s.len(),
{
    if s.len() == 0 {
        Seq::empty()
    } else {
        quoted_char(s[0]) + quoted_text(s.drop_first())
    }
}

proof fn lemma_replaced_char(s: Seq<char>, c: char, to: Seq<char>)
    ensures
        s.len() == 0 ==> replaced(s, seq![c], to) == s,
        s.len() > 0 ==> replaced(s, seq![c], to) == (if s[0] == c {
            to
        } else {
            seq![s[0]]
        }) + replaced(s.drop_first(), seq![c], to),
{
    if s.len() > 0 {
        assert(s.subrange(0, 1) =~= seq![s[0]]);
        assert(s.skip(1) =~= s.drop_first());
        if s[0] != c {
            assert(seq![s[0]][0] != seq![c][0]);
        }
    }
}

proof fn lemma_replaced_concat(a: Seq<char>, b: Seq<char>, c: char, to: Seq<char>)
    ensures
        replaced(a + b, seq![c], to) == replaced(a, seq![c], to) + replaced(b, seq![c], to),
    decreases a.len(),
{
    lemma_replaced_char(a, c, to);
    lemma_replaced_char(a + b, c, to);
    if a.len() == 0 {
        assert(a + b =~= b);
        assert(replaced(a, seq![c], to) + replaced(b, seq![c], to) =~= replaced(b, seq![c], to));
    } else {
        lemma_replaced_concat(a.drop_first(), b, c, to);
        assert((a + b).drop_first() =~= a.drop_first() + b);
        let head = if a[0] == c { to } else { seq![a[0]] };
        assert(head + (replaced(a.drop_first(), seq![c], to) + replaced(b, seq![c], to)) =~= (head
            + replaced(a.drop_first(), seq![c], to)) + replaced(b, seq![c], to));
    }
}

proof fn lemma_scalar_body(value: Seq<char>)
    ensures
        replaced(replaced(value, "\\"@, "\\\\"@), "\""@, "\\\""@) == quoted_text(value),
    decreases value.len(),
{
    reveal_strlit("\\");
    reveal_strlit("\\\\");
    reveal_strlit("\"");
    reveal_strlit("\\\"");
    assert("\\"@ =~= seq!['\\']);
    assert("\\\\"@ =~= seq!['\\', '\\']);
    assert("\""@ =~= seq!['"']);
    assert("\\\""@ =~= seq!['\\', '"']);
    let bs = seq!['\\'];
    let dq = seq!['"'];
    lemma_replaced_char(value, '\\', seq!['\\', '\\']);
    if value.len() > 0 {
        let rest = value.drop_first();
        lemma_scalar_body(rest);
        let head = if value[0] == '\\' { seq!['\\', '\\'] } else { seq![value[0]] };
        let tail = replaced(rest, bs, seq!['\\', '\\']);
        lemma_replaced_concat(head, tail, '"', seq!['\\', '"']);
        lemma_replaced_char(head, '"', seq!['\\', '"']);
        lemma_replaced_char(head.drop_first(), '"', seq!['\\', '"']);
        lemma_replaced_char(head.drop_first().drop_first(), '"', seq!['\\', '"']);
        assert(replaced(head, dq, seq!['\\', '"']) =~= quoted_char(value[0]));
    } else {
        lemma_replaced_char(value, '"', seq!['\\', '"']);
        assert(quoted_text(value) =~= value);
    }
}

/// A value that was quoted reads back as itself: between its quotes every
/// backslash and quote is escaped, and taking the escapes away restores it.
pub proof fn scalars_read_back(value: Seq<char>)
    ensures
        scalar(value) == "\""@ + quoted_text(value) + "\""@,
        unquoted(quoted_text(value)) == value,
    decreases value.len(),
{
    lemma_scalar_body(value);
    if value.len() == 0 {
        assert(unquoted(quoted_text(value)) =~= value);
    } else {
        scalars_read_back(value.drop_first());
        let rest = quoted_text(value.drop_first());
        let all = quoted_char(value[0]) + rest;
        if value[0] == '\\' || value[0] == '"' {
            assert(all.skip(2) =~= rest);
        } else {
            assert(all.drop_first() =~= rest);
        }
        assert(unquoted(all) =~= seq![value[0]] + unquoted(rest));
        assert(value =~= seq![value[0]] + value.drop_first());
    }
}

proof fn lemma_scan_within(
    lines: Seq<Seq<char>>,
    i: int,
    level: Option<int>,
    gap: Option<int>,
    key: Seq<char>,
)
    requires
        0 <= i <= lines.len(),
    ensures
        scan(lines, i, level, gap, key) matches SlotV::At(n, d) ==> {
            &&& i <= n < lines.len()
            &&& names(trimmed_start(lines[n]), key)
            &&& indent(lines[n]) > 0 && indent(lines[n]) == d
            &&& forall|k: int|
                i <= k < n ==> blank(#[trigger] lines[k]) || comment(lines[k]) || indent(lines[k])
                    != 0
        },
    decreases lines.len() - i,
{
    if i < lines.len() {
        let l = level_at(level, lines[i]);
        lemma_scan_within(lines, i + 1, level, gap, key);
        lemma_scan_within(lines, i + 1, level, gap_after(gap, lines[i], i), key);
        lemma_scan_within(lines, i + 1, Some(l), None, key);
    }
}

/// A key is found only in its own section: behind the line that opens it, on a
/// line of its own name that is indented, and with no line at no depth between
/// the two that would have ended the section.
pub proof fn a_key_is_found_in_its_section(
    lines: Seq<Seq<char>>,
    section: Seq<char>,
    key: Seq<char>,
)
    ensures
        slot_of(lines, section, key) matches SlotV::At(i, d) ==> {
            let h = header_index(lines, section) as int;
            &&& 0 <= h < i < lines.len()
            &&& is_header(lines[h], section)
            &&& names(trimmed_start(lines[i]), key)
            &&& indent(lines[i]) > 0 && indent(lines[i]) == d
            &&& forall|k: int|
                h < k < i ==> blank(#[trigger] lines[k]) || comment(lines[k]) || indent(lines[k])
                    != 0
        },
        slot_of(lines, section, key) is Missing <==> forall|k: int|
            0 <= k < lines.len() ==> !is_header(#[trigger] lines[k], section),
{
    lemma_header_meaning(lines, section);
    let h = header_index(lines, section) as int;
    if h < lines.len() {
        lemma_scan_within(lines, h + 1, None, None, key);
        lemma_scan_result(lines, h + 1, None, None, key);
    }
}

/// Of several keys that are set the last stands in the file with its value.
pub proof fn the_last_of_several_keys_is_pinned(
    text: Seq<char>,
    section: Seq<char>,
    keys: Seq<(Seq<char>, Seq<char>)>,
)
    requires
        keys.len() > 0,
        is_name(section),
        is_name(keys.last().0),
        !keys.last().1.contains('\n'),
    ensures
        pinned(all_keyed(text, section, keys), section, keys.last().0),
        all_keyed(text, section, keys) == keyed(
            all_keyed(text, section, keys.drop_last()),
            section,
            keys.last().0,
            keys.last().1,
        ),
        all_keyed(text, section, Seq::empty()) == text,
{
    a_key_set_is_pinned(
        all_keyed(text, section, keys.drop_last()),
        section,
        keys.last().0,
        keys.last().1,
    );
}

/// Of the keys of a choice those that a file sets itself are picked, in order.
pub proof fn pinned_keys_are_those_the_file_sets(
    text: Seq<char>,
    section: Seq<char>,
    keys: Seq<(Seq<char>, Seq<char>)>,
) -> (from: Seq<int>)
    ensures
        from.len() == pinned_keys(text, section, keys).len(),
        forall|i: int|
            0 <= i < from.len() ==> 0 <= #[trigger] from[i] < keys.len() && pinned_keys(
                text,
                section,
                keys,
            )[i] == keys[from[i]] && pinned(text, section, keys[from[i]].0),
        forall|i: int, j: int| 0 <= i < j < from.len() ==> #[trigger] from[i] < #[trigger] from[j],
        forall|k: int|
            0 <= k < keys.len() && pinned(text, section, (#[trigger] keys[k]).0) ==> from.contains(
                k,
            ),
    decreases keys.len(),
{
    if keys.len() == 0 {
        Seq::empty()
    } else {
        let head = keys.drop_last();
        let most = pinned_keys_are_those_the_file_sets(text, section, head);
        let from = if pinned(text, section, keys.last().0) {
            most.push(keys.len() - 1)
        } else {
            most
        };
        assert forall|i: int| 0 <= i < most.len() implies head[#[trigger] most[i]]
            == keys[most[i]] by {}
        assert forall|k: int|
            0 <= k < keys.len() && pinned(
                text,
                section,
                (#[trigger] keys[k]).0,
            ) implies from.contains(k) by {
            if k < keys.len() - 1 {
                assert(head[k] == keys[k]);
                let j = choose|j: int| 0 <= j < most.len() && most[j] == k;
                assert(from[j] == k);
            } else {
                assert(from[from.len() - 1] == k);
            }
        }
        from
    }
}

/// A choice is saved in the user's file; the project's is written only where it
/// is another file and sets one of the keys itself, and then with those keys
/// alone.
pub proof fn a_choice_is_saved_for_the_user(
    saved: Saved,
    writes: Seq<Write>,
    section: Seq<char>,
    user: Write,
    project: Option<Write>,
    keys: Seq<(Seq<char>, Seq<char>)>,
)
    requires
        saves(saved, writes, section, user, project, keys),
    ensures
        writes.len() >= 1,
        writes[0].path@ == user.path@,
        writes[0].text@ == all_keyed(user.text@, section, keys),
        saved.path@ == user.path@,
        project is None ==> writes.len() == 1 && saved.also is None,
        project is Some && project.unwrap().path@ == user.path@ ==> writes.len() == 1,
        project is Some && project.unwrap().path@ != user.path@ && (forall|k: int|
            0 <= k < keys.len() ==> !pinned(project.unwrap().text@, section, (#[trigger] keys[k]).0))
            ==> writes.len() == 1,
        project is Some && project.unwrap().path@ != user.path@ && (exists|k: int|
            0 <= k < keys.len() && pinned(
                project.unwrap().text@,
                section,
                (#[trigger] keys[k]).0,
            )) ==> writes.len() == 2 && writes[1].path@ == project.unwrap().path@ && saved.also
            is Some,
{
    match project {
        Some(p) => {
            let from = pinned_keys_are_those_the_file_sets(p.text@, section, keys);
            let other = pinned_keys(p.text@, section, keys);
            if from.len() > 0 {
                assert(pinned(p.text@, section, keys[from[0]].0));
            }
            if exists|k: int| 0 <= k < keys.len() && pinned(p.text@, section, (#[trigger] keys[k]).0) {
                let k = choose|k: int|
                    0 <= k < keys.len() && pinned(p.text@, section, (#[trigger] keys[k]).0);
                assert(from.contains(k));
            }
        },
        None => {},
    }
}

} // verus!
