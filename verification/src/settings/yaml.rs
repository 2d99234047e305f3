//! Editing a configuration file line by line, so comments and layout survive.

use vstd::prelude::*;

use crate::text::affix::{
    after_prefix, is_blank, is_space, is_white, opens, space, starts_with, strip_prefix, trim_end, trim_start, trimmed, trimmed_end, trimmed_start,
};
use crate::text::number::{run_of, run_string};
use crate::text::pieces::{cut_all, join, joined, replace, replaced, split};
use crate::text::utf8::{byte_len, utf8_len};
use crate::text::{cat2, cat3, cat4, cat5, chars, opt, pairs, same, texts};

verus! {

/// The lines of a file, each as it stands up to its line feed.
pub open spec fn raw_lines(t: Seq<char>) -> Seq<Seq<char>> {
    if t.len() == 0 {
        Seq::empty()
    } else if t.last() == '\n' {
        cut_all(t, '\n').drop_last()
    } else {
        cut_all(t, '\n')
    }
}

/// Lines as a file again, with the final line feed of the original.
pub open spec fn rejoined(lines: Seq<Seq<char>>, original: Seq<char>) -> Seq<char> {
    if original.len() == 0 || original.last() == '\n' {
        joined(lines, "\n"@) + "\n"@
    } else {
        joined(lines, "\n"@)
    }
}

/// How far a line is indented, in bytes.
pub open spec fn indent(line: Seq<char>) -> int {
    utf8_len(line) - utf8_len(trimmed_start(line))
}

/// True when nothing but whitespace is on a line.
pub open spec fn blank(line: Seq<char>) -> bool {
    trimmed(line).len() == 0
}

/// True when a comment is all that is on a line.
pub open spec fn comment(line: Seq<char>) -> bool {
    opens(trimmed_start(line), "#"@)
}

/// What stands behind a name and its colon at the front of a text. The name may
/// be in quotes.
pub open spec fn after_name(t: Seq<char>, name: Seq<char>) -> Option<Seq<char>> {
    match after_prefix(t, name + ":"@) {
        Some(rest) => Some(rest),
        None => match after_prefix(t, "\""@ + name + "\":"@) {
            Some(rest) => Some(rest),
            None => after_prefix(t, "'"@ + name + "':"@),
        },
    }
}

/// True when a text sets a name.
pub open spec fn names(t: Seq<char>, name: Seq<char>) -> bool {
    after_name(t, name) is Some
}

/// True when nothing but whitespace and a comment is left of a line.
pub open spec fn no_value(rest: Seq<char>) -> bool {
    blank(rest) || (rest.len() > 0 && is_space(rest[0]) && comment(rest))
}

/// True when a line opens a section: the name at its front, and no value.
pub open spec fn is_header(line: Seq<char>, section: Seq<char>) -> bool {
    !(opens(line, " "@) || opens(line, "\t"@)) && match after_name(line, section) {
        Some(rest) => no_value(rest),
        None => false,
    }
}

/// The position of the line that opens a section, or the number of lines.
pub open spec fn header_index(lines: Seq<Seq<char>>, section: Seq<char>) -> nat
    decreases lines.len(),
{
    if lines.len() == 0 || is_header(lines[0], section) {
        0
    } else {
        1 + header_index(lines.drop_first(), section)
    }
}

/// Where a key stands in a file.
#[verifier::ext_equal]
pub enum SlotV {
    /// On this line, at this depth.
    At(int, int),
    /// Nowhere; it would go before this line, at this depth.
    Insert(int, int),
    /// Nowhere, and its section neither.
    Missing,
}

/// The depth of a section's keys: that of its first one, or two.
pub open spec fn depth(level: Option<int>) -> int {
    match level {
        Some(l) => l,
        None => 2,
    }
}

/// The depth of the keys, where `line` is the first one unless it is known.
pub open spec fn level_at(level: Option<int>, line: Seq<char>) -> int {
    match level {
        Some(l) => l,
        None => indent(line),
    }
}

/// Where a new key goes: before the comments at no depth that close a section,
/// or before line `i`.
pub open spec fn place(gap: Option<int>, i: int) -> int {
    match gap {
        Some(g) => g,
        None => i,
    }
}

/// The first of the comments at no depth that stand since the last line with a
/// depth, once line `i`, another comment, was passed.
pub open spec fn gap_after(gap: Option<int>, line: Seq<char>, i: int) -> Option<int> {
    if indent(line) > 0 {
        None
    } else {
        Some(place(gap, i))
    }
}

/// Where a key stands among the lines of a section from line `i` on. `level` is
/// the depth of the section's keys, once one was seen. A comment ends no section
/// and is no key, unless it is the very key that is asked for.
pub open spec fn scan(
    lines: Seq<Seq<char>>,
    i: int,
    level: Option<int>,
    gap: Option<int>,
    key: Seq<char>,
) -> SlotV
    decreases lines.len() - i,
{
    if i < 0 || i >= lines.len() {
        SlotV::Insert(place(gap, lines.len() as int), depth(level))
    } else if blank(lines[i]) {
        scan(lines, i + 1, level, gap, key)
    } else {
        let this = indent(lines[i]);
        let l = level_at(level, lines[i]);
        if this > 0 && this == l && names(trimmed_start(lines[i]), key) {
            SlotV::At(i, l)
        } else if comment(lines[i]) {
            scan(lines, i + 1, level, gap_after(gap, lines[i], i), key)
        } else if this == 0 {
            SlotV::Insert(place(gap, i), depth(level))
        } else {
            scan(lines, i + 1, Some(l), None, key)
        }
    }
}

/// Where a key of a section stands.
pub open spec fn slot_of(lines: Seq<Seq<char>>, section: Seq<char>, key: Seq<char>) -> SlotV {
    let h = header_index(lines, section) as int;
    if h >= lines.len() {
        SlotV::Missing
    } else {
        scan(lines, h + 1, None, None, key)
    }
}

/// True when a file sets a key of a section itself.
pub open spec fn pinned(text: Seq<char>, section: Seq<char>, key: Seq<char>) -> bool {
    slot_of(raw_lines(text), section, key) is At
}

/// True when a text is an item of a list.
pub open spec fn is_item(t: Seq<char>) -> bool {
    opens(t, "- "@) || trimmed_end(t) == "-"@
}

/// Where the value of a key ends, from line `i` on: `end` is the line after the
/// last that belongs to it so far. Deeper lines belong to it, and list items at
/// its own depth; a comment that is no deeper than the key ends no value.
pub open spec fn value_end_from(
    lines: Seq<Seq<char>>,
    i: int,
    own: int,
    end: int,
) -> int
    decreases lines.len() - i,
{
    if i < 0 || i >= lines.len() {
        end
    } else if blank(lines[i]) || (indent(lines[i]) <= own && comment(lines[i])) {
        value_end_from(lines, i + 1, own, end)
    } else if indent(lines[i]) < own || (indent(lines[i]) == own && !is_item(
        trimmed_start(lines[i]),
    )) {
        end
    } else {
        value_end_from(lines, i + 1, own, i + 1)
    }
}

/// The line after the value of the key on line `start`.
pub open spec fn value_end_of(lines: Seq<Seq<char>>, start: int) -> int {
    value_end_from(lines, start + 1, indent(lines[start]), start + 1)
}

/// The line that sets a key.
pub open spec fn key_line(depth: int, key: Seq<char>, value: Seq<char>) -> Seq<char> {
    run_of(' ', depth) + key + ": "@ + value
}

/// The carriage return at the end of a line, where it has one.
pub open spec fn ending(line: Seq<char>) -> Seq<char> {
    if line.len() > 0 && line.last() == '\r' {
        seq!['\r']
    } else {
        Seq::empty()
    }
}

/// The line feed that a text lacks at its end.
pub open spec fn missing_newline(t: Seq<char>) -> Seq<char> {
    if t.len() > 0 && t.last() != '\n' {
        "\n"@
    } else {
        Seq::empty()
    }
}

/// A file with a key of a section set. A line that is set anew keeps its ending.
pub open spec fn keyed(
    text: Seq<char>,
    section: Seq<char>,
    key: Seq<char>,
    value: Seq<char>,
) -> Seq<char> {
    let lines = raw_lines(text);
    match slot_of(lines, section, key) {
        SlotV::Missing => text + missing_newline(text) + (section + ":\n  "@ + key + ": "@ + value)
            + "\n"@,
        SlotV::At(i, d) => rejoined(
            lines.take(i).push(key_line(d, key, value) + ending(lines[i])) + lines.skip(
                value_end_of(lines, i),
            ),
            text,
        ),
        SlotV::Insert(i, d) => rejoined(
            lines.take(i).push(key_line(d, key, value)) + lines.skip(i),
            text,
        ),
    }
}

/// True when every line after the header is blank, or a comment at no depth, up
/// to another one at no depth.
pub open spec fn section_empty(lines: Seq<Seq<char>>, i: int) -> bool
    decreases lines.len() - i,
{
    if i < 0 || i >= lines.len() {
        true
    } else if blank(lines[i]) || (indent(lines[i]) == 0 && comment(lines[i])) {
        section_empty(lines, i + 1)
    } else {
        indent(lines[i]) == 0
    }
}

/// The lines without the header of a section that has nothing left.
pub open spec fn without_empty_header(lines: Seq<Seq<char>>, section: Seq<char>) -> Seq<Seq<char>> {
    let h = header_index(lines, section) as int;
    if h < lines.len() && section_empty(lines, h + 1) {
        lines.remove(h)
    } else {
        lines
    }
}

/// A file with a key of a section taken out, and the section with it when
/// nothing else is in it; none when the file does not set the key.
pub open spec fn unkeyed(text: Seq<char>, section: Seq<char>, key: Seq<char>) -> Option<Seq<char>> {
    let lines = raw_lines(text);
    match slot_of(lines, section, key) {
        SlotV::At(i, _) => Some(
            rejoined(
                without_empty_header(lines.take(i) + lines.skip(value_end_of(lines, i)), section),
                text,
            ),
        ),
        _ => None,
    }
}

proof fn lemma_header_index(lines: Seq<Seq<char>>, section: Seq<char>, n: int)
    requires
        0 <= n <= lines.len(),
        forall|k: int| 0 <= k < n ==> !is_header(#[trigger] lines[k], section),
        n == lines.len() || is_header(lines[n], section),
    ensures
        header_index(lines, section) == n,
    decreases n,
{
    if n > 0 {
        assert(!is_header(lines[0], section));
        assert forall|k: int| 0 <= k < n - 1 implies !is_header(
            #[trigger] lines.drop_first()[k],
            section,
        ) by {
            assert(lines.drop_first()[k] == lines[k + 1]);
        }
        lemma_header_index(lines.drop_first(), section, n - 1);
    }
}

proof fn lemma_header_index_meaning(lines: Seq<Seq<char>>, section: Seq<char>)
    ensures
        header_index(lines, section) <= lines.len(),
        header_index(lines, section) < lines.len() ==> is_header(
            lines[header_index(lines, section) as int],
            section,
        ),
        forall|k: int|
            0 <= k < header_index(lines, section) ==> !is_header(#[trigger] lines[k], section),
    decreases lines.len(),
{
    if lines.len() > 0 && !is_header(lines[0], section) {
        lemma_header_index_meaning(lines.drop_first(), section);
        assert forall|k: int| 0 <= k < header_index(lines, section) implies !is_header(
            #[trigger] lines[k],
            section,
        ) by {
            if k > 0 {
                assert(lines.drop_first()[k - 1] == lines[k]);
            }
        }
    }
}

proof fn lemma_scan_bounds(
    lines: Seq<Seq<char>>,
    i: int,
    level: Option<int>,
    gap: Option<int>,
    key: Seq<char>,
)
    requires
        0 <= i <= lines.len(),
        gap is Some ==> 0 <= gap.unwrap() < i,
    ensures
        match scan(lines, i, level, gap, key) {
            SlotV::At(n, d) => i <= n < lines.len() && d == indent(lines[n]),
            SlotV::Insert(n, _) => 0 <= n <= lines.len(),
            SlotV::Missing => false,
        },
    decreases lines.len() - i,
{
    if i < lines.len() {
        lemma_scan_bounds(lines, i + 1, level, gap, key);
        if !blank(lines[i]) {
            lemma_scan_bounds(lines, i + 1, level, gap_after(gap, lines[i], i), key);
            lemma_scan_bounds(lines, i + 1, Some(level_at(level, lines[i])), None, key);
        }
    }
}

/// The lines of a file, each as it stands up to its line feed.
pub fn split_lines(text: &str) -> (r: Vec<String>)
    ensures
        texts(r@) == raw_lines(text@),
{
    if text.is_empty() {
        let r: Vec<String> = Vec::new();
        assert(texts(r@) =~= Seq::empty());
        return r;
    }
    let mut all = split(text, '\n');
    let ghost before = texts(all@);
    if ends_in_newline(text) {
        proof {
            lemma_cut_all_len(text@);
        }
        all.pop();
        assert(texts(all@) =~= before.drop_last());
    }
    all
}

proof fn lemma_cut_all_len(t: Seq<char>)
    ensures
        cut_all(t, '\n').len() >= 1,
{
    crate::text::pieces::lemma_first_of_meaning(t, '\n');
}

fn ends_in_newline(text: &str) -> (r: bool)
    ensures
        r == (text@.len() > 0 && text@.last() == '\n'),
{
    let v = chars(text);
    v.len() > 0 && v[v.len() - 1] == '\n'
}

fn rejoin(lines: &Vec<String>, original: &str) -> (r: String)
    ensures
        r@ == rejoined(texts(lines@), original@),
{
    let out = join(lines, "\n");
    if original.is_empty() || ends_in_newline(original) {
        cat2(out.as_str(), "\n")
    } else {
        out
    }
}

proof fn lemma_indent(line: Seq<char>)
    ensures
        indent(line) >= 0,
{
    crate::text::affix::lemma_drop_front_suffix(line, space());
    let t = trimmed_start(line);
    let n = line.len() - t.len();
    assert(line =~= line.take(n) + t);
    crate::text::utf8::lemma_utf8_len_concat(line.take(n), t);
}

/// How far a line is indented, in bytes.
pub fn indent_of(line: &str) -> (r: usize)
    ensures
        r == indent(line@),
{
    proof {
        lemma_indent(line@);
    }
    byte_len(line) - byte_len(trim_start(line).as_str())
}

fn strip_name(t: &str, name: &str) -> (r: Option<String>)
    ensures
        opt(r) == after_name(t@, name@),
{
    match strip_prefix(t, cat2(name, ":").as_str()) {
        Some(rest) => Some(rest),
        None => match strip_prefix(t, cat3("\"", name, "\":").as_str()) {
            Some(rest) => Some(rest),
            None => strip_prefix(t, cat3("'", name, "':").as_str()),
        },
    }
}

fn is_comment(line: &str) -> (r: bool)
    ensures
        r == comment(line@),
{
    starts_with(trim_start(line).as_str(), "#")
}

fn opens_section(line: &str, section: &str) -> (r: bool)
    ensures
        r == is_header(line@, section@),
{
    if starts_with(line, " ") || starts_with(line, "\t") {
        return false;
    }
    match strip_name(line, section) {
        Some(rest) => {
            let v = chars(rest.as_str());
            is_blank(rest.as_str()) || (v.len() > 0 && is_white(v[0]) && is_comment(rest.as_str()))
        },
        None => false,
    }
}

fn find_header(lines: &Vec<String>, section: &str) -> (r: usize)
    ensures
        r == header_index(texts(lines@), section@),
        r <= lines@.len(),
{
    let ghost all = texts(lines@);
    let mut n: usize = 0;
    while n < lines.len() && !opens_section(lines[n].as_str(), section)
        invariant
            n <= lines@.len(),
            all == texts(lines@),
            forall|k: int| 0 <= k < n ==> !is_header(#[trigger] all[k], section@),
        decreases lines.len() - n,
    {
        n += 1;
    }
    proof {
        lemma_header_index(all, section@, n as int);
    }
    n
}

/// Where a key stands in a file.
pub enum Slot {
    At(usize, usize),
    Insert(usize, usize),
    Missing,
}

impl View for Slot {
    type V = SlotV;

    open spec fn view(&self) -> SlotV {
        match self {
            Slot::At(i, d) => SlotV::At(*i as int, *d as int),
            Slot::Insert(i, d) => SlotV::Insert(*i as int, *d as int),
            Slot::Missing => SlotV::Missing,
        }
    }
}

/// Where a key of a section stands.
pub fn slot(lines: &Vec<String>, section: &str, key: &str) -> (r: Slot)
    ensures
        r@ == slot_of(texts(lines@), section@, key@),
{
    let ghost all = texts(lines@);
    let start = find_header(lines, section);
    if start == lines.len() {
        return Slot::Missing;
    }
    let mut level: Option<usize> = None;
    let mut gap: Option<usize> = None;
    let mut i: usize = start + 1;
    while i < lines.len()
        invariant
            start < i <= lines@.len(),
            all == texts(lines@),
            start == header_index(all, section@),
            scan(all, start + 1, None, None, key@) == scan(
                all,
                i as int,
                match level {
                    Some(l) => Some(l as int),
                    None => None,
                },
                match gap {
                    Some(g) => Some(g as int),
                    None => None,
                },
                key@,
            ),
        decreases lines.len() - i,
    {
        let line = lines[i].as_str();
        assert(all[i as int] == line@);
        if is_blank(line) {
            i += 1;
            continue;
        }
        let this = indent_of(line);
        let l: usize = match level {
            Some(l) => l,
            None => this,
        };
        if this > 0 && this == l && strip_name(trim_start(line).as_str(), key).is_some() {
            return Slot::At(i, l);
        }
        if is_comment(line) {
            gap = if this > 0 { None } else { Some(place_of(gap, i)) };
        } else if this == 0 {
            return Slot::Insert(place_of(gap, i), depth_of(level));
        } else {
            level = Some(l);
            gap = None;
        }
        i += 1;
    }
    Slot::Insert(place_of(gap, lines.len()), depth_of(level))
}

fn place_of(gap: Option<usize>, i: usize) -> (r: usize)
    ensures
        r == place(
            match gap {
                Some(g) => Some(g as int),
                None => None,
            },
            i as int,
        ),
{
    match gap {
        Some(g) => g,
        None => i,
    }
}

fn depth_of(level: Option<usize>) -> (r: usize)
    ensures
        r == depth(
            match level {
                Some(l) => Some(l as int),
                None => None,
            },
        ),
{
    match level {
        Some(l) => l,
        None => 2,
    }
}

/// Whether a file sets a key of a section itself, and so outranks another.
pub fn pins(text: &str, section: &str, key: &str) -> (r: bool)
    ensures
        r == pinned(text@, section@, key@),
{
    match slot(&split_lines(text), section, key) {
        Slot::At(_, _) => true,
        _ => false,
    }
}

fn opens_item(t: &str) -> (r: bool)
    ensures
        r == is_item(t@),
{
    starts_with(t, "- ") || same(trim_end(t).as_str(), "-")
}

/// The line after the value of the key on line `start`.
pub fn value_end(lines: &Vec<String>, start: usize) -> (r: usize)
    requires
        start < lines@.len(),
    ensures
        r == value_end_of(texts(lines@), start as int),
        start < r <= lines@.len(),
{
    let ghost all = texts(lines@);
    assert(all[start as int] == lines@[start as int]@);
    let own = indent_of(lines[start].as_str());
    let total: usize = lines.len();
    assert(start < total);
    let mut end: usize = start + 1;
    let mut i: usize = start + 1;
    while i < lines.len()
        invariant
            start < end <= i <= lines@.len(),
            start < lines@.len(),
            all == texts(lines@),
            own == indent(all[start as int]),
            value_end_of(all, start as int) == value_end_from(
                all,
                i as int,
                own as int,
                end as int,
            ),
        decreases lines.len() - i,
    {
        let line = lines[i].as_str();
        assert(all[i as int] == line@);
        let this = indent_of(line);
        if is_blank(line) || (this <= own && is_comment(line)) {
            i += 1;
            continue;
        }
        if this < own || (this == own && !opens_item(trim_start(line).as_str())) {
            return end;
        }
        end = i + 1;
        i += 1;
    }
    end
}

fn ending_of(line: &str) -> (r: &'static str)
    ensures
        r@ == ending(line@),
{
    let v = chars(line);
    if v.len() > 0 && v[v.len() - 1] == '\r' {
        proof {
            reveal_strlit("\r");
            assert("\r"@ =~= seq!['\r']);
        }
        "\r"
    } else {
        proof {
            reveal_strlit("");
            assert(""@ =~= Seq::empty());
        }
        ""
    }
}

fn spliced(lines: &Vec<String>, from: usize, to: usize, line: &str) -> (r: Vec<String>)
    requires
        from <= to <= lines@.len(),
    ensures
        texts(r@) == texts(lines@).take(from as int).push(line@) + texts(lines@).skip(to as int),
{
    let ghost all = texts(lines@);
    let mut out: Vec<String> = Vec::new();
    let mut i: usize = 0;
    while i < from
        invariant
            i <= from <= lines@.len(),
            out@.len() == i,
            forall|k: int| 0 <= k < i ==> #[trigger] out@[k]@ == lines@[k]@,
        decreases from - i,
    {
        out.push(lines[i].clone());
        i += 1;
    }
    out.push(line.to_owned());
    i = to;
    while i < lines.len()
        invariant
            from <= to <= i <= lines@.len(),
            out@.len() == from + 1 + (i - to),
            forall|k: int| 0 <= k < from ==> #[trigger] out@[k]@ == lines@[k]@,
            out@[from as int]@ == line@,
            forall|k: int|
                from < k < out@.len() ==> #[trigger] out@[k]@ == lines@[k - from - 1 + to]@,
        decreases lines.len() - i,
    {
        out.push(lines[i].clone());
        i += 1;
    }
    assert(texts(out@) =~= all.take(from as int).push(line@) + all.skip(to as int));
    out
}

fn cut_out(lines: &Vec<String>, from: usize, to: usize) -> (r: Vec<String>)
    requires
        from <= to <= lines@.len(),
    ensures
        texts(r@) == texts(lines@).take(from as int) + texts(lines@).skip(to as int),
{
    let ghost all = texts(lines@);
    let mut out: Vec<String> = Vec::new();
    let mut i: usize = 0;
    while i < from
        invariant
            i <= from <= lines@.len(),
            out@.len() == i,
            forall|k: int| 0 <= k < i ==> #[trigger] out@[k]@ == lines@[k]@,
        decreases from - i,
    {
        out.push(lines[i].clone());
        i += 1;
    }
    i = to;
    while i < lines.len()
        invariant
            from <= to <= i <= lines@.len(),
            out@.len() == from + (i - to),
            forall|k: int| 0 <= k < from ==> #[trigger] out@[k]@ == lines@[k]@,
            forall|k: int|
                from <= k < out@.len() ==> #[trigger] out@[k]@ == lines@[k - from + to]@,
        decreases lines.len() - i,
    {
        out.push(lines[i].clone());
        i += 1;
    }
    assert(texts(out@) =~= all.take(from as int) + all.skip(to as int));
    out
}

/// A file with a key of a section set in place, or added with its section.
/// Everything else in the file stays as it is.
pub fn with_key(text: &str, section: &str, key: &str, value: &str) -> (r: String)
    ensures
        r@ == keyed(text@, section@, key@, value@),
{
    let lines = split_lines(text);
    let ghost all = texts(lines@);
    let place = slot(&lines, section, key);
    proof {
        lemma_header_index_meaning(all, section@);
        if header_index(all, section@) < all.len() {
            lemma_scan_bounds(all, header_index(all, section@) + 1int, None, None, key@);
        }
    }
    match place {
        Slot::Missing => {
            let block = cat5(section, ":\n  ", key, ": ", value);
            if !text.is_empty() && !ends_in_newline(text) {
                cat4(text, "\n", block.as_str(), "\n")
            } else {
                assert(text@ + missing_newline(text@) =~= text@);
                cat3(text, block.as_str(), "\n")
            }
        },
        Slot::At(i, depth) => {
            let end = value_end(&lines, i);
            assert(all[i as int] == lines@[i as int]@);
            let line = cat5(
                run_string(' ', depth).as_str(),
                key,
                ": ",
                value,
                ending_of(lines[i].as_str()),
            );
            rejoin(&spliced(&lines, i, end, line.as_str()), text)
        },
        Slot::Insert(at, depth) => {
            let line = cat4(run_string(' ', depth).as_str(), key, ": ", value);
            rejoin(&spliced(&lines, at, at, line.as_str()), text)
        },
    }
}

fn nothing_left(lines: &Vec<String>, from: usize) -> (r: bool)
    requires
        from <= lines@.len(),
    ensures
        r == section_empty(texts(lines@), from as int),
{
    let ghost all = texts(lines@);
    let mut i: usize = from;
    while i < lines.len()
        invariant
            from <= i <= lines@.len(),
            all == texts(lines@),
            section_empty(all, from as int) == section_empty(all, i as int),
        decreases lines.len() - i,
    {
        assert(all[i as int] == lines@[i as int]@);
        let line = lines[i].as_str();
        let this = indent_of(line);
        if !is_blank(line) && !(this == 0 && is_comment(line)) {
            return this == 0;
        }
        i += 1;
    }
    true
}

/// A file with a key of a section taken out, and the section with it when
/// nothing else is in it; none when the file does not set the key.
pub fn without_key(text: &str, section: &str, key: &str) -> (r: Option<String>)
    ensures
        opt(r) == unkeyed(text@, section@, key@),
        r is None <==> !pinned(text@, section@, key@),
{
    let lines = split_lines(text);
    let ghost all = texts(lines@);
    proof {
        lemma_header_index_meaning(all, section@);
        if header_index(all, section@) < all.len() {
            lemma_scan_bounds(all, header_index(all, section@) + 1int, None, None, key@);
        }
    }
    match slot(&lines, section, key) {
        Slot::At(i, _) => {
            let end = value_end(&lines, i);
            let rest = cut_out(&lines, i, end);
            let ghost left = texts(rest@);
            let at = find_header(&rest, section);
            if at < rest.len() && nothing_left(&rest, at + 1) {
                let mut shorter = rest;
                shorter.remove(at);
                assert(texts(shorter@) =~= left.remove(at as int));
                Some(rejoin(&shorter, text))
            } else {
                Some(rejoin(&rest, text))
            }
        },
        _ => None,
    }
}

/// A file with each of several keys of a section set.
pub open spec fn all_keyed(
    text: Seq<char>,
    section: Seq<char>,
    keys: Seq<(Seq<char>, Seq<char>)>,
) -> Seq<char>
    decreases keys.len(),
{
    if keys.len() == 0 {
        text
    } else {
        keyed(all_keyed(text, section, keys.drop_last()), section, keys.last().0, keys.last().1)
    }
}

/// A file with each of several keys of a section set, in order.
pub fn write_section(text: &str, section: &str, keys: &Vec<(String, String)>) -> (r: String)
    ensures
        r@ == all_keyed(text@, section@, pairs(keys@)),
{
    let ghost all = pairs(keys@);
    let mut out = text.to_owned();
    let mut i: usize = 0;
    assert(all.take(0) =~= Seq::empty());
    while i < keys.len()
        invariant
            i <= keys@.len(),
            all == pairs(keys@),
            out@ == all_keyed(text@, section@, all.take(i as int)),
        decreases keys.len() - i,
    {
        proof {
            assert(all.take(i + 1).drop_last() =~= all.take(i as int));
            assert(all.take(i + 1).last() == all[i as int]);
        }
        out = with_key(out.as_str(), section, keys[i].0.as_str(), keys[i].1.as_str());
        i += 1;
    }
    assert(all.take(all.len() as int) =~= all);
    out
}

/// A value as a quoted YAML scalar.
pub open spec fn scalar(value: Seq<char>) -> Seq<char> {
    "\""@ + replaced(replaced(value, "\\"@, "\\\\"@), "\""@, "\\\""@) + "\""@
}

/// A value as a quoted YAML scalar.
pub fn yaml_scalar(value: &str) -> (r: String)
    ensures
        r@ == scalar(value@),
{
    proof {
        reveal_strlit("\\");
        reveal_strlit("\"");
    }
    let a = replace(value, "\\", "\\\\");
    let b = replace(a.as_str(), "\"", "\\\"");
    cat3("\"", b.as_str(), "\"")
}

/// Where a choice was saved.
pub struct Saved {
    pub path: String,
    /// The project's file, where it pinned the same choice.
    pub also: Option<String>,
}

/// A file to write.
pub struct Write {
    pub path: String,
    pub text: String,
}

/// The keys that a file sets itself.
pub open spec fn pinned_keys(
    text: Seq<char>,
    section: Seq<char>,
    keys: Seq<(Seq<char>, Seq<char>)>,
) -> Seq<(Seq<char>, Seq<char>)>
    decreases keys.len(),
{
    if keys.len() == 0 {
        Seq::empty()
    } else if pinned(text, section, keys.last().0) {
        pinned_keys(text, section, keys.drop_last()).push(keys.last())
    } else {
        pinned_keys(text, section, keys.drop_last())
    }
}

fn keys_pinned(text: &str, section: &str, keys: &Vec<(String, String)>) -> (r: Vec<
    (String, String),
>)
    ensures
        pairs(r@) == pinned_keys(text@, section@, pairs(keys@)),
{
    let ghost all = pairs(keys@);
    let mut out: Vec<(String, String)> = Vec::new();
    let mut i: usize = 0;
    assert(pairs(out@) =~= pinned_keys(text@, section@, all.take(0)));
    while i < keys.len()
        invariant
            i <= keys@.len(),
            all == pairs(keys@),
            pairs(out@) == pinned_keys(text@, section@, all.take(i as int)),
        decreases keys.len() - i,
    {
        proof {
            assert(all.take(i + 1).drop_last() =~= all.take(i as int));
            assert(all.take(i + 1).last() == all[i as int]);
        }
        let ghost had = pairs(out@);
        if pins(text, section, keys[i].0.as_str()) {
            out.push((keys[i].0.clone(), keys[i].1.clone()));
            assert(pairs(out@) =~= had.push(all[i as int]));
        }
        i += 1;
    }
    assert(all.take(all.len() as int) =~= all);
    out
}

/// What saving a choice in the user's file writes: the user's file, and the
/// project's where that pins the same choice.
pub open spec fn saves(
    saved: Saved,
    writes: Seq<Write>,
    section: Seq<char>,
    user: Write,
    project: Option<Write>,
    keys: Seq<(Seq<char>, Seq<char>)>,
) -> bool {
    let other = match project {
        Some(p) => if p.path@ != user.path@ {
            pinned_keys(p.text@, section, keys)
        } else {
            Seq::empty()
        },
        None => Seq::empty(),
    };
    &&& saved.path@ == user.path@
    &&& writes.len() == (if other.len() > 0 {
        2int
    } else {
        1int
    })
    &&& writes[0].path@ == user.path@
    &&& writes[0].text@ == all_keyed(user.text@, section, keys)
    &&& other.len() == 0 ==> saved.also is None
    &&& other.len() > 0 ==> opt(saved.also) == Some(project.unwrap().path@) && writes[1].path@
        == project.unwrap().path@ && writes[1].text@ == all_keyed(
        project.unwrap().text@,
        section,
        other,
    )
}

/// Save values of a section, in YAML form already, in the user's file. The
/// project's file is moved along where it pins one of them, since it outranks.
pub fn persist_user_section(
    section: &str,
    user: &Write,
    project: &Option<Write>,
    keys: &Vec<(String, String)>,
) -> (r: (Saved, Vec<Write>))
    ensures
        saves(r.0, r.1@, section@, *user, *project, pairs(keys@)),
{
    let mut writes: Vec<Write> = Vec::new();
    writes.push(
        Write {
            path: user.path.clone(),
            text: write_section(user.text.as_str(), section, keys),
        },
    );
    let plain = Saved { path: user.path.clone(), also: None };
    match project {
        Some(p) => {
            if same(p.path.as_str(), user.path.as_str()) {
                return (plain, writes);
            }
            let held = keys_pinned(p.text.as_str(), section, keys);
            assert(pairs(held@).len() == held@.len());
            if held.len() == 0 {
                return (plain, writes);
            }
            writes.push(
                Write {
                    path: p.path.clone(),
                    text: write_section(p.text.as_str(), section, &held),
                },
            );
            (Saved { path: user.path.clone(), also: Some(p.path.clone()) }, writes)
        },
        None => (plain, writes),
    }
}

/// The values of a list of pairs as quoted YAML scalars.
pub open spec fn scalars(v: Seq<(Seq<char>, Seq<char>)>) -> Seq<(Seq<char>, Seq<char>)> {
    Seq::new(v.len(), |i: int| (v[i].0, scalar(v[i].1)))
}

fn rendered(v: &Vec<(String, String)>) -> (r: Vec<(String, String)>)
    ensures
        pairs(r@) == scalars(pairs(v@)),
{
    let mut out: Vec<(String, String)> = Vec::new();
    let mut i: usize = 0;
    while i < v.len()
        invariant
            i <= v@.len(),
            out@.len() == i,
            forall|k: int|
                0 <= k < i ==> (#[trigger] out@[k]).0@ == v@[k].0@ && out@[k].1@ == scalar(
                    v@[k].1@,
                ),
        decreases v.len() - i,
    {
        out.push((v[i].0.clone(), yaml_scalar(v[i].1.as_str())));
        i += 1;
    }
    assert(pairs(out@) =~= scalars(pairs(v@)));
    out
}

/// Save a choice that belongs to the user rather than to one repository.
pub fn persist_user_review(
    user: &Write,
    project: &Option<Write>,
    choices: &Vec<(String, String)>,
) -> (r: (Saved, Vec<Write>))
    ensures
        saves(r.0, r.1@, "review"@, *user, *project, scalars(pairs(choices@))),
{
    persist_user_section("review", user, project, &rendered(choices))
}

/// Save whether a manifest picks the model, as a bare word.
pub fn persist_mom_enabled(user: &Write, project: &Option<Write>, enabled: bool) -> (r: (
    Saved,
    Vec<Write>,
))
    ensures
        saves(
            r.0,
            r.1@,
            "mom"@,
            *user,
            *project,
            Seq::empty().push(
                (
                    "enabled"@,
                    if enabled {
                        "true"@
                    } else {
                        "false"@
                    },
                ),
            ),
        ),
{
    let word = if enabled { "true" } else { "false" };
    let mut keys: Vec<(String, String)> = Vec::new();
    keys.push(("enabled".to_owned(), word.to_owned()));
    assert(pairs(keys@) =~= Seq::empty().push(("enabled"@, word@)));
    persist_user_section("mom", user, project, &keys)
}

/// Set `review` keys in one file.
pub fn write_review(text: &str, choices: &Vec<(String, String)>) -> (r: String)
    ensures
        r@ == all_keyed(text@, "review"@, scalars(pairs(choices@))),
{
    write_section(text, "review", &rendered(choices))
}

/// The names a repository's configuration may have, in the order they are
/// looked for; `there` says of each whether it exists.
pub fn project_config(there: (bool, bool, bool)) -> (r: Option<&'static str>)
    ensures
        crate::text::opt_str(r) == if there.0 {
            Some("aster.yaml"@)
        } else if there.1 {
            Some("aster.yml"@)
        } else if there.2 {
            Some(".aster.yaml"@)
        } else {
            None
        },
{
    if there.0 {
        Some("aster.yaml")
    } else if there.1 {
        Some("aster.yml")
    } else if there.2 {
        Some(".aster.yaml")
    } else {
        None
    }
}

/// The file that a setting is written to: the repository's where it has one,
/// else the user's.
pub fn writable_config(project: &Option<String>, user: &str) -> (r: String)
    ensures
        r@ == (match crate::text::opt(*project) {
            Some(p) => p,
            None => user@,
        }),
{
    match project {
        Some(p) => p.clone(),
        None => user.to_owned(),
    }
}

} // verus!
