//! Looking at files: numbered windows, repeated reads, and what is said when a
//! path leads nowhere.

use vstd::prelude::*;

use crate::text::affix::{
    closes, holds, is_blank, is_space, is_white, lemma_holds_between, opens, trimmed,
};
use crate::text::number::{dec, decimal_usize, pad_left, padded_left};
use crate::text::pieces::{contains_char, join, joined, lines, lines_of};
use crate::text::{cat2, cat3, cat4, cat5, chars, opt, same, texts};

verus! {

/// The most lines that one read shows.
pub const READ_WINDOW_LINES: usize = 600;

/// The first line shown, counted from zero.
pub open spec fn window_from(start: Option<usize>) -> int {
    match start {
        Some(n) => if n >= 1 {
            n - 1
        } else {
            0
        },
        None => 0,
    }
}

/// The line after the last one shown, counted from zero.
pub open spec fn window_to(start: Option<usize>, end: Option<usize>, count: int) -> int {
    let asked = match end {
        Some(n) => n as int,
        None => count,
    };
    let a = if asked <= count {
        asked
    } else {
        count
    };
    let b = window_from(start) + READ_WINDOW_LINES;
    if a <= b {
        a
    } else {
        b
    }
}

/// Each line behind its number, `first` being the number of the first.
pub open spec fn numbered(v: Seq<Seq<char>>, first: int) -> Seq<Seq<char>> {
    Seq::new(v.len(), |i: int| padded_left(dec((first + i) as nat), 5) + " | "@ + v[i])
}

/// What a read of these lines shows, or why it shows nothing.
pub open spec fn window_text(
    v: Seq<Seq<char>>,
    start: Option<usize>,
    end: Option<usize>,
) -> Result<Seq<char>, Seq<char>> {
    let from = window_from(start);
    let to = window_to(start, end, v.len() as int);
    if from >= to {
        Err("empty range: the file has "@ + dec(v.len()) + " lines"@)
    } else {
        let body = joined(numbered(v.subrange(from, to), from + 1), "\n"@);
        if to < v.len() {
            Ok(
                body + ("\n\n[showing lines "@ + dec((from + 1) as nat) + "-"@ + dec(to as nat)
                    + " of "@) + (dec(v.len()) + "; call read_file again with start_line="@ + dec(
                    (to + 1) as nat,
                ) + " for more]"@),
            )
        } else {
            Ok(body)
        }
    }
}

/// What a read of a file's text shows: the asked lines behind their numbers, at
/// most a window of them, and where to go on.
pub fn read_numbered(content: &str, start: Option<usize>, end: Option<usize>) -> (r: Result<
    String,
    String,
>)
    ensures
        match window_text(lines_of(content@), start, end) {
            Ok(text) => r is Ok && r->Ok_0@ == text,
            Err(e) => r is Err && r->Err_0@ == e,
        },
{
    let all = lines(content);
    let ghost v = texts(all@);
    let count: usize = all.len();
    let from: usize = match start {
        Some(n) => if n >= 1 {
            n - 1
        } else {
            0
        },
        None => 0,
    };
    let asked: usize = match end {
        Some(n) => n,
        None => count,
    };
    let most: usize = if asked <= count { asked } else { count };
    let to: usize = if from >= most || most - from <= READ_WINDOW_LINES {
        most
    } else {
        from + READ_WINDOW_LINES
    };
    if from >= to {
        assert(window_from(start) >= window_to(start, end, v.len() as int));
        return Err(
            cat3("empty range: the file has ", decimal_usize(count).as_str(), " lines"),
        );
    }
    assert(to == window_to(start, end, v.len() as int));
    let ghost part = v.subrange(from as int, to as int);
    let mut rows: Vec<String> = Vec::new();
    let mut i: usize = from;
    while i < to
        invariant
            from <= i <= to <= all@.len(),
            to <= count,
            rows@.len() == i - from,
            forall|k: int|
                0 <= k < i - from ==> #[trigger] rows@[k]@ == padded_left(
                    dec((from + 1 + k) as nat),
                    5,
                ) + " | "@ + all@[from + k]@,
        decreases to - i,
    {
        let label = pad_left(decimal_usize(i + 1).as_str(), 5);
        rows.push(cat3(label.as_str(), " | ", all[i].as_str()));
        i += 1;
    }
    assert(texts(rows@) =~= numbered(part, from + 1));
    let body = join(&rows, "\n");
    if to < count {
        let shown = cat5(
            "\n\n[showing lines ",
            decimal_usize(from + 1).as_str(),
            "-",
            decimal_usize(to).as_str(),
            " of ",
        );
        let rest = cat4(
            decimal_usize(count).as_str(),
            "; call read_file again with start_line=",
            decimal_usize(to + 1).as_str(),
            " for more]",
        );
        return Ok(cat3(body.as_str(), shown.as_str(), rest.as_str()));
    }
    Ok(body)
}

/// The rows of a read that begins at line `s` (the first where none is asked
/// for) stand in front of all it shows, one to a line. Row `k` is the number
/// `s + k`, right-aligned in five columns, a bar, and line `s + k` of the file;
/// they go on to the last line asked for, to the end of the file or to the end
/// of the window. A read that has no such row fails.
pub proof fn rows_carry_their_own_numbers(
    v: Seq<Seq<char>>,
    start: Option<usize>,
    end: Option<usize>,
    s: int,
    last: int,
) -> (rows: Seq<Seq<char>>)
    requires
        1 <= s,
        start is None ==> s == 1,
        start matches Some(n) ==> s == n || (n == 0 && s == 1),
        last <= v.len(),
        last < s + READ_WINDOW_LINES,
        end matches Some(n) ==> last <= n,
        last == v.len() || last + 1 == s + READ_WINDOW_LINES || (end matches Some(n)
            && last == n),
    ensures
        window_text(v, start, end) is Ok <==> s <= last,
        window_text(v, start, end) matches Ok(text) ==> {
            &&& opens(text, joined(rows, "\n"@))
            &&& last == v.len() ==> text == joined(rows, "\n"@)
            &&& rows.len() == last - s + 1
            &&& forall|k: int|
                0 <= k < rows.len() ==> closes(
                    #[trigger] rows[k],
                    dec((s + k) as nat) + " | "@ + v[s + k - 1],
                ) && (dec((s + k) as nat).len() >= 5 ==> rows[k] == dec((s + k) as nat) + " | "@
                    + v[s + k - 1]) && (dec((s + k) as nat).len() < 5 ==> rows[k].len() == 5
                    + " | "@.len() + v[s + k - 1].len() && forall|j: int|
                    0 <= j < 5 - dec((s + k) as nat).len() ==> rows[k][j] == ' ')
        },
{
    let rows = if s <= last {
        numbered(v.subrange(s - 1, last), s)
    } else {
        Seq::empty()
    };
    if s <= last {
        assert(window_from(start) == s - 1);
        assert(window_to(start, end, v.len() as int) == last);
        let body = joined(rows, "\n"@);
        let text = window_text(v, start, end)->Ok_0;
        assert(opens(text, body)) by {
            assert(text.take(body.len() as int) =~= body);
        }
        assert forall|k: int| 0 <= k < rows.len() implies closes(
            #[trigger] rows[k],
            dec((s + k) as nat) + " | "@ + v[s + k - 1],
        ) && (dec((s + k) as nat).len() >= 5 ==> rows[k] == dec((s + k) as nat) + " | "@ + v[s + k
            - 1]) && (dec((s + k) as nat).len() < 5 ==> rows[k].len() == 5 + " | "@.len() + v[s + k
            - 1].len() && forall|j: int|
            0 <= j < 5 - dec((s + k) as nat).len() ==> rows[k][j] == ' ') by {
            let number = dec((s + k) as nat);
            let tail = number + " | "@ + v[s + k - 1];
            assert(rows[k] == padded_left(number, 5) + " | "@ + v[s + k - 1]);
            assert(rows[k].skip(rows[k].len() - tail.len()) =~= tail);
            if number.len() >= 5 {
                assert(rows[k] =~= tail);
            }
        }
    }
    rows
}

/// A window that stops short of the end of the file says where to go on: at the
/// line after the last one shown.
pub proof fn a_short_window_says_where_to_go_on(
    v: Seq<Seq<char>>,
    start: Option<usize>,
    end: Option<usize>,
)
    requires
        window_text(v, start, end) is Ok,
    ensures
        window_to(start, end, v.len() as int) < v.len() ==> {
            &&& holds(
                window_text(v, start, end)->Ok_0,
                "start_line="@ + dec((window_to(start, end, v.len() as int) + 1) as nat)
                    + " for more]"@,
            )
            &&& holds(window_text(v, start, end)->Ok_0, " of "@ + dec(v.len()) + ";"@)
        },
{
    let to = window_to(start, end, v.len() as int);
    let from = window_from(start);
    if to < v.len() {
        let text = window_text(v, start, end)->Ok_0;
        let body = joined(numbered(v.subrange(from, to), from + 1), "\n"@);
        reveal_strlit("; call read_file again with start_line=");
        reveal_strlit("; call read_file again with ");
        reveal_strlit("start_line=");
        reveal_strlit(";");
        let head = body + ("\n\n[showing lines "@ + dec((from + 1) as nat) + "-"@ + dec(to as nat));
        let go = "start_line="@ + dec((to + 1) as nat) + " for more]"@;
        let of = " of "@ + dec(v.len()) + ";"@;
        let call = "; call read_file again with "@;
        assert("; call read_file again with start_line="@ =~= call + "start_line="@);
        assert(call =~= ";"@ + call.skip(1));
        let front = head + " of "@ + dec(v.len()) + call;
        assert(text =~= front + go + Seq::empty());
        lemma_holds_between(front, go, Seq::empty());
        let rest = call.skip(1) + go;
        assert(text =~= head + of + rest);
        lemma_holds_between(head, of, rest);
    }
}

/// A numeral is never empty, and two numbers never share one.
pub proof fn rows_differ_in_number(a: nat, b: nat)
    ensures
        dec(a).len() > 0,
        dec(a) == dec(b) ==> a == b,
{
    let max = if a <= b { b } else { a };
    crate::text::number::dec_reads_back(a, max);
    crate::text::number::dec_reads_back(b, max);
}

/// A read never shows more than one window, and never a line outside the file.
pub proof fn reads_stay_in_the_window(start: Option<usize>, end: Option<usize>, count: nat)
    ensures
        window_to(start, end, count as int) <= count,
        window_to(start, end, count as int) - window_from(start) <= READ_WINDOW_LINES,
{
}

/// Reading on from where a window stopped picks up at the next line.
pub proof fn windows_meet(start: Option<usize>, count: nat)
    requires
        window_from(start) < window_to(start, None, count as int) < count,
        window_to(start, None, count as int) < usize::MAX,
    ensures
        window_from(Some((window_to(start, None, count as int) + 1) as usize)) == window_to(
            start,
            None,
            count as int,
        ),
{
}

/// How an optional line number is written in a key.
pub open spec fn opt_number(n: Option<usize>) -> Seq<char> {
    match n {
        Some(v) => "Some("@ + dec(v as nat) + ")"@,
        None => "None"@,
    }
}

fn opt_number_text(n: Option<usize>) -> (r: String)
    ensures
        r@ == opt_number(n),
{
    match n {
        Some(v) => cat3("Some(", decimal_usize(v).as_str(), ")"),
        None => "None".to_owned(),
    }
}

/// What identifies a read: the path and the range.
pub open spec fn read_key(
    path: Seq<char>,
    start: Option<usize>,
    end: Option<usize>,
) -> Seq<char> {
    path + ":"@ + opt_number(start) + ":"@ + opt_number(end)
}

/// The reads of a turn, each with the file's time stamp when it had one.
pub struct Reads {
    entries: Vec<(String, Option<u128>)>,
}

/// The stamp of the last entry under `key`.
pub open spec fn stamp_of(v: Seq<(Seq<char>, Option<u128>)>, key: Seq<char>) -> Option<
    Option<u128>,
>
    decreases v.len(),
{
    if v.len() == 0 {
        None
    } else if v.last().0 == key {
        Some(v.last().1)
    } else {
        stamp_of(v.drop_last(), key)
    }
}

impl View for Reads {
    type V = Seq<(Seq<char>, Option<u128>)>;

    closed spec fn view(&self) -> Seq<(Seq<char>, Option<u128>)> {
        Seq::new(self.entries@.len(), |i: int| (self.entries@[i].0@, self.entries@[i].1))
    }
}

impl Reads {
    /// No reads yet.
    pub fn new() -> (r: Reads)
        ensures
            r@ == Seq::<(Seq<char>, Option<u128>)>::empty(),
    {
        let r = Reads { entries: Vec::new() };
        assert(r@ =~= Seq::<(Seq<char>, Option<u128>)>::empty());
        r
    }

    fn find(&self, key: &str) -> (r: Option<Option<u128>>)
        ensures
            r == stamp_of(self@, key@),
    {
        let mut n: usize = self.entries.len();
        let ghost all = self@;
        assert(all.take(n as int) =~= all);
        while n > 0
            invariant
                n <= self.entries@.len(),
                all == self@,
                stamp_of(all.take(n as int), key@) == stamp_of(all, key@),
            decreases n,
        {
            proof {
                assert(all.take(n as int).last() == all[n - 1]);
                assert(all.take(n as int).drop_last() =~= all.take(n - 1));
            }
            if same(self.entries[n - 1].0.as_str(), key) {
                return Some(self.entries[n - 1].1);
            }
            n -= 1;
        }
        None
    }

    /// Whether the same range was read before and the file has not changed
    /// since: both time stamps are known and equal.
    pub fn unchanged(
        &self,
        path: &str,
        start: Option<usize>,
        end: Option<usize>,
        modified: Option<u128>,
    ) -> (r: bool)
        ensures
            r == (modified is Some && stamp_of(self@, read_key(path@, start, end)) == Some(
                modified,
            )),
    {
        let key = key_text(path, start, end);
        match self.find(key.as_str()) {
            Some(Some(t)) => match modified {
                Some(m) => t == m,
                None => false,
            },
            _ => false,
        }
    }

    /// Note a read that was carried out.
    pub fn note(
        &mut self,
        path: &str,
        start: Option<usize>,
        end: Option<usize>,
        modified: Option<u128>,
    )
        ensures
            final(self)@ == old(self)@.push((read_key(path@, start, end), modified)),
    {
        self.entries.push((key_text(path, start, end), modified));
        assert(self@ =~= old(self)@.push((read_key(path@, start, end), modified)));
    }
}

fn key_text(path: &str, start: Option<usize>, end: Option<usize>) -> (r: String)
    ensures
        r@ == read_key(path@, start, end),
{
    cat5(path, ":", opt_number_text(start).as_str(), ":", opt_number_text(end).as_str())
}

/// A read that was noted with a known stamp is unchanged until the stamp moves.
pub proof fn noted_reads_are_found(
    v: Seq<(Seq<char>, Option<u128>)>,
    key: Seq<char>,
    modified: Option<u128>,
)
    ensures
        stamp_of(v.push((key, modified)), key) == Some(modified),
{
}

/// What stands in for a file that was read before.
pub fn unchanged_note(path: &str) -> (r: String)
    ensures
        r@ == "[unchanged since you read it earlier in this turn — scroll up for "@ + path@ + "]"@,
{
    cat3("[unchanged since you read it earlier in this turn — scroll up for ", path, "]")
}

/// What a listing shows.
pub open spec fn listing(entries: Seq<char>) -> Seq<char> {
    if trimmed(entries).len() == 0 {
        "directory exists but is empty"@
    } else {
        entries
    }
}

/// What a listing shows.
pub fn list_files(entries: &str) -> (r: String)
    ensures
        r@ == listing(entries@),
{
    if is_blank(entries) {
        "directory exists but is empty".to_owned()
    } else {
        entries.to_owned()
    }
}

/// Hits for a directory that does not exist, with a note that the search went
/// wider.
pub fn widened(dir: &str, hits: &str) -> (r: String)
    ensures
        r@ == "note: "@ + dir@
            + " does not exist, so the whole repository was searched instead.\n\n"@ + hits@,
{
    cat4(
        "note: ",
        dir,
        " does not exist, so the whole repository was searched instead.\n\n",
        hits,
    )
}

/// Each path on a line of its own, indented.
pub open spec fn indented(v: Seq<Seq<char>>) -> Seq<Seq<char>> {
    Seq::new(v.len(), |i: int| "  "@ + v[i])
}

fn indent(v: &Vec<String>) -> (r: Vec<String>)
    ensures
        texts(r@) == indented(texts(v@)),
{
    let mut out: Vec<String> = Vec::new();
    let mut i: usize = 0;
    while i < v.len()
        invariant
            i <= v@.len(),
            out@.len() == i,
            forall|k: int| 0 <= k < i ==> #[trigger] out@[k]@ == "  "@ + v@[k]@,
        decreases v.len() - i,
    {
        out.push(cat2("  ", v[i].as_str()));
        i += 1;
    }
    assert(texts(out@) =~= indented(texts(v@)));
    out
}

/// What is said about a path that does not exist, given the ones near it.
pub open spec fn missing_path_text(path: Seq<char>, nearby: Seq<Seq<char>>) -> Seq<char> {
    if nearby.len() == 0 {
        "note: "@ + path
            + " does not exist. Call find_files with a name or glob to locate it."@
    } else {
        "note: "@ + path + " does not exist. Nearest paths in the repository:\n"@ + joined(
            indented(nearby),
            "\n"@,
        ) + "\n\nCall find_files if none of these are the one."@
    }
}

/// What is said about a path that does not exist, given the ones near it.
pub fn missing_path(path: &str, nearby: &Vec<String>) -> (r: String)
    ensures
        r@ == missing_path_text(path@, texts(nearby@)),
{
    if nearby.len() == 0 {
        return cat3(
            "note: ",
            path,
            " does not exist. Call find_files with a name or glob to locate it.",
        );
    }
    cat5(
        "note: ",
        path,
        " does not exist. Nearest paths in the repository:\n",
        join(&indent(nearby), "\n").as_str(),
        "\n\nCall find_files if none of these are the one.",
    )
}

/// True when a name without slashes has an extension: a dot after its first
/// character.
pub open spec fn has_extension(name: Seq<char>) -> bool {
    name != ".."@ && exists|i: int| 0 < i < name.len() && #[trigger] name[i] == '.'
}

/// True when a query reads like a path: no whitespace, and a slash or an
/// extension.
pub open spec fn path_shaped(query: Seq<char>) -> bool {
    !(exists|i: int| 0 <= i < query.len() && is_space(#[trigger] query[i])) && (query.contains('/')
        || has_extension(query))
}

/// Whether a query reads like a path.
pub fn looks_like_path(query: &str) -> (r: bool)
    ensures
        r == path_shaped(query@),
{
    let v = chars(query);
    let mut dotted = false;
    let mut i: usize = 0;
    while i < v.len()
        invariant
            i <= v@.len(),
            v@ == query@,
            dotted <==> exists|k: int| 0 < k < i && #[trigger] query@[k] == '.',
            forall|k: int| 0 <= k < i ==> !is_space(#[trigger] query@[k]),
        decreases v.len() - i,
    {
        if is_white(v[i]) {
            assert(is_space(query@[i as int]));
            return false;
        }
        if i > 0 && v[i] == '.' {
            assert(query@[i as int] == '.');
            dotted = true;
        }
        i += 1;
    }
    contains_char(query, '/') || (dotted && !same(query, ".."))
}

/// What is said about a search without hits whose query reads like a path,
/// given the paths near it.
pub open spec fn path_hint(query: Seq<char>, nearby: Seq<Seq<char>>) -> Option<Seq<char>> {
    if path_shaped(query) && nearby.len() > 0 {
        Some(
            "no content matches for `"@ + query
                + "`. If you meant the file itself, paths with similar names:\n"@ + joined(
                indented(nearby),
                "\n"@,
            ),
        )
    } else {
        None
    }
}

/// What is said about a search without hits whose query reads like a path.
pub fn path_shaped_query_hint(query: &str, nearby: &Vec<String>) -> (r: Option<String>)
    ensures
        opt(r) == path_hint(query@, texts(nearby@)),
{
    if !looks_like_path(query) || nearby.len() == 0 {
        return None;
    }
    Some(
        cat4(
            "no content matches for `",
            query,
            "`. If you meant the file itself, paths with similar names:\n",
            join(&indent(nearby), "\n").as_str(),
        ),
    )
}

/// What is known of a path that is to be read.
pub enum Reach {
    /// It cannot be resolved, for this reason.
    Unresolved(String),
    /// It is in the repository; what the policy denies it for, where it does.
    InRepo(Option<String>),
    /// It is outside.
    Outside,
}

/// What is to be done about a read.
pub enum ReadGate {
    Go,
    Refuse(String),
    /// The grants decide.
    Grants,
}

/// What is to be done about a read: inside the repository the policy decides,
/// outside the grants do, unless all is allowed anyway.
pub fn resolve_in_repo(reach: &Reach, yolo: bool) -> (r: ReadGate)
    ensures
        match *reach {
            Reach::Unresolved(e) => r matches ReadGate::Refuse(s) && s@ == e@,
            Reach::InRepo(Some(reason)) => r matches ReadGate::Refuse(s) && s@ == reason@,
            Reach::InRepo(None) => r is Go,
            Reach::Outside => if yolo {
                r is Go
            } else {
                r is Grants
            },
        },
{
    match reach {
        Reach::Unresolved(e) => ReadGate::Refuse(e.clone()),
        Reach::InRepo(denied) => match denied {
            Some(reason) => ReadGate::Refuse(reason.clone()),
            None => ReadGate::Go,
        },
        Reach::Outside => if yolo {
            ReadGate::Go
        } else {
            ReadGate::Grants
        },
    }
}

/// What a search shows.
pub enum Found {
    /// The hits at these positions.
    Hits(Vec<usize>),
    /// A hint in their place.
    Hint(String),
}

/// The positions of the hits that may be read, among the first `n`.
pub open spec fn readable(denied: Seq<bool>, n: nat) -> Seq<int>
    decreases n,
{
    if n == 0 || n > denied.len() {
        Seq::empty()
    } else if denied[n - 1] {
        readable(denied, (n - 1) as nat)
    } else {
        readable(denied, (n - 1) as nat).push(n - 1)
    }
}

/// The model of a list of positions.
pub open spec fn positions(v: Seq<usize>) -> Seq<int> {
    Seq::new(v.len(), |i: int| v[i] as int)
}

/// What a search shows: the hits that the policy lets be read, or a hint where
/// there is none and the query reads like a path. `denied` says of each hit
/// whether the policy denies it.
pub fn search_files(denied: &Vec<bool>, query: &str, nearby: &Vec<String>) -> (r: Found)
    ensures
        ({
            let kept = readable(denied@, denied@.len());
            match path_hint(query@, texts(nearby@)) {
                Some(hint) => if kept.len() == 0 {
                    r matches Found::Hint(s) && s@ == hint
                } else {
                    r matches Found::Hits(v) && positions(v@) == kept
                },
                None => r matches Found::Hits(v) && positions(v@) == kept,
            }
        }),
{
    let mut out: Vec<usize> = Vec::new();
    let mut i: usize = 0;
    assert(positions(out@) =~= readable(denied@, 0));
    while i < denied.len()
        invariant
            i <= denied@.len(),
            positions(out@) == readable(denied@, i as nat),
        decreases denied.len() - i,
    {
        let ghost had = positions(out@);
        if !denied[i] {
            out.push(i);
            assert(positions(out@) =~= had.push(i as int));
        }
        i += 1;
    }
    assert(positions(out@).len() == out@.len());
    if out.len() == 0 {
        match path_shaped_query_hint(query, nearby) {
            Some(hint) => return Found::Hint(hint),
            None => {},
        }
    }
    Found::Hits(out)
}

proof fn lemma_digits(n: nat)
    ensures
        forall|i: int| 0 <= i < dec(n).len() ==> '0' <= #[trigger] dec(n)[i] <= '9',
    decreases n,
{
    if n >= 10 {
        let head = dec(n / 10);
        lemma_digits(n / 10);
        assert forall|i: int| 0 <= i < dec(n).len() implies '0' <= #[trigger] dec(n)[i] <= '9' by {
            if i < head.len() {
                assert(dec(n)[i] == head[i]);
            }
        }
    }
}

proof fn lemma_no_colon(n: Option<usize>)
    ensures
        !opt_number(n).contains(':'),
{
    reveal_strlit("Some(");
    reveal_strlit(")");
    reveal_strlit("None");
    let s = opt_number(n);
    match n {
        Some(v) => {
            lemma_digits(v as nat);
            assert forall|i: int| 0 <= i < s.len() implies s[i] != ':' by {
                let d = dec(v as nat);
                if 5 <= i < 5 + d.len() {
                    assert(s[i] == d[i - 5]);
                }
            }
        },
        None => {},
    }
}

proof fn lemma_last_colon(a: Seq<char>, x: Seq<char>, b: Seq<char>, y: Seq<char>)
    requires
        !x.contains(':'),
        !y.contains(':'),
        a + ":"@ + x == b + ":"@ + y,
    ensures
        a == b,
        x == y,
{
    reveal_strlit(":");
    assert(":"@ =~= seq![':']);
    assert(":"@.len() == 1);
    let s = a + ":"@ + x;
    let t = b + ":"@ + y;
    assert(s.len() == a.len() + 1 + x.len());
    assert(t.len() == b.len() + 1 + y.len());
    assert(s.len() == t.len());
    assert((a + ":"@).len() == a.len() + 1 && (b + ":"@).len() == b.len() + 1);
    assert(s[a.len() as int] == ':');
    assert(t[b.len() as int] == ':');
    if a.len() < b.len() {
        assert(s[b.len() as int] == x[b.len() - a.len() - 1]);
        assert(x.contains(':'));
    }
    if b.len() < a.len() {
        assert(t[a.len() as int] == y[a.len() - b.len() - 1]);
        assert(y.contains(':'));
    }
    assert(a =~= s.take(a.len() as int));
    assert(b =~= t.take(b.len() as int));
    assert(x =~= s.skip((a.len() + 1) as int));
    assert(y =~= t.skip((b.len() + 1) as int));
}

/// Two reads are the same only where path and range are: reads of other files, or
/// of other lines of one file, are never taken for one another.
pub proof fn reads_are_known_by_path_and_range(
    path: Seq<char>,
    start: Option<usize>,
    end: Option<usize>,
    other: Seq<char>,
    from: Option<usize>,
    to: Option<usize>,
)
    ensures
        read_key(path, start, end) == read_key(other, from, to) ==> path == other && start == from
            && end == to,
{
    if read_key(path, start, end) == read_key(other, from, to) {
        lemma_no_colon(start);
        lemma_no_colon(end);
        lemma_no_colon(from);
        lemma_no_colon(to);
        lemma_last_colon(
            path + ":"@ + opt_number(start),
            opt_number(end),
            other + ":"@ + opt_number(from),
            opt_number(to),
        );
        lemma_last_colon(path, opt_number(start), other, opt_number(from));
        lemma_opt_number(start, from);
        lemma_opt_number(end, to);
    }
}

proof fn lemma_opt_number(a: Option<usize>, b: Option<usize>)
    requires
        opt_number(a) == opt_number(b),
    ensures
        a == b,
{
    reveal_strlit("Some(");
    reveal_strlit(")");
    reveal_strlit("None");
    let s = opt_number(a);
    let t = opt_number(b);
    match (a, b) {
        (Some(x), Some(y)) => {
            assert(dec(x as nat) =~= s.subrange(5, s.len() - 1));
            assert(dec(y as nat) =~= t.subrange(5, t.len() - 1));
            rows_differ_in_number(x as nat, y as nat);
        },
        (Some(x), None) => {
            assert(s[0] == 'S' && t[0] == 'N');
        },
        (None, Some(y)) => {
            assert(t[0] == 'S' && s[0] == 'N');
        },
        (None, None) => {},
    }
}

/// An empty directory is told, and any other is shown as it is listed.
pub proof fn directories_are_shown_as_listed(entries: Seq<char>)
    ensures
        trimmed(entries).len() > 0 ==> listing(entries) == entries,
        trimmed(entries).len() == 0 ==> listing(entries) == "directory exists but is empty"@,
{
}

} // verus!
