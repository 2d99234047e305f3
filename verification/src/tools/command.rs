//! Running commands: what is run, and what is said about how it went.

use vstd::prelude::*;

use crate::json::{Json, JsonV};
use crate::text::affix::{
    contains, holds, is_blank, is_space, is_white, lemma_holds_between, opens, starts_with, trim,
    trim_start, trimmed, trimmed_start,
};
use crate::text::case::lowercase;
use crate::text::cut::{truncate, truncate_head, truncated, truncated_head};
use crate::text::number::{dec, decimal};
use crate::text::pieces::{contains_char, lines, lines_of};
use crate::text::{cat2, cat3, cat4, chars, opt, same, texts};

verus! {

/// The most of one output stream that is shown, in bytes.
pub const MAX_STREAM_CHARS: usize = 10_000;

/// What this machine has on its path, and where this program is.
pub struct Machine {
    pub bash: bool,
    pub python: bool,
    pub python3: bool,
    pub me: Option<String>,
}

/// How a command is run.
#[derive(Clone, Copy, PartialEq, Eq, Structural, Debug)]
pub struct RunOpts {
    pub turbo: bool,
    pub yolo: bool,
    pub timeout_secs: u64,
}

/// A command line: the binary and its arguments.
pub open spec fn argv_view(v: (String, Vec<String>)) -> (Seq<char>, Seq<Seq<char>>) {
    (v.0@, texts(v.1@))
}

/// How a call asks to run, on top of how the session runs.
pub open spec fn run_opts_of(a: JsonV, session: RunOpts) -> RunOpts {
    RunOpts {
        turbo: a.boolean_at("turbo"@) == Some(true),
        yolo: a.boolean_at("yolo"@) == Some(true) || session.yolo,
        timeout_secs: session.timeout_secs,
    }
}

/// How a call asks to run, on top of how the session runs.
pub fn run_opts(a: &Json, session: RunOpts) -> (r: RunOpts)
    ensures
        r == run_opts_of(a@, session),
{
    let turbo = match a.bool_at("turbo") {
        Some(b) => b,
        None => false,
    };
    let yolo = match a.bool_at("yolo") {
        Some(b) => b,
        None => false,
    };
    RunOpts { turbo, yolo: yolo || session.yolo, timeout_secs: session.timeout_secs }
}

/// The elements of a list as strings; another element counts as an empty one,
/// and anything but a list as an empty list.
pub open spec fn list_of(v: Option<JsonV>) -> Seq<Seq<char>> {
    match v {
        Some(j) => match j.elements() {
            Some(e) => Seq::new(
                e.len(),
                |i: int|
                    match e[i].text() {
                        Some(s) => s,
                        None => Seq::empty(),
                    },
            ),
            None => Seq::empty(),
        },
        None => Seq::empty(),
    }
}

/// The elements of a list as strings.
pub fn string_list(v: Option<&Json>) -> (r: Vec<String>)
    ensures
        texts(r@) == list_of(
            match v {
                Some(j) => Some(j@),
                None => None,
            },
        ),
{
    let mut out: Vec<String> = Vec::new();
    assert(texts(out@) =~= Seq::empty());
    match v {
        Some(j) => match j.as_array() {
            Some(e) => {
                let mut i: usize = 0;
                while i < e.len()
                    invariant
                        i <= e@.len(),
                        out@.len() == i,
                        forall|k: int|
                            0 <= k < i ==> #[trigger] out@[k]@ == (match e@[k]@.text() {
                                Some(s) => s,
                                None => Seq::empty(),
                            }),
                    decreases e.len() - i,
                {
                    let s = match e[i].as_str() {
                        Some(s) => s.to_owned(),
                        None => String::new(),
                    };
                    assert(e@[i as int]@.text() is None ==> s@ =~= Seq::empty());
                    out.push(s);
                    i += 1;
                }
                assert(texts(out@) =~= list_of(Some(j@)));
            },
            None => {},
        },
        None => {},
    }
    out
}

/// The shell and the flag that hands it a line.
pub open spec fn shell_of(bash: bool) -> (Seq<char>, Seq<char>) {
    if bash {
        ("bash"@, "-lc"@)
    } else {
        ("sh"@, "-c"@)
    }
}

/// The shell and the flag that hands it a line.
pub fn shell(bash: bool) -> (r: (&'static str, &'static str))
    ensures
        (r.0@, r.1@) == shell_of(bash),
{
    if bash {
        ("bash", "-lc")
    } else {
        ("sh", "-c")
    }
}

/// The characters that only a shell understands.
pub open spec fn is_shell_char(c: char) -> bool {
    is_space(c) || c == '|' || c == ';' || c == '>' || c == '<' || c == '&' || c == '`'
}

/// True when the text is a line for a shell, not the name of a binary.
pub open spec fn is_shell_line(s: Seq<char>) -> bool {
    exists|i: int| 0 <= i < s.len() && is_shell_char(#[trigger] s[i])
}

fn shell_line(s: &str) -> (r: bool)
    ensures
        r == is_shell_line(s@),
{
    let v = chars(s);
    let mut i: usize = 0;
    while i < v.len()
        invariant
            i <= v@.len(),
            v@ == s@,
            forall|k: int| 0 <= k < i ==> !is_shell_char(#[trigger] s@[k]),
        decreases v.len() - i,
    {
        let c = v[i];
        if is_white(c) || c == '|' || c == ';' || c == '>' || c == '<' || c == '&' || c == '`' {
            assert(is_shell_char(s@[i as int]));
            return true;
        }
        i += 1;
    }
    false
}

/// What is left of the arguments after the leading flags.
pub open spec fn after_flags(v: Seq<Seq<char>>) -> Seq<Seq<char>>
    decreases v.len(),
{
    if v.len() > 0 && opens(v[0], "-"@) {
        after_flags(v.drop_first())
    } else {
        v
    }
}

/// The position of the first text that is not blank, or the length.
pub open spec fn first_filled(v: Seq<Seq<char>>) -> nat
    decreases v.len(),
{
    if v.len() == 0 || trimmed(v[0]).len() > 0 {
        0
    } else {
        1 + first_filled(v.drop_first())
    }
}

/// The command line that a list of words gives: the first word that is not
/// blank is the binary; a flag in its place goes to the shell.
pub open spec fn line_of(v: Seq<Seq<char>>, bash: bool) -> Option<(Seq<char>, Seq<Seq<char>>)> {
    let i = first_filled(v) as int;
    if i >= v.len() {
        None
    } else if opens(v[i], "-"@) {
        Some((shell_of(bash).0, v.skip(i)))
    } else {
        Some((v[i], v.skip(i + 1)))
    }
}

/// The command line that a call asks for, before this machine's python is
/// looked at.
pub open spec fn raw_argv_of(a: JsonV, bash: bool) -> Option<(Seq<char>, Seq<Seq<char>>)> {
    let tail = list_of(a.get("args"@));
    let named = match a.text_at("command"@) {
        Some(c) => if trimmed(c).len() > 0 {
            Some(c)
        } else {
            None
        },
        None => None,
    };
    match named {
        Some(binary) => if tail.len() == 0 && is_shell_line(binary) {
            Some((shell_of(bash).0, Seq::empty().push(shell_of(bash).1).push(binary)))
        } else if binary == "bash"@ && !bash {
            Some((shell_of(bash).0, Seq::empty().push(shell_of(bash).1) + after_flags(tail)))
        } else {
            Some((binary, tail))
        },
        None => line_of(list_of(a.get("command"@)) + tail, bash),
    }
}

/// The command line that a call asks for. A python that is not on the path is
/// the one built into this program.
pub open spec fn argv_of(a: JsonV, m: Machine) -> Option<(Seq<char>, Seq<Seq<char>>)> {
    match raw_argv_of(a, m.bash) {
        Some((binary, tail)) => if (binary == "python"@ && !m.python) || (binary == "python3"@
            && !m.python3) {
            match opt(m.me) {
                Some(me) => Some((me, Seq::empty().push("python"@) + tail)),
                None => None,
            }
        } else {
            Some((binary, tail))
        },
        None => None,
    }
}

fn slice_of(v: &Vec<String>, from: usize) -> (r: Vec<String>)
    requires
        from <= v@.len(),
    ensures
        texts(r@) == texts(v@).skip(from as int),
{
    let mut out: Vec<String> = Vec::new();
    let mut i: usize = from;
    while i < v.len()
        invariant
            from <= i <= v@.len(),
            out@.len() == i - from,
            forall|k: int| 0 <= k < i - from ==> #[trigger] out@[k]@ == v@[from + k]@,
        decreases v.len() - i,
    {
        out.push(v[i].clone());
        i += 1;
    }
    assert(texts(out@) =~= texts(v@).skip(from as int));
    out
}

fn prepend(first: &str, rest: Vec<String>) -> (r: Vec<String>)
    ensures
        texts(r@) == Seq::empty().push(first@) + texts(rest@),
{
    let mut out: Vec<String> = rest;
    out.insert(0, first.to_owned());
    assert(texts(out@) =~= Seq::empty().push(first@) + texts(rest@));
    out
}

fn skip_flags(v: &Vec<String>) -> (r: Vec<String>)
    ensures
        texts(r@) == after_flags(texts(v@)),
{
    let ghost all = texts(v@);
    let mut i: usize = 0;
    assert(all.skip(0) =~= all);
    while i < v.len() && starts_with(v[i].as_str(), "-")
        invariant
            i <= v@.len(),
            all == texts(v@),
            after_flags(all.skip(i as int)) == after_flags(all),
        decreases v.len() - i,
    {
        assert(all.skip(i as int).drop_first() =~= all.skip(i + 1));
        i += 1;
    }
    slice_of(v, i)
}

fn command_line(v: &Vec<String>, bash: bool) -> (r: Option<(String, Vec<String>)>)
    ensures
        r is Some <==> line_of(texts(v@), bash) is Some,
        r is Some ==> line_of(texts(v@), bash) == Some(argv_view(r.unwrap())),
{
    let ghost all = texts(v@);
    let mut i: usize = 0;
    assert(all.skip(0) =~= all);
    while i < v.len() && is_blank(v[i].as_str())
        invariant
            i <= v@.len(),
            all == texts(v@),
            first_filled(all) == i + first_filled(all.skip(i as int)),
        decreases v.len() - i,
    {
        assert(all.skip(i as int).drop_first() =~= all.skip(i + 1));
        i += 1;
    }
    if i == v.len() {
        return None;
    }
    if starts_with(v[i].as_str(), "-") {
        Some((shell(bash).0.to_owned(), slice_of(v, i)))
    } else {
        Some((v[i].clone(), slice_of(v, i + 1)))
    }
}

fn append_all(head: Vec<String>, tail: Vec<String>) -> (r: Vec<String>)
    ensures
        texts(r@) == texts(head@) + texts(tail@),
{
    let mut out = head;
    let mut rest = tail;
    out.append(&mut rest);
    assert(texts(out@) =~= texts(head@) + texts(tail@));
    out
}

/// The command line that a call asks for, before this machine's python is
/// looked at.
pub fn raw_argv(a: &Json, bash: bool) -> (r: Option<(String, Vec<String>)>)
    ensures
        r is Some <==> raw_argv_of(a@, bash) is Some,
        r is Some ==> raw_argv_of(a@, bash) == Some(argv_view(r.unwrap())),
{
    let tail = string_list(a.get("args"));
    let (sh, flag) = shell(bash);
    match a.str_at("command") {
        Some(binary) => if !is_blank(binary) {
            if tail.len() == 0 && shell_line(binary) {
                let line: Vec<String> = vec![flag.to_owned(), binary.to_owned()];
                assert(texts(line@) =~= Seq::empty().push(flag@).push(binary@));
                return Some((sh.to_owned(), line));
            }
            if same(binary, "bash") && !bash {
                return Some((sh.to_owned(), prepend(flag, skip_flags(&tail))));
            }
            return Some((binary.to_owned(), tail));
        },
        None => {},
    }
    command_line(&append_all(string_list(a.get("command")), tail), bash)
}

/// The command line that a call asks for.
pub fn argv(a: &Json, m: &Machine) -> (r: Option<(String, Vec<String>)>)
    ensures
        r is Some <==> argv_of(a@, *m) is Some,
        r is Some ==> argv_of(a@, *m) == Some(argv_view(r.unwrap())),
{
    match raw_argv(a, m.bash) {
        Some((binary, tail)) => {
            if (same(binary.as_str(), "python") && !m.python) || (same(binary.as_str(), "python3")
                && !m.python3) {
                match &m.me {
                    Some(me) => Some((me.clone(), prepend("python", tail))),
                    None => None,
                }
            } else {
                Some((binary, tail))
            }
        },
        None => None,
    }
}

/// How a command went.
pub struct CommandOutput {
    pub stdout: String,
    pub stderr: String,
    pub exit_code: Option<i32>,
    pub timed_out: bool,
}

/// Both output streams, one after the other.
pub open spec fn combined(o: CommandOutput) -> Seq<char> {
    o.stdout@ + "\n"@ + o.stderr@
}

/// True when a lower case output names the sandbox as what refused.
pub open spec fn blames_sandbox(low: Seq<char>) -> bool {
    ||| holds(low, "seccomp"@)
    ||| holds(low, "landlock"@)
    ||| holds(low, "sandbox denied"@)
    ||| holds(low, "sandboxed: denied"@)
    ||| holds(low, "operation not permitted by sandbox"@)
}

/// Whether a lower case output names the sandbox as what refused.
pub fn blames_sandbox_in(low: &str) -> (r: bool)
    ensures
        r == blames_sandbox(low@),
{
    contains(low, "seccomp") || contains(low, "landlock") || contains(low, "sandbox denied")
        || contains(low, "sandboxed: denied") || contains(low, "operation not permitted by sandbox")
}

/// Whether a failed command looks refused by the sandbox rather than failed on
/// its own.
pub fn sandbox_denial(output: &CommandOutput) -> (r: bool)
    ensures
        r == (output.exit_code != Some(0i32) && blames_sandbox(lowercase(combined(*output)))),
{
    let success = match output.exit_code {
        Some(code) => code == 0,
        None => false,
    };
    if success {
        return false;
    }
    let text = cat3(output.stdout.as_str(), "\n", output.stderr.as_str());
    blames_sandbox_in(text.as_str().to_lowercase().as_str())
}

/// What is said about a binary that is not on the path.
pub open spec fn missing_binary_text(binary: Seq<char>) -> Seq<char> {
    "there is no `"@ + binary + "` on this machine's PATH."@ + (if binary == "python"@ || binary
        == "python3"@ || binary == "pip"@ || binary == "pip3"@ {
        " Python here is `aster python <script>` or `aster python -c \"...\"`."@
    } else if binary == "bash"@ {
        " The shell is `sh -c \"...\"`."@
    } else {
        ""@
    })
}

/// What is said about a binary that is not on the path.
pub fn missing_binary(binary: &str) -> (r: String)
    ensures
        r@ == missing_binary_text(binary@),
{
    let hint = if same(binary, "python") || same(binary, "python3") || same(binary, "pip") || same(
        binary,
        "pip3",
    ) {
        " Python here is `aster python <script>` or `aster python -c \"...\"`."
    } else if same(binary, "bash") {
        " The shell is `sh -c \"...\"`."
    } else {
        ""
    };
    cat4("there is no `", binary, "` on this machine's PATH.", hint)
}

/// True when a line reports an error of a build or a test run.
pub open spec fn is_error_line(line: Seq<char>) -> bool {
    let t = trimmed_start(line);
    ||| opens(t, "error:"@)
    ||| opens(t, "error["@)
    ||| holds(t, "error TS"@)
    ||| opens(t, "FAILED"@)
    ||| holds(t, "panicked at"@)
}

fn error_line(line: &str) -> (r: bool)
    ensures
        r == is_error_line(line@),
{
    let t = trim_start(line);
    let t = t.as_str();
    starts_with(t, "error:") || starts_with(t, "error[") || contains(t, "error TS") || starts_with(
        t,
        "FAILED",
    ) || contains(t, "panicked at")
}

/// The first line that reports an error.
pub open spec fn first_error(v: Seq<Seq<char>>) -> Option<Seq<char>>
    decreases v.len(),
{
    if v.len() == 0 {
        None
    } else if is_error_line(v[0]) {
        Some(trimmed(v[0]))
    } else {
        first_error(v.drop_first())
    }
}

/// The first line of an output that reports an error, trimmed.
pub fn first_error_line(output: &str) -> (r: Option<String>)
    ensures
        opt(r) == first_error(lines_of(output@)),
{
    let v = lines(output);
    let ghost all = texts(v@);
    let mut i: usize = 0;
    assert(all.skip(0) =~= all);
    while i < v.len()
        invariant
            i <= v@.len(),
            all == texts(v@),
            all == lines_of(output@),
            first_error(all.skip(i as int)) == first_error(all),
        decreases v.len() - i,
    {
        assert(all.skip(i as int)[0] == v@[i as int]@);
        if error_line(v[i].as_str()) {
            return Some(trim(v[i].as_str()));
        }
        assert(all.skip(i as int).drop_first() =~= all.skip(i + 1));
        i += 1;
    }
    None
}

/// True when a lower case output reports a failed login.
pub open spec fn blames_auth(low: Seq<char>) -> bool {
    ||| holds(low, "unauthorized"@)
    ||| holds(low, "authentication failed"@)
    ||| holds(low, "invalid credentials"@)
    ||| holds(low, "not logged in"@)
    ||| holds(low, "please log in"@)
    ||| holds(low, "token expired"@)
}

fn blames_auth_in(low: &str) -> (r: bool)
    ensures
        r == blames_auth(low@),
{
    contains(low, "unauthorized") || contains(low, "authentication failed") || contains(
        low,
        "invalid credentials",
    ) || contains(low, "not logged in") || contains(low, "please log in") || contains(
        low,
        "token expired",
    )
}

/// True when a lower case output reports a refused path; a refused ssh key is
/// none.
pub open spec fn blames_permission(low: Seq<char>) -> bool {
    (holds(low, "permission denied"@) || holds(low, "permissiondenied"@) || holds(low, "eperm"@)
        || holds(low, "operation not permitted"@)) && !holds(low, "publickey"@)
}

fn blames_permission_in(low: &str) -> (r: bool)
    ensures
        r == blames_permission(low@),
{
    (contains(low, "permission denied") || contains(low, "permissiondenied") || contains(
        low,
        "eperm",
    ) || contains(low, "operation not permitted")) && !contains(low, "publickey")
}

/// Said after a login failed.
pub const AUTH_NOTE: &'static str = "note: this is an auth failure; retrying the same command will not \
             help. Tell the user what to log in to, and continue with what does \
             not need it.";

/// Said after the sandbox probably refused a path.
pub const SANDBOX_NOTE: &'static str = "note: this command ran inside the sandbox, which only allows writes \
             to the repository, temp directories, and build caches. A permission \
             error here usually means the sandbox blocked a path, not that the \
             tool or network is broken. Prefer a path the sandbox allows; if the \
             task truly needs the blocked path, say so to the user instead of \
             switching tools.";

/// What is said about the first error of an output.
pub open spec fn error_note(line: Seq<char>, failed: bool) -> Seq<char> {
    if failed {
        "note: first error in the output: "@ + line + ". Fix the first error \
                 before any later one; the `build-triage` skill (read_skill) \
                 has the full protocol."@
    } else {
        "note: exit code 0 comes from the last command in the pipe; the \
                 build or test run itself failed. First error: "@ + line + ". The \
                 `build-triage` skill (read_skill) has the full protocol."@
    }
}

/// True for the shells that run whole lines.
pub open spec fn is_shell(binary: Seq<char>) -> bool {
    binary == "bash"@ || binary == "sh"@ || binary == "zsh"@ || binary == "fish"@
}

/// The notes that help with a command's output. `low` is the output in lower
/// case.
pub open spec fn coaching(
    binary: Seq<char>,
    o: CommandOutput,
    low: Seq<char>,
    sandboxed: bool,
) -> Seq<Seq<char>> {
    let failed = o.exit_code != Some(0i32);
    let first = first_error(lines_of(combined(o)));
    let a = if first is Some && (is_shell(binary) || failed) {
        Seq::empty().push(error_note(first.unwrap(), failed))
    } else {
        Seq::empty()
    };
    let b = if failed && blames_auth(low) {
        a.push(AUTH_NOTE@)
    } else {
        a
    };
    if sandboxed && failed && blames_permission(low) {
        b.push(SANDBOX_NOTE@)
    } else {
        b
    }
}

fn note(list: &mut Vec<String>, text: String)
    ensures
        texts(final(list)@) == texts(old(list)@).push(text@),
{
    list.push(text);
    assert(texts(list@) =~= texts(old(list)@).push(text@));
}

/// [`command_coaching`] over the output in lower case.
pub fn coach(
    binary: &str,
    output: &CommandOutput,
    low: &str,
    sandboxed: bool,
) -> (r: Vec<String>)
    ensures
        texts(r@) == coaching(binary@, *output, low@, sandboxed),
{
    let mut notes: Vec<String> = Vec::new();
    assert(texts(notes@) =~= Seq::empty());
    let failed = match output.exit_code {
        Some(code) => code != 0,
        None => true,
    };
    let text = cat3(output.stdout.as_str(), "\n", output.stderr.as_str());
    let is_shell = same(binary, "bash") || same(binary, "sh") || same(binary, "zsh") || same(
        binary,
        "fish",
    );
    match first_error_line(text.as_str()) {
        Some(line) => if is_shell || failed {
            if failed {
                note(
                    &mut notes,
                    cat3(
                        "note: first error in the output: ",
                        line.as_str(),
                        ". Fix the first error \
                 before any later one; the `build-triage` skill (read_skill) \
                 has the full protocol.",
                    ),
                );
            } else {
                note(
                    &mut notes,
                    cat3(
                        "note: exit code 0 comes from the last command in the pipe; the \
                 build or test run itself failed. First error: ",
                        line.as_str(),
                        ". The \
                 `build-triage` skill (read_skill) has the full protocol.",
                    ),
                );
            }
        },
        None => {},
    }
    if failed && blames_auth_in(low) {
        note(&mut notes, AUTH_NOTE.to_owned());
    }
    if sandboxed && failed && blames_permission_in(low) {
        note(&mut notes, SANDBOX_NOTE.to_owned());
    }
    notes
}

/// The notes that help with a command's output.
pub fn command_coaching(binary: &str, output: &CommandOutput, sandboxed: bool) -> (r: Vec<String>)
    ensures
        texts(r@) == coaching(binary@, *output, lowercase(combined(*output)), sandboxed),
{
    let text = cat3(output.stdout.as_str(), "\n", output.stderr.as_str());
    coach(binary, output, text.as_str().to_lowercase().as_str(), sandboxed)
}

/// Said at the end of a timed out command.
pub const TIMEOUT_ADVICE: &'static str = "Do NOT re-run this command with a longer timeout. Kill any leftover \
         processes first, then run a narrower or faster variant (scope it to \
         one target, bound its output, or skip the slow step). The \
         `build-triage` skill (read_skill) has the full protocol.";

/// One stream of a timed out command, if it said anything.
pub open spec fn timed_out_stream(label: Seq<char>, s: Seq<char>) -> Seq<char> {
    if s.len() == 0 {
        Seq::empty()
    } else {
        label + truncated_head(s, MAX_STREAM_CHARS as int) + "\n"@
    }
}

/// What is shown of a command that timed out.
pub open spec fn timeout_text(o: CommandOutput, secs: u64) -> Seq<char> {
    "error: command timed out after "@ + dec(secs as nat) + "s\n"@ + (if o.stdout@.len() == 0
        && o.stderr@.len() == 0 {
        "(no output before the timeout)\n"@
    } else {
        "output before the timeout:\n"@ + timed_out_stream("stdout:\n"@, o.stdout@)
            + timed_out_stream("stderr:\n"@, o.stderr@)
    }) + TIMEOUT_ADVICE@
}

fn stream_text(label: &str, s: &str) -> (r: String)
    ensures
        r@ == timed_out_stream(label@, s@),
{
    if s.is_empty() {
        let r = String::new();
        assert(r@ =~= Seq::empty());
        return r;
    }
    cat3(label, truncate_head(s, MAX_STREAM_CHARS).as_str(), "\n")
}

/// What is shown of a command that timed out.
pub fn render_timeout(output: &CommandOutput, timeout_secs: u64) -> (r: String)
    ensures
        r@ == timeout_text(*output, timeout_secs),
{
    let head = cat3(
        "error: command timed out after ",
        decimal(timeout_secs).as_str(),
        "s\n",
    );
    let body = if output.stdout.as_str().is_empty() && output.stderr.as_str().is_empty() {
        "(no output before the timeout)\n".to_owned()
    } else {
        let out = stream_text("stdout:\n", output.stdout.as_str());
        let err = stream_text("stderr:\n", output.stderr.as_str());
        cat3("output before the timeout:\n", out.as_str(), err.as_str())
    };
    cat3(head.as_str(), body.as_str(), TIMEOUT_ADVICE)
}

/// A signed number in decimal.
pub open spec fn signed(n: int) -> Seq<char> {
    if n < 0 {
        "-"@ + dec((-n) as nat)
    } else {
        dec(n as nat)
    }
}

fn signed_decimal(n: i32) -> (r: String)
    ensures
        r@ == signed(n as int),
{
    if n < 0 {
        let m: u64 = (-(n as i64)) as u64;
        cat2("-", decimal(m).as_str())
    } else {
        decimal(n as u64)
    }
}

/// Each text behind a line break, one after the other.
pub open spec fn on_own_lines(v: Seq<Seq<char>>) -> Seq<char>
    decreases v.len(),
{
    if v.len() == 0 {
        Seq::empty()
    } else {
        on_own_lines(v.drop_last()) + "\n"@ + v.last()
    }
}

/// What is shown of a command that ran. `low` is its output in lower case.
pub open spec fn command_text(
    binary: Seq<char>,
    o: CommandOutput,
    low: Seq<char>,
    opts: RunOpts,
) -> Seq<char> {
    if o.timed_out {
        timeout_text(o, opts.timeout_secs)
    } else {
        let out = if o.stdout@.len() == 0 {
            Seq::empty()
        } else {
            "stdout:\n"@ + truncated(o.stdout@, MAX_STREAM_CHARS as int)
        };
        let err = if o.stderr@.len() == 0 {
            out
        } else {
            (if out.len() == 0 {
                out
            } else {
                out + "\n"@
            }) + "stderr:\n"@ + truncated_head(o.stderr@, MAX_STREAM_CHARS as int)
        };
        let code = match o.exit_code {
            Some(c) => c as int,
            None => -1,
        };
        err + ("\nexit code: "@ + signed(code)) + on_own_lines(
            coaching(binary, o, low, !opts.yolo),
        )
    }
}

/// Of a command that did not time out every stream that is not empty is shown
/// under its label: the standard output in front, cut at its end, and, whatever
/// the standard output is, the error output, cut at its head. The exit code
/// follows, and all that is said besides comes after that.
pub proof fn both_streams_are_shown(
    binary: Seq<char>,
    o: CommandOutput,
    low: Seq<char>,
    opts: RunOpts,
)
    requires
        !o.timed_out,
    ensures
        o.stdout@.len() > 0 ==> opens(
            command_text(binary, o, low, opts),
            "stdout:\n"@ + truncated(o.stdout@, MAX_STREAM_CHARS as int),
        ),
        o.stderr@.len() > 0 ==> holds(
            command_text(binary, o, low, opts),
            "stderr:\n"@ + truncated_head(o.stderr@, MAX_STREAM_CHARS as int) + "\nexit code: "@,
        ),
        o.stderr@.len() > 0 && o.stdout@.len() == 0 ==> opens(
            command_text(binary, o, low, opts),
            "stderr:\n"@,
        ),
        o.exit_code matches Some(code) ==> holds(
            command_text(binary, o, low, opts),
            "\nexit code: "@ + signed(code as int),
        ),
        o.exit_code is None ==> holds(command_text(binary, o, low, opts), "\nexit code: -1"@),
{
    let text = command_text(binary, o, low, opts);
    let out = "stdout:\n"@ + truncated(o.stdout@, MAX_STREAM_CHARS as int);
    let err = "stderr:\n"@ + truncated_head(o.stderr@, MAX_STREAM_CHARS as int);
    let code = match o.exit_code {
        Some(c) => c as int,
        None => -1,
    };
    let exit = "\nexit code: "@ + signed(code);
    let advice = on_own_lines(coaching(binary, o, low, !opts.yolo));
    reveal_strlit("stdout:\n");
    reveal_strlit("\nexit code: ");
    reveal_strlit("\nexit code: -1");
    reveal_strlit("-");
    assert(dec(1) =~= seq!['1']);
    assert(o.exit_code is None ==> exit =~= "\nexit code: -1"@);
    let front = if o.stdout@.len() == 0 {
        Seq::empty()
    } else if o.stderr@.len() == 0 {
        out
    } else {
        out + "\n"@
    };
    if o.stderr@.len() > 0 {
        assert(text =~= front + err + (exit + advice));
        assert(text =~= (front + err) + exit + advice);
        lemma_holds_between(front + err, exit, advice);
        let shown = err + "\nexit code: "@;
        assert(text =~= front + shown + (signed(code) + advice));
        lemma_holds_between(front, shown, signed(code) + advice);
        if o.stdout@.len() == 0 {
            assert(text.take("stderr:\n"@.len() as int) =~= "stderr:\n"@);
        }
    } else {
        assert(text =~= front + exit + advice);
        lemma_holds_between(front, exit, advice);
    }
    if o.stdout@.len() > 0 {
        assert(text.take(out.len() as int) =~= out);
    }
}

/// Of a command that timed out too every stream that is not empty is shown under
/// its label, and the time it was given.
pub proof fn both_streams_survive_a_timeout(
    binary: Seq<char>,
    o: CommandOutput,
    low: Seq<char>,
    opts: RunOpts,
)
    requires
        o.timed_out,
    ensures
        opens(
            command_text(binary, o, low, opts),
            "error: command timed out after "@ + dec(opts.timeout_secs as nat) + "s\n"@,
        ),
        o.stdout@.len() > 0 ==> holds(
            command_text(binary, o, low, opts),
            "stdout:\n"@ + truncated_head(o.stdout@, MAX_STREAM_CHARS as int) + "\n"@,
        ),
        o.stderr@.len() > 0 ==> holds(
            command_text(binary, o, low, opts),
            "stderr:\n"@ + truncated_head(o.stderr@, MAX_STREAM_CHARS as int) + "\n"@,
        ),
{
    let text = command_text(binary, o, low, opts);
    let lead = "error: command timed out after "@ + dec(opts.timeout_secs as nat) + "s\n"@;
    assert(text.take(lead.len() as int) =~= lead);
    let out = timed_out_stream("stdout:\n"@, o.stdout@);
    let err = timed_out_stream("stderr:\n"@, o.stderr@);
    let front = lead + "output before the timeout:\n"@;
    if o.stdout@.len() > 0 || o.stderr@.len() > 0 {
        assert(text =~= front + out + (err + TIMEOUT_ADVICE@));
        lemma_holds_between(front, out, err + TIMEOUT_ADVICE@);
        assert(text =~= (front + out) + err + TIMEOUT_ADVICE@);
        lemma_holds_between(front + out, err, TIMEOUT_ADVICE@);
    }
}

/// [`render_command`] over the output in lower case.
pub fn render_output(
    binary: &str,
    output: &CommandOutput,
    low: &str,
    opts: RunOpts,
) -> (r: String)
    ensures
        r@ == command_text(binary@, *output, low@, opts),
        !output.timed_out && output.stdout@.len() > 0 ==> opens(
            r@,
            "stdout:\n"@ + truncated(output.stdout@, MAX_STREAM_CHARS as int),
        ),
        !output.timed_out && output.stderr@.len() > 0 ==> holds(
            r@,
            "stderr:\n"@ + truncated_head(output.stderr@, MAX_STREAM_CHARS as int)
                + "\nexit code: "@,
        ),
{
    proof {
        if !output.timed_out {
            both_streams_are_shown(binary@, *output, low@, opts);
        }
    }
    if output.timed_out {
        return render_timeout(output, opts.timeout_secs);
    }
    let mut result = String::new();
    assert(result@ =~= Seq::empty());
    if !output.stdout.as_str().is_empty() {
        result = cat2("stdout:\n", truncate(output.stdout.as_str(), MAX_STREAM_CHARS).as_str());
    }
    if !output.stderr.as_str().is_empty() {
        if !result.as_str().is_empty() {
            result.push_str("\n");
        }
        result.push_str("stderr:\n");
        result.push_str(truncate_head(output.stderr.as_str(), MAX_STREAM_CHARS).as_str());
    }
    let code: i32 = match output.exit_code {
        Some(c) => c,
        None => -1,
    };
    result.push_str(cat2("\nexit code: ", signed_decimal(code).as_str()).as_str());
    let notes = coach(binary, output, low, !opts.yolo);
    let ghost all = texts(notes@);
    let ghost head = result@;
    let mut i: usize = 0;
    assert(head + on_own_lines(all.take(0)) =~= head);
    while i < notes.len()
        invariant
            i <= notes@.len(),
            all == texts(notes@),
            result@ == head + on_own_lines(all.take(i as int)),
        decreases notes.len() - i,
    {
        proof {
            assert(all.take(i + 1).drop_last() =~= all.take(i as int));
            assert(all.take(i + 1).last() == notes@[i as int]@);
        }
        result.push_str("\n");
        result.push_str(notes[i].as_str());
        i += 1;
        assert(result@ =~= head + on_own_lines(all.take(i as int)));
    }
    assert(all.take(all.len() as int) =~= all);
    result
}

/// What is shown of a command that ran.
pub fn render_command(binary: &str, output: &CommandOutput, opts: RunOpts) -> (r: String)
    ensures
        r@ == command_text(binary@, *output, lowercase(combined(*output)), opts),
{
    let text = cat3(output.stdout.as_str(), "\n", output.stderr.as_str());
    render_output(binary, output, text.as_str().to_lowercase().as_str(), opts)
}

/// Whether a binary has to be looked for on the path: one with a slash is a
/// path itself.
pub fn is_bare(binary: &str) -> (r: bool)
    ensures
        r == !binary@.contains('/'),
{
    !contains_char(binary, '/')
}

} // verus!
