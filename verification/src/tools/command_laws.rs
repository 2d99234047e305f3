//! What holds of every command that is asked for and shown.

use vstd::prelude::*;

use crate::json::JsonV;
use crate::text::affix::{closes, holds, lemma_holds_between, lemma_holds_wider, opens, trimmed};
use crate::text::number::dec;
use crate::text::opt;
use crate::text::pieces::lines_of;
use crate::tools::command::{
    after_flags, argv_of, blames_auth, blames_permission, blames_sandbox, coaching, combined,
    command_text, first_error, first_filled, is_error_line, is_shell, is_shell_char, line_of,
    list_of, missing_binary_text, on_own_lines, raw_argv_of, run_opts_of, signed, CommandOutput,
    Machine, RunOpts, AUTH_NOTE, SANDBOX_NOTE,
};

verus! {

/// A call that names a binary runs that binary with the arguments it lists, in
/// order, whatever the machine has; those that the machine may have to stand in
/// for are another matter.
pub proof fn a_command_runs_as_asked(a: JsonV, m: Machine, binary: Seq<char>, args: Seq<JsonV>)
    requires
        a.text_at("command"@) == Some(binary),
        trimmed(binary).len() > 0,
        a.elements_at("args"@) == Some(args) || (a.elements_at("args"@) is None && args.len() == 0),
        args.len() > 0 || forall|i: int|
            0 <= i < binary.len() ==> !is_shell_char(#[trigger] binary[i]),
        binary == "bash"@ ==> m.bash,
        binary == "python"@ ==> m.python,
        binary == "python3"@ ==> m.python3,
    ensures
        argv_of(a, m) is Some,
        argv_of(a, m).unwrap().0 == binary,
        argv_of(a, m).unwrap().1.len() == args.len(),
        forall|i: int|
            #![trigger args[i]]
            0 <= i < args.len() && args[i].text() is Some ==> argv_of(a, m).unwrap().1[i]
                == args[i].text().unwrap(),
{
}

/// A line that only a shell understands, given without arguments, is handed to a
/// shell whole.
pub proof fn a_shell_line_goes_to_the_shell(a: JsonV, m: Machine, line: Seq<char>, i: int)
    requires
        a.text_at("command"@) == Some(line),
        trimmed(line).len() > 0,
        a.elements_at("args"@) is None || a.elements_at("args"@).unwrap().len() == 0,
        0 <= i < line.len(),
        is_shell_char(line[i]),
    ensures
        argv_of(a, m) is Some,
        argv_of(a, m).unwrap().0 == if m.bash { "bash"@ } else { "sh"@ },
        argv_of(a, m).unwrap().1.len() == 2,
        argv_of(a, m).unwrap().1[0] == if m.bash { "-lc"@ } else { "-c"@ },
        argv_of(a, m).unwrap().1[1] == line,
{
    reveal_strlit("bash");
    reveal_strlit("sh");
    reveal_strlit("python");
    reveal_strlit("python3");
    assert("bash"@.len() == 4 && "sh"@.len() == 2 && "python"@.len() == 6 && "python3"@.len() == 7);
    assert(list_of(a.get("args"@)).len() == 0);
}

proof fn lemma_first_filled(v: Seq<Seq<char>>)
    ensures
        first_filled(v) <= v.len(),
        first_filled(v) < v.len() ==> trimmed(v[first_filled(v) as int]).len() > 0,
        forall|k: int| 0 <= k < first_filled(v) ==> trimmed(#[trigger] v[k]).len() == 0,
    decreases v.len(),
{
    if v.len() > 0 && trimmed(v[0]).len() == 0 {
        let t = v.drop_first();
        lemma_first_filled(t);
        assert forall|k: int| 0 <= k < first_filled(v) implies trimmed(#[trigger] v[k]).len()
            == 0 by {
            if k > 0 {
                assert(t[k - 1] == v[k]);
            }
        }
    }
}

/// Of a command given as a list of words nothing is lost but the blank words in
/// front: the rest, in order, is the binary and its arguments, or goes to a
/// shell when it opens with a flag. Only blank words are no command.
pub proof fn words_make_the_command(v: Seq<Seq<char>>, bash: bool, i: int)
    requires
        0 <= i < v.len(),
        trimmed(v[i]).len() > 0,
        forall|k: int| 0 <= k < i ==> trimmed(#[trigger] v[k]).len() == 0,
    ensures
        line_of(v, bash) is Some,
        !opens(v[i], "-"@) ==> seq![line_of(v, bash).unwrap().0] + line_of(v, bash).unwrap().1
            == v.skip(i),
        opens(v[i], "-"@) ==> line_of(v, bash).unwrap().1 == v.skip(i) && line_of(
            v,
            bash,
        ).unwrap().0 == if bash { "bash"@ } else { "sh"@ },
{
    lemma_first_filled(v);
    let n = first_filled(v) as int;
    assert(n == i) by {
        if n < i {
            assert(trimmed(v[n]).len() == 0);
        }
        if n > i {
            assert(trimmed(v[i]).len() == 0);
        }
    }
    assert(seq![v[i]] + v.skip(i + 1) =~= v.skip(i));
}

/// A list of blank words is no command.
pub proof fn blank_words_are_no_command(v: Seq<Seq<char>>, bash: bool)
    requires
        forall|k: int| 0 <= k < v.len() ==> trimmed(#[trigger] v[k]).len() == 0,
    ensures
        line_of(v, bash) is None,
{
    lemma_first_filled(v);
}

/// A python that the machine lacks is run by this program, with the same
/// arguments behind the word `python`.
pub proof fn python_is_built_in(a: JsonV, m: Machine, me: Seq<char>, tail: Seq<Seq<char>>)
    requires
        !m.python,
        raw_argv_of(a, m.bash) == Some(("python"@, tail)),
        opt(m.me) == Some(me),
    ensures
        argv_of(a, m) is Some,
        argv_of(a, m).unwrap().0 == me,
        argv_of(a, m).unwrap().1.len() == tail.len() + 1,
        argv_of(a, m).unwrap().1[0] == "python"@,
        argv_of(a, m).unwrap().1.skip(1) == tail,
{
    assert((Seq::empty().push("python"@) + tail).skip(1) =~= tail);
}

/// A call runs outside the sandbox only where it or the session asks for that,
/// and without the network only where it asks itself; it never changes how long
/// it may take.
pub proof fn a_call_asks_for_itself(a: JsonV, session: RunOpts)
    ensures
        run_opts_of(a, session).yolo <==> session.yolo || a.boolean_at("yolo"@) == Some(true),
        run_opts_of(a, session).turbo <==> a.boolean_at("turbo"@) == Some(true),
        run_opts_of(a, session).timeout_secs == session.timeout_secs,
{
}

/// The first error of an output is the first line that reports one.
pub proof fn the_first_error_comes_first(v: Seq<Seq<char>>, i: int)
    requires
        0 <= i <= v.len(),
        forall|k: int| 0 <= k < i ==> !is_error_line(#[trigger] v[k]),
        i < v.len() ==> is_error_line(v[i]),
    ensures
        i < v.len() ==> first_error(v) == Some(trimmed(v[i])),
        i == v.len() ==> first_error(v) is None,
    decreases i,
{
    if i > 0 {
        assert(!is_error_line(v[0]));
        let t = v.drop_first();
        assert forall|k: int| 0 <= k < i - 1 implies !is_error_line(#[trigger] t[k]) by {
            assert(t[k] == v[k + 1]);
        }
        the_first_error_comes_first(t, i - 1);
    }
}

/// A command that did well is left without notes, unless a shell hid an error
/// in its output. A note on a login or on the sandbox comes exactly when the
/// command failed and its output says so; the sandbox is blamed only where there
/// was one.
pub proof fn notes_fit_the_failure(
    binary: Seq<char>,
    o: CommandOutput,
    low: Seq<char>,
    sandboxed: bool,
)
    ensures
        o.exit_code == Some(0i32) && !is_shell(binary) ==> coaching(
            binary,
            o,
            low,
            sandboxed,
        ).len() == 0,
        o.exit_code != Some(0i32) && blames_auth(low) ==> coaching(
            binary,
            o,
            low,
            sandboxed,
        ).contains(AUTH_NOTE@),
        o.exit_code != Some(0i32) && sandboxed && blames_permission(low) ==> coaching(
            binary,
            o,
            low,
            sandboxed,
        ).contains(SANDBOX_NOTE@),
        coaching(binary, o, low, sandboxed).len() == (if first_error(lines_of(combined(o))) is Some
            && (is_shell(binary) || o.exit_code != Some(0i32)) {
            1int
        } else {
            0
        }) + (if o.exit_code != Some(0i32) && blames_auth(low) {
            1int
        } else {
            0
        }) + (if sandboxed && o.exit_code != Some(0i32) && blames_permission(low) {
            1int
        } else {
            0
        }),
        first_error(lines_of(combined(o))) is Some && (is_shell(binary) || o.exit_code != Some(
            0i32,
        )) ==> holds(
            coaching(binary, o, low, sandboxed)[0],
            first_error(lines_of(combined(o))).unwrap(),
        ),
{
    let all = coaching(binary, o, low, sandboxed);
    let n = all.len() as int;
    let failed = o.exit_code != Some(0i32);
    if failed && sandboxed && blames_permission(low) {
        assert(all[n - 1] == SANDBOX_NOTE@);
        if blames_auth(low) {
            assert(all[n - 2] == AUTH_NOTE@);
        }
    } else if failed && blames_auth(low) {
        assert(all[n - 1] == AUTH_NOTE@);
    }
    match first_error(lines_of(combined(o))) {
        Some(line) => {
            if is_shell(binary) || failed {
                lemma_holds_between(
                    "note: first error in the output: "@,
                    line,
                    ". Fix the first error \
                 before any later one; the `build-triage` skill (read_skill) \
                 has the full protocol."@,
                );
                lemma_holds_between(
                    "note: exit code 0 comes from the last command in the pipe; the \
                 build or test run itself failed. First error: "@,
                    line,
                    ". The \
                 `build-triage` skill (read_skill) has the full protocol."@,
                );
            }
        },
        None => {},
    }
}

proof fn lemma_own_lines_hold(v: Seq<Seq<char>>, i: int)
    requires
        0 <= i < v.len(),
    ensures
        holds(on_own_lines(v), "\n"@ + v[i]),
    decreases v.len(),
{
    let head = on_own_lines(v.drop_last());
    let last = "\n"@ + v.last();
    assert(on_own_lines(v) =~= head + last + Seq::empty());
    if i == v.len() - 1 {
        lemma_holds_between(head, last, Seq::empty());
    } else {
        lemma_own_lines_hold(v.drop_last(), i);
        assert(on_own_lines(v) =~= Seq::empty() + head + last);
        lemma_holds_wider(Seq::empty(), head, last, "\n"@ + v[i]);
    }
}

/// Every note on a command stands in what is shown of it, on a line of its own.
pub proof fn notes_are_shown(
    binary: Seq<char>,
    o: CommandOutput,
    low: Seq<char>,
    opts: RunOpts,
    i: int,
)
    requires
        !o.timed_out,
        0 <= i < coaching(binary, o, low, !opts.yolo).len(),
    ensures
        holds(
            command_text(binary, o, low, opts),
            "\n"@ + coaching(binary, o, low, !opts.yolo)[i],
        ),
{
    let notes = coaching(binary, o, low, !opts.yolo);
    let tail = on_own_lines(notes);
    let text = command_text(binary, o, low, opts);
    lemma_own_lines_hold(notes, i);
    let front = text.take(text.len() - tail.len());
    assert(text =~= front + tail + Seq::empty());
    lemma_holds_wider(front, tail, Seq::empty(), "\n"@ + notes[i]);
}

/// A negative number is its size behind a minus sign, any other its decimal.
pub proof fn signs_are_kept(n: int)
    ensures
        n >= 0 ==> signed(n) == dec(n as nat),
        n < 0 ==> signed(n) == seq!['-'] + dec((-n) as nat),
{
    reveal_strlit("-");
    assert("-"@ =~= seq!['-']);
}

/// On a machine without bash a line for it goes to the plain shell: its own flags
/// are left out, and everything behind them is kept.
pub proof fn bash_falls_back_to_the_shell(
    a: JsonV,
    m: Machine,
    args: Seq<JsonV>,
    flag: Seq<char>,
    line: Seq<char>,
)
    requires
        !m.bash,
        a.text_at("command"@) == Some("bash"@),
        a.elements_at("args"@) == Some(args),
        args.len() == 2,
        args[0].text() == Some(flag),
        args[1].text() == Some(line),
        opens(flag, "-"@),
        !opens(line, "-"@),
        trimmed("bash"@).len() > 0,
    ensures
        argv_of(a, m) is Some,
        argv_of(a, m).unwrap().0 == "sh"@,
        argv_of(a, m).unwrap().1 == seq!["-c"@, line],
{
    reveal_strlit("sh");
    reveal_strlit("python");
    reveal_strlit("python3");
    assert("sh"@.len() == 2 && "python"@.len() == 6 && "python3"@.len() == 7);
    let tail = list_of(a.get("args"@));
    assert(tail.len() == 2 && tail[0] == flag && tail[1] == line);
    let rest = tail.drop_first();
    assert(rest[0] == line);
    assert(after_flags(rest) == rest);
    assert(after_flags(tail) == rest);
    assert(Seq::empty().push("-c"@) + rest =~= seq!["-c"@, line]);
}

/// A refused path is known by any of the phrases for it, unless it was a key that
/// was refused; a failed login by any of its own; the sandbox by its names.
pub proof fn causes_are_known_by_their_phrases(low: Seq<char>)
    ensures
        (holds(low, "permission denied"@) || holds(low, "permissiondenied"@) || holds(low, "eperm"@)
            || holds(low, "operation not permitted"@)) && !holds(low, "publickey"@)
            <==> blames_permission(low),
        holds(low, "unauthorized"@) ==> blames_auth(low),
        holds(low, "authentication failed"@) ==> blames_auth(low),
        holds(low, "invalid credentials"@) ==> blames_auth(low),
        holds(low, "not logged in"@) ==> blames_auth(low),
        holds(low, "token expired"@) ==> blames_auth(low),
        holds(low, "landlock"@) || holds(low, "seccomp"@) ==> blames_sandbox(low),
        holds(low, "sandbox denied"@) ==> blames_sandbox(low),
{
}

/// A binary that is missing is named, and a python or a bash that is gets the way
/// around it.
pub proof fn a_missing_binary_is_named(binary: Seq<char>)
    ensures
        opens(missing_binary_text(binary), "there is no `"@ + binary + "`"@),
        binary == "python"@ || binary == "python3"@ || binary == "pip"@ || binary == "pip3"@
            ==> closes(
            missing_binary_text(binary),
            " Python here is `aster python <script>` or `aster python -c \"...\"`."@,
        ),
        binary == "bash"@ ==> closes(missing_binary_text(binary), " The shell is `sh -c \"...\"`."@),
{
    let text = missing_binary_text(binary);
    reveal_strlit("`");
    reveal_strlit("` on this machine's PATH.");
    let lead = "there is no `"@ + binary + "`"@;
    assert(text.take(lead.len() as int) =~= lead);
    let python = " Python here is `aster python <script>` or `aster python -c \"...\"`."@;
    if binary == "python"@ || binary == "python3"@ || binary == "pip"@ || binary == "pip3"@ {
        assert(text.skip(text.len() - python.len()) =~= python);
    }
    if binary == "bash"@ {
        reveal_strlit("bash");
        reveal_strlit("python");
        reveal_strlit("python3");
        reveal_strlit("pip");
        reveal_strlit("pip3");
        assert("bash"@.len() == 4 && "python"@.len() == 6 && "python3"@.len() == 7 && "pip"@.len()
            == 3 && "pip3"@.len() == 4 && "bash"@[0] == 'b' && "pip3"@[0] == 'p');
        let shell = " The shell is `sh -c \"...\"`."@;
        assert(text.skip(text.len() - shell.len()) =~= shell);
    }
}

/// The shells that hide an error behind a good exit code are known by name.
pub proof fn shells_are_known_by_name(binary: Seq<char>)
    ensures
        is_shell("bash"@) && is_shell("sh"@) && is_shell("zsh"@) && is_shell("fish"@),
        is_shell(binary) ==> binary == "bash"@ || binary == "sh"@ || binary == "zsh"@ || binary
            == "fish"@,
{
}

} // verus!
