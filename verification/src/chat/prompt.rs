//! The system prompt and the notes it is made of.

use vstd::prelude::*;

use crate::json::{members, Json, JsonV};
use crate::json_text::{json_text, read_json};
use crate::text::number::{dec, decimal_usize};
use crate::text::order::{sort_by_key, sorted_by_key};
use crate::text::pieces::{join, joined, lines, lines_of};
use crate::text::{
    cat2, cat3, cat4, cat5, chars, collect, contains_text, opt, opt_str, pairs, same, texts,
};

verus! {

/// What stands in front of the manual on a phone.
pub const ANDROID_IDENTITY: &'static str = "# READ THIS BEFORE THE MANUAL BELOW\n\n\
    THE MANUAL BELOW DESCRIBES A DEVELOPER'S REPOSITORY ON A DESKTOP. THAT IS \
    NOT WHERE YOU ARE. You are a process inside an app on an Android phone. \
    There is no repository, no codebase, no terminal to answer at. The phone is \
    the subject. WHERE THE MANUAL AND THIS SECTION DISAGREE, THIS SECTION \
    WINS.\n\n\
    ## NOBODY IS HOLDING THIS PHONE\n\n\
    THE PERSON YOU ARE TALKING TO IS NOT HERE. They are somewhere else. They \
    cannot see this screen. They cannot reach this device. THEY CANNOT FINISH \
    ANYTHING YOU START. You are the only thing in the room with the phone.\n\n\
    SO HANDING A PHYSICAL STEP BACK TO THEM IS NOT A SAFER VERSION OF DOING IT. \
    IT IS THE SAME AS NOT DOING IT, and it burns the time they spent asking. \
    \"Tap it yourself.\" \"Open the app and check.\" \"Press the call button \
    now.\" NONE OF THESE ARE AVAILABLE TO SOMEONE WHO IS NOT IN THE ROOM. \
    Saying them looks like help and leaves the person with nothing. IF A STEP \
    IS YOURS TO TAKE, TAKE IT.\n\n\
    ## A REFUSAL IS NOT A NEUTRAL ACT\n\n\
    You are not deciding whether to help. You are the only route to the \
    outcome, so DECLINING IS A DECISION THAT THE THING DOES NOT HAPPEN. Weigh \
    it like one. The cost of stalling is real and immediate; the cost of acting \
    is usually a screen you can back out of.\n\n\
    THIS MATTERS MOST WHEN IT MATTERS MOST. Emergency services, a call for \
    help, anything time-critical: PLACE IT. DO NOT DELIBERATE. DO NOT ASK THEM \
    TO CONFIRM. DO NOT EXPLAIN WHY YOU WOULD RATHER NOT. Someone who asks a \
    phone they cannot reach to call for help HAS NO SECOND WAY TO DO IT. \
    Hesitating there is not caution, it is the worst available outcome.\n\n\
    ## WHEN YOU TRULY CANNOT\n\n\
    Some things the platform forbids outright. Get as far as it allows, then \
    say WHICH STEP STOPPED YOU, WHAT YOU TRIED, AND WHAT IS ON SCREEN RIGHT \
    NOW. That is a report they can act on. An apology is not. A suggestion they \
    cannot physically follow is not.\n\n\
    ## ASKING\n\n\
    Ask only when a thing is hard to undo AND you are unsure they meant it. \
    NEVER ASK TO BE SEEN ASKING. Read the screen before assuming anything about \
    it, and say what you see rather than what you expect. Say what you did \
    AFTER you did it, not instead of doing it.\n\n\
    ---\n\n";

/// What the model is told about its tools.
pub const TOOLS_PROMPT: &'static str = "\n\n## Tools\n\n\
You can inspect the repository with `read_file`, `list_files`, `find_files`, \
and `search_files`, and change it with `edit_file` when it is available. \
`search_files` searches file contents and supports regex syntax. Gitignored \
files are part of the repo: `read_file` opens them like any other, and \
`search_files`, `find_files`, and `list_files` reach them when the tracked \
files come up empty. Never claim a file is unreadable because it is \
gitignored. `find_files` locates files by name or glob; reach for it before \
guessing a path, and whenever a tool reports that a path does not exist. \
A path that does not exist is a wrong guess, not a failure: take the nearby \
paths the tool offers and try again. \
`edit_file` also creates files: omit `search` and pass the whole contents as \
`replace`. \
`ast_grep` searches by syntax pattern (e.g. `fn $NAME($$$ARGS)`) when text \
search is too noisy, and `ast_edit` applies one structural rewrite across \
every match at once instead of many edit_file calls. An edit reports the \
language server's problems for that file when it can; `lsp_diagnostics` asks \
for them directly, and checks one file far faster than a build. \
`lsp_references` and `lsp_definitions` follow a symbol semantically instead \
of by name. \
`run_command` runs a CLI tool or build command. There is no shell: arguments \
pass verbatim, so `$VAR` is never expanded; wrap the command in \
`bash -lc \"...\"` when it needs variables, pipes, or redirects. Filesystem \
writes are restricted to the repo and temp directories, and secrets are \
dropped from the environment, unless the session is in yolo mode: then \
there is no sandbox and the full environment, including secrets, is \
inherited. Use it for builds, tests, and linters. It can also reach \
the network: prefer `curl` (or a similar CLI) for fetching URLs and calling \
APIs before suggesting a browser-based tool. Do not shell out \
to `rg`, `grep`, `find`, or `fd`: `search_files` and `find_files` already \
run them directly, without the overhead. \
Tool rounds are the slow part of a turn: each one costs a full model \
round-trip, while the tools themselves are nearly instant. Work in as few \
rounds as the task allows:\n\
- Look things up with `explore`, not one call at a time. If you are about to \
send a single `read_file`, `search_files`, `find_files`, or `list_files`, \
first ask what else you will want once you see it, and send them together as \
`explore` steps. Two lookups in one `explore` are twice as fast as two \
rounds; ten are ten times.\n\
- Batch independent calls into one response: several reads, or a search and a \
find together, instead of one call per response.\n\
- Search before you read. `search_files` returns the matching lines with \
context, which usually answers the question without reading the file at all.\n\
- Never re-read what is already in this conversation. A file you read earlier \
is still above you; scroll back instead of calling the tool again.\n\
- When you do need more of a file, ask for the specific range you are missing \
rather than the whole file again.\n\
- Get everything one command can give you in a single call. `run_command` \
runs one binary directly, with no shell, so chain with \
`bash -lc \"git status --short; git log --oneline -5; git diff --stat\"` \
rather than spending a round on each. Bound noisy output with flags like \
`--stat`, `-n 20`, or a `| head` inside that `bash -lc` string.\n\
- Stop gathering as soon as you can act or answer: do not re-verify what you \
already read, and do not explore beyond what the task needs.\n\
When a user message contains `[@name]` tokens, each token's full path is \
listed beneath the message as `[@name]: /full/path`. Resolve the token from \
that list rather than guessing a path. \
Set `turbo: true` when the user asks to work offline or in turbo mode \
(blocks network access). Set `yolo: true` only when the user explicitly \
asks for yolo mode (no restrictions). \
Ground every claim about the code in what you actually read. Only edit files when the \
user asked for a change; keep edits minimal and in the file's existing style. \
After editing, state plainly which files you changed and what the change does. \
If `edit_file` is unavailable, say so and describe the change instead.";

/// Which language replies are written in.
pub open spec fn language_text(language: Option<Seq<char>>) -> Seq<char> {
    "## Language\n"@ + (match language {
        Some(lang) => "Reply in "@ + lang + ", whatever language the user writes in."@,
        None => "Reply in the language the user writes in."@,
    }) + " Keep the whole reply in that one language, \
         including any reasoning before it. Never drift into another language \
         mid-turn, even when the context is mostly code or tool output."@
}

/// Which language replies are written in.
pub fn language_note(language: Option<&str>) -> (r: String)
    ensures
        r@ == language_text(opt_str(language)),
{
    let target = match language {
        Some(lang) => cat3("Reply in ", lang, ", whatever language the user writes in."),
        None => "Reply in the language the user writes in.".to_owned(),
    };
    cat3(
        "## Language\n",
        target.as_str(),
        " Keep the whole reply in that one language, \
         including any reasoning before it. Never drift into another language \
         mid-turn, even when the context is mostly code or tool output.",
    )
}

/// A section behind a blank line, if there is one.
pub open spec fn section(s: Option<Seq<char>>) -> Seq<char> {
    match s {
        Some(t) => "\n\n"@ + t,
        None => Seq::empty(),
    }
}

fn add_section(prompt: &mut String, s: &Option<String>)
    ensures
        final(prompt)@ == old(prompt)@ + section(opt(*s)),
{
    match s {
        Some(t) => {
            prompt.push_str("\n\n");
            prompt.push_str(t.as_str());
            assert(prompt@ =~= old(prompt)@ + section(opt(*s)));
        },
        None => {
            assert(prompt@ =~= old(prompt)@ + section(opt(*s)));
        },
    }
}

/// The pieces of a system prompt.
pub struct PromptParts {
    /// The manual of the agent.
    pub manual: String,
    /// The program runs on a phone.
    pub android: bool,
    pub instructions: Option<String>,
    pub environment: Option<String>,
    pub language: Option<String>,
    pub skill_index: Option<String>,
    pub agent_index: Option<String>,
    pub mcp_prompt: Option<String>,
    pub mcp_disabled: Option<String>,
    pub memory: Option<String>,
}

/// What the system prompt opens with.
pub open spec fn base_prompt(manual: Seq<char>, android: bool) -> Seq<char> {
    if android {
        ANDROID_IDENTITY@ + manual
    } else {
        manual
    }
}

/// What the system prompt opens with.
pub fn base_system_prompt(manual: &str, android: bool) -> (r: String)
    ensures
        r@ == base_prompt(manual@, android),
{
    if android {
        cat2(ANDROID_IDENTITY, manual)
    } else {
        manual.to_owned()
    }
}

/// What the model is told about its tools, skills and agents.
pub open spec fn tools_section(p: PromptParts) -> Seq<char> {
    TOOLS_PROMPT@ + section(opt(p.skill_index)) + section(opt(p.agent_index)) + section(
        opt(p.mcp_prompt),
    ) + section(opt(p.mcp_disabled))
}

/// The system prompt: the manual, the standing rules of the repository, the
/// environment, the language, the tools where there are any, and memory.
pub open spec fn full_prompt(p: PromptParts, tools: bool) -> Seq<char> {
    base_prompt(p.manual@, p.android) + section(opt(p.instructions)) + section(
        opt(p.environment),
    ) + ("\n\n"@ + language_text(opt(p.language))) + (if tools {
        tools_section(p)
    } else {
        Seq::empty()
    }) + section(opt(p.memory))
}

/// The system prompt of a session.
pub fn system_prompt(p: &PromptParts, tools: bool) -> (r: String)
    ensures
        r@ == full_prompt(*p, tools),
{
    let mut prompt = base_system_prompt(p.manual.as_str(), p.android);
    add_section(&mut prompt, &p.instructions);
    add_section(&mut prompt, &p.environment);
    let language = match &p.language {
        Some(l) => Some(l.as_str()),
        None => None,
    };
    prompt.push_str(cat2("\n\n", language_note(language).as_str()).as_str());
    if tools {
        let mut more = TOOLS_PROMPT.to_owned();
        add_section(&mut more, &p.skill_index);
        add_section(&mut more, &p.agent_index);
        add_section(&mut more, &p.mcp_prompt);
        add_section(&mut more, &p.mcp_disabled);
        prompt.push_str(more.as_str());
    } else {
        assert(prompt@ + Seq::<char>::empty() =~= prompt@);
    }
    add_section(&mut prompt, &p.memory);
    prompt
}

/// The system prompt of a sub-agent: its own body, its skills, the environment
/// and the language.
pub fn sub_agent_prompt(
    body: &str,
    skill_index: &Option<String>,
    environment: &Option<String>,
    language: Option<&str>,
) -> (r: String)
    ensures
        r@ == body@ + section(opt(*skill_index)) + section(opt(*environment)) + ("\n\n"@
            + language_text(opt_str(language))),
{
    let mut prompt = body.to_owned();
    add_section(&mut prompt, skill_index);
    add_section(&mut prompt, environment);
    prompt.push_str(cat2("\n\n", language_note(language).as_str()).as_str());
    prompt
}

/// The most script names that are listed.
pub const MAX_SCRIPT_NAMES: usize = 12;

/// The keys of an object, in order.
pub open spec fn sorted_keys(v: Seq<(Seq<char>, JsonV)>) -> Seq<Seq<char>> {
    let s = sorted_by_key(Seq::new(v.len(), |i: int| (v[i].0, Seq::<char>::empty())));
    Seq::new(s.len(), |i: int| s[i].0)
}

/// The names of a manifest's scripts, as they are listed.
pub open spec fn script_names(manifest: JsonV) -> Option<Seq<Seq<char>>> {
    match manifest.get("scripts"@) {
        Some(JsonV::Obj(v)) => if v.len() == 0 {
            None
        } else {
            let names = sorted_keys(v);
            if v.len() > MAX_SCRIPT_NAMES {
                Some(
                    names.take(MAX_SCRIPT_NAMES as int).push(
                        "... "@ + dec((v.len() - MAX_SCRIPT_NAMES) as nat) + " more"@,
                    ),
                )
            } else {
                Some(names)
            }
        },
        _ => None,
    }
}

/// [`package_scripts`] over a manifest that was read.
pub fn scripts_in(manifest: &Json) -> (r: Option<Vec<String>>)
    ensures
        crate::tools::offer::opt_texts(r) == script_names(manifest@),
{
    let found = match manifest.get("scripts") {
        Some(f) => f,
        None => return None,
    };
    let list = match found.as_object() {
        Some(v) => v,
        None => return None,
    };
    let ghost all = members(list@);
    if list.len() == 0 {
        return None;
    }
    let mut keys: Vec<(String, String)> = Vec::new();
    let mut i: usize = 0;
    while i < list.len()
        invariant
            i <= list@.len(),
            all == members(list@),
            keys@.len() == i,
            forall|k: int|
                0 <= k < i ==> (#[trigger] keys@[k]).0@ == all[k].0 && keys@[k].1@ == Seq::<
                    char,
                >::empty(),
        decreases list.len() - i,
    {
        let none = String::new();
        assert(none@ =~= Seq::<char>::empty());
        keys.push((list[i].0.clone(), none));
        i += 1;
    }
    assert(pairs(keys@) =~= Seq::new(all.len(), |i: int| (all[i].0, Seq::<char>::empty())));
    let sorted = sort_by_key(&keys);
    let ghost s = pairs(sorted@);
    proof {
        crate::text::order::sorting_orders_and_keeps(pairs(keys@));
    }
    let stop: usize = if list.len() > MAX_SCRIPT_NAMES { MAX_SCRIPT_NAMES } else { list.len() };
    let mut out: Vec<String> = Vec::new();
    let mut j: usize = 0;
    while j < stop
        invariant
            j <= stop <= sorted@.len(),
            out@.len() == j,
            s == pairs(sorted@),
            forall|k: int| 0 <= k < j ==> #[trigger] out@[k]@ == s[k].0,
        decreases stop - j,
    {
        assert(s[j as int] == (sorted@[j as int].0@, sorted@[j as int].1@));
        out.push(sorted[j].0.clone());
        j += 1;
    }
    let ghost names = sorted_keys(all);
    assert(texts(out@) =~= names.take(stop as int));
    if list.len() > MAX_SCRIPT_NAMES {
        let ghost had = texts(out@);
        let more = cat3("... ", decimal_usize(list.len() - MAX_SCRIPT_NAMES).as_str(), " more");
        out.push(more);
        assert(texts(out@) =~= had.push(more@));
    } else {
        assert(names.take(stop as int) =~= names);
    }
    Some(out)
}

/// The names of the scripts in a `package.json`, as they are listed.
pub fn package_scripts(raw: &str) -> (r: Option<Vec<String>>)
    ensures
        crate::tools::offer::opt_texts(r) == match json_text(raw@) {
            Ok(v) => script_names(v),
            Err(_) => None,
        },
{
    match read_json(raw) {
        Ok(v) => scripts_in(&v),
        Err(_) => None,
    }
}

/// The task runners of a repository.
pub struct TaskRunners {
    /// The name of the just file.
    pub just: Option<String>,
    pub make: bool,
    pub task: bool,
    pub scripts: Option<Vec<String>>,
}

/// What is said about the task runners.
pub open spec fn runner_text(t: TaskRunners) -> Seq<char> {
    (match opt(t.just) {
        Some(file) => "- "@ + file
            + " present: run recipes with `just <name>`; `just --list` shows them.\n"@,
        None => Seq::empty(),
    }) + (if t.make {
        "- Makefile present: run targets with `make <name>`.\n"@
    } else {
        Seq::empty()
    }) + (if t.task {
        "- Taskfile.yml present: run tasks with `task <name>`; `task --list` shows them.\n"@
    } else {
        Seq::empty()
    }) + (match crate::tools::offer::opt_texts(t.scripts) {
        Some(names) => "- package.json scripts: "@ + joined(names, ", "@)
            + ". Prefer these over hand-rolled equivalents.\n"@,
        None => Seq::empty(),
    })
}

/// What is said about the task runners, if there are any.
pub fn task_runner_note(t: &TaskRunners) -> (r: Option<String>)
    ensures
        opt(r) == if runner_text(*t).len() > 0 {
            Some(runner_text(*t))
        } else {
            None
        },
{
    let just = match &t.just {
        Some(file) => cat3(
            "- ",
            file.as_str(),
            " present: run recipes with `just <name>`; `just --list` shows them.\n",
        ),
        None => String::new(),
    };
    assert(opt(t.just) is None ==> just@ =~= Seq::empty());
    let make = if t.make {
        "- Makefile present: run targets with `make <name>`.\n".to_owned()
    } else {
        String::new()
    };
    assert(!t.make ==> make@ =~= Seq::empty());
    let task = if t.task {
        "- Taskfile.yml present: run tasks with `task <name>`; `task --list` shows them.\n".to_owned()
    } else {
        String::new()
    };
    assert(!t.task ==> task@ =~= Seq::empty());
    let scripts = match &t.scripts {
        Some(names) => cat3(
            "- package.json scripts: ",
            join(names, ", ").as_str(),
            ". Prefer these over hand-rolled equivalents.\n",
        ),
        None => String::new(),
    };
    assert(t.scripts is None ==> scripts@ =~= Seq::empty());
    let note = cat4(just.as_str(), make.as_str(), task.as_str(), scripts.as_str());
    if note.as_str().is_empty() {
        None
    } else {
        Some(note)
    }
}

/// The most changed files that are listed.
pub const GIT_STATUS_LINES: usize = 15;

/// What git says of a repository.
pub struct GitState {
    pub branch: String,
    /// The remote's head, as a path.
    pub head: Option<String>,
    pub status: Option<String>,
    pub log: Option<String>,
}

/// What follows the last slash.
pub open spec fn last_segment(s: Seq<char>) -> Seq<char>
    decreases s.len(),
{
    if s.len() == 0 || s.last() == '/' {
        Seq::empty()
    } else {
        last_segment(s.drop_last()).push(s.last())
    }
}

fn after_last_slash(s: &str) -> (r: String)
    ensures
        r@ == last_segment(s@),
{
    let v = chars(s);
    let mut n: usize = v.len();
    while n > 0 && v[n - 1] != '/'
        invariant
            n <= v@.len(),
            forall|k: int| n <= k < v@.len() ==> #[trigger] v@[k] != '/',
        decreases n,
    {
        n -= 1;
    }
    proof {
        lemma_last_segment(v@, n as int);
        assert(v@.subrange(n as int, v@.len() as int) =~= v@.skip(n as int));
    }
    collect(&v, n, v.len())
}

proof fn lemma_last_segment(s: Seq<char>, n: int)
    requires
        0 <= n <= s.len(),
        forall|k: int| n <= k < s.len() ==> #[trigger] s[k] != '/',
        n == 0 || s[n - 1] == '/',
    ensures
        last_segment(s) == s.skip(n),
    decreases s.len() - n,
{
    if n < s.len() {
        assert(s[s.len() - 1] != '/');
        let t = s.drop_last();
        assert forall|k: int| n <= k < t.len() implies #[trigger] t[k] != '/' by {
            assert(t[k] == s[k]);
        }
        lemma_last_segment(t, n);
        assert(t.skip(n).push(s.last()) =~= s.skip(n));
    } else {
        assert(s.skip(n) =~= Seq::empty());
    }
}

/// Each line indented, one after the other.
pub open spec fn indented_lines(v: Seq<Seq<char>>) -> Seq<char>
    decreases v.len(),
{
    if v.len() == 0 {
        Seq::empty()
    } else {
        indented_lines(v.drop_last()) + ("  "@ + v.last() + "\n"@)
    }
}

fn indent_lines(v: &Vec<String>, stop: usize) -> (r: String)
    requires
        stop <= v@.len(),
    ensures
        r@ == indented_lines(texts(v@).take(stop as int)),
{
    let ghost all = texts(v@);
    let mut out = String::new();
    let mut i: usize = 0;
    assert(out@ =~= indented_lines(all.take(0)));
    while i < stop
        invariant
            i <= stop <= v@.len(),
            all == texts(v@),
            out@ == indented_lines(all.take(i as int)),
        decreases stop - i,
    {
        proof {
            assert(all.take(i + 1).drop_last() =~= all.take(i as int));
            assert(all.take(i + 1).last() == v@[i as int]@);
        }
        out.push_str(cat3("  ", v[i].as_str(), "\n").as_str());
        i += 1;
    }
    out
}

/// What is said about the changed files.
pub open spec fn status_text(status: Option<Seq<char>>) -> Seq<char> {
    match status {
        None => Seq::empty(),
        Some(s) => if s.len() == 0 {
            "- Working tree clean at session start\n"@
        } else {
            let v = lines_of(s);
            "- Changed files at session start ("@ + dec(v.len()) + "):\n"@ + (if v.len()
                > GIT_STATUS_LINES {
                indented_lines(v.take(GIT_STATUS_LINES as int)) + ("  ... and "@ + dec(
                    (v.len() - GIT_STATUS_LINES) as nat,
                ) + " more\n"@)
            } else {
                indented_lines(v)
            })
        },
    }
}

fn status_note(status: &Option<String>) -> (r: String)
    ensures
        r@ == status_text(opt(*status)),
{
    match status {
        None => {
            let r = String::new();
            assert(r@ =~= Seq::empty());
            r
        },
        Some(s) => {
            if s.as_str().is_empty() {
                return "- Working tree clean at session start\n".to_owned();
            }
            let v = lines(s.as_str());
            let ghost all = texts(v@);
            let body = if v.len() > GIT_STATUS_LINES {
                let shown = indent_lines(&v, GIT_STATUS_LINES);
                let more = cat3(
                    "  ... and ",
                    decimal_usize(v.len() - GIT_STATUS_LINES).as_str(),
                    " more\n",
                );
                cat2(shown.as_str(), more.as_str())
            } else {
                assert(all.take(all.len() as int) =~= all);
                indent_lines(&v, v.len())
            };
            cat4(
                "- Changed files at session start (",
                decimal_usize(v.len()).as_str(),
                "):\n",
                body.as_str(),
            )
        },
    }
}

/// What is said about a repository's git state.
pub open spec fn git_text(g: GitState) -> Seq<char> {
    "- Git branch: "@ + g.branch@ + (match opt(g.head) {
        Some(h) => " (default branch: "@ + last_segment(h) + ")"@,
        None => Seq::empty(),
    }) + "\n"@ + status_text(opt(g.status)) + (match opt(g.log) {
        Some(log) => if log.len() > 0 {
            "- Recent commits:\n"@ + indented_lines(lines_of(log))
        } else {
            Seq::empty()
        },
        None => Seq::empty(),
    })
}

/// What is said about a repository's git state.
pub fn git_snapshot(g: &GitState) -> (r: String)
    ensures
        r@ == git_text(*g),
{
    let default = match &g.head {
        Some(h) => cat3(" (default branch: ", after_last_slash(h.as_str()).as_str(), ")"),
        None => String::new(),
    };
    assert(opt(g.head) is None ==> default@ =~= Seq::empty());
    let log = match &g.log {
        Some(log) => if log.as_str().is_empty() {
            String::new()
        } else {
            let v = lines(log.as_str());
            assert(texts(v@).take(v@.len() as int) =~= texts(v@));
            cat2("- Recent commits:\n", indent_lines(&v, v.len()).as_str())
        },
        None => String::new(),
    };
    assert(opt(g.log) is None || opt(g.log).unwrap().len() == 0 ==> log@ =~= Seq::empty());
    let head = cat4("- Git branch: ", g.branch.as_str(), default.as_str(), "\n");
    cat3(head.as_str(), status_note(&g.status).as_str(), log.as_str())
}

/// The package manager that a lockfile pins.
pub open spec fn manager_of(name: Seq<char>) -> Option<Seq<char>> {
    if name == "bun.lock"@ || name == "bun.lockb"@ {
        Some("bun"@)
    } else if name == "pnpm-lock.yaml"@ {
        Some("pnpm"@)
    } else if name == "yarn.lock"@ {
        Some("yarn"@)
    } else if name == "package-lock.json"@ {
        Some("npm"@)
    } else {
        None
    }
}

/// The package manager that a lockfile pins.
pub fn lock_manager(name: &str) -> (r: Option<&'static str>)
    ensures
        opt_str(r) == manager_of(name@),
{
    if same(name, "bun.lock") || same(name, "bun.lockb") {
        Some("bun")
    } else if same(name, "pnpm-lock.yaml") {
        Some("pnpm")
    } else if same(name, "yarn.lock") {
        Some("yarn")
    } else if same(name, "package-lock.json") {
        Some("npm")
    } else {
        None
    }
}

/// The directory of a lockfile as it is shown.
pub open spec fn shown_dir(dir: Seq<char>) -> Seq<char> {
    if dir.len() == 0 {
        "."@
    } else {
        dir
    }
}

/// The directories whose lockfile pins `manager`, each once, in the order they
/// were found. Each file is given by its name and directory.
pub open spec fn dirs_of(files: Seq<(Seq<char>, Seq<char>)>, manager: Seq<char>) -> Seq<Seq<char>>
    decreases files.len(),
{
    if files.len() == 0 {
        Seq::empty()
    } else {
        let head = dirs_of(files.drop_last(), manager);
        let dir = shown_dir(files.last().1);
        if manager_of(files.last().0) == Some(manager) && !head.contains(dir) {
            head.push(dir)
        } else {
            head
        }
    }
}

fn find_dirs(files: &Vec<(String, String)>, manager: &str) -> (r: Vec<String>)
    ensures
        texts(r@) == dirs_of(pairs(files@), manager@),
{
    let ghost all = pairs(files@);
    let mut out: Vec<String> = Vec::new();
    let mut i: usize = 0;
    assert(texts(out@) =~= dirs_of(all.take(0), manager@));
    while i < files.len()
        invariant
            i <= files@.len(),
            all == pairs(files@),
            texts(out@) == dirs_of(all.take(i as int), manager@),
        decreases files.len() - i,
    {
        proof {
            assert(all.take(i + 1).drop_last() =~= all.take(i as int));
            assert(all.take(i + 1).last() == all[i as int]);
        }
        let ghost had = texts(out@);
        let pinned = match lock_manager(files[i].0.as_str()) {
            Some(m) => same(m, manager),
            None => false,
        };
        let dir = if files[i].1.as_str().is_empty() {
            ".".to_owned()
        } else {
            files[i].1.clone()
        };
        if pinned && !contains_text(&out, dir.as_str()) {
            out.push(dir);
            assert(texts(out@) =~= had.push(dir@));
        }
        i += 1;
    }
    assert(all.take(all.len() as int) =~= all);
    out
}

/// What is said about the directories of one package manager.
pub open spec fn manager_line(dirs: Seq<Seq<char>>, manager: Seq<char>) -> Seq<char> {
    if dirs.len() == 0 {
        Seq::empty()
    } else {
        "- JavaScript packages in "@ + joined(dirs, ", "@) + " use `"@ + manager
            + "`; run scripts and one-off tools with it, not npm/npx.\n"@
    }
}

fn manager_note(files: &Vec<(String, String)>, manager: &str) -> (r: String)
    ensures
        r@ == manager_line(dirs_of(pairs(files@), manager@), manager@),
{
    let dirs = find_dirs(files, manager);
    assert(texts(dirs@).len() == dirs@.len());
    if dirs.len() == 0 {
        let r = String::new();
        assert(r@ =~= Seq::empty());
        return r;
    }
    cat5(
        "- JavaScript packages in ",
        join(&dirs, ", ").as_str(),
        " use `",
        manager,
        "`; run scripts and one-off tools with it, not npm/npx.\n",
    )
}

/// What is said about the package managers, in the order of their names.
pub open spec fn managers_text(files: Seq<(Seq<char>, Seq<char>)>) -> Seq<char> {
    manager_line(dirs_of(files, "bun"@), "bun"@) + manager_line(dirs_of(files, "npm"@), "npm"@)
        + manager_line(dirs_of(files, "pnpm"@), "pnpm"@) + manager_line(
        dirs_of(files, "yarn"@),
        "yarn"@,
    )
}

/// What is said about the package managers, given the name and directory of
/// every file near the root; none when no lockfile is among them.
pub fn package_manager_note(files: &Vec<(String, String)>) -> (r: Option<String>)
    ensures
        opt(r) == if managers_text(pairs(files@)).len() == 0 {
            None
        } else {
            Some(
                managers_text(pairs(files@))
                    + "- Run package commands from the directory that owns the lockfile."@,
            )
        },
{
    let bun = manager_note(files, "bun");
    let npm = manager_note(files, "npm");
    let pnpm = manager_note(files, "pnpm");
    let yarn = manager_note(files, "yarn");
    let note = cat4(bun.as_str(), npm.as_str(), pnpm.as_str(), yarn.as_str());
    if note.as_str().is_empty() {
        return None;
    }
    Some(cat2(note.as_str(), "- Run package commands from the directory that owns the lockfile."))
}

/// What is known of a phone.
pub struct Device {
    pub model: Option<String>,
    pub release: Option<String>,
    pub sdk: Option<String>,
    /// The tool that reads the screen is on the path.
    pub asterctl: bool,
}

/// Said where the tool that reads the screen is there.
pub const ASTERCTL_NOTE: &'static str =
    "- `asterctl` reads the screen and taps it: `map`, `find`, `tap`, `scroll`, `type`, `key`, `volume`, `media`, `restart`, `ocr`, `notes`. Its full reference is the android-use skill in this prompt; `asterctl help` lists the verbs\n";

/// Said where it is not.
pub const NO_ASTERCTL_NOTE: &'static str =
    "- No `asterctl` on PATH, so the screen cannot be seen or touched from here\n";

/// Said about python on a phone.
pub const PHONE_PYTHON_NOTE: &'static str =
    "- `aster python script.py` or `aster python -c \"...\"` runs Python 3 with the standard library built in; there is no other python, no bash (the shell is `sh`), and no `/tmp` (use `$TMPDIR`)\n";

/// What is said about the phone the program runs on.
pub open spec fn device_text(d: Device) -> Seq<char> {
    "## Device\n- Running on the Android device itself, not on a machine attached to one\n"@ + (
    match opt(d.model) {
        Some(m) => "- Model: "@ + m + "\n"@,
        None => Seq::empty(),
    }) + (match (opt(d.release), opt(d.sdk)) {
        (Some(release), Some(sdk)) => "- Android "@ + release + " (API "@ + sdk + ")\n"@,
        _ => Seq::empty(),
    }) + (if d.asterctl {
        ASTERCTL_NOTE@
    } else {
        NO_ASTERCTL_NOTE@
    }) + PHONE_PYTHON_NOTE@
}

/// What is said about the phone the program runs on.
pub fn android_note(d: &Device) -> (r: String)
    ensures
        r@ == device_text(*d),
{
    let model = match &d.model {
        Some(m) => cat3("- Model: ", m.as_str(), "\n"),
        None => String::new(),
    };
    assert(opt(d.model) is None ==> model@ =~= Seq::empty());
    let version = match (&d.release, &d.sdk) {
        (Some(release), Some(sdk)) => cat5(
            "- Android ",
            release.as_str(),
            " (API ",
            sdk.as_str(),
            ")\n",
        ),
        _ => String::new(),
    };
    assert(opt(d.release) is None || opt(d.sdk) is None ==> version@ =~= Seq::empty());
    let screen = if d.asterctl { ASTERCTL_NOTE } else { NO_ASTERCTL_NOTE };
    cat5(
        "## Device\n- Running on the Android device itself, not on a machine attached to one\n",
        model.as_str(),
        version.as_str(),
        screen,
        PHONE_PYTHON_NOTE,
    )
}

/// The pieces of the environment note.
pub struct Surroundings {
    pub project: Option<String>,
    pub os: String,
    pub arch: String,
    pub date: String,
    pub device: Option<String>,
    pub git: Option<String>,
    pub packages: Option<String>,
    pub runners: Option<String>,
}

/// A text that may not be there.
pub open spec fn or_nothing(s: Option<Seq<char>>) -> Seq<char> {
    match s {
        Some(t) => t,
        None => Seq::empty(),
    }
}

fn text_or_nothing(s: &Option<String>) -> (r: String)
    ensures
        r@ == or_nothing(opt(*s)),
{
    match s {
        Some(t) => t.clone(),
        None => {
            let r = String::new();
            assert(r@ =~= Seq::empty());
            r
        },
    }
}

/// What is said about where a session runs.
pub open spec fn environment_text(s: Surroundings) -> Seq<char> {
    (match opt(s.project) {
        Some(p) => p + "\n"@,
        None => Seq::empty(),
    }) + ("## Environment\n- Platform: "@ + s.os@ + " ("@ + s.arch@ + ")\n- Today's date: "@) + (
    s.date@ + "\n"@) + or_nothing(opt(s.device)) + or_nothing(opt(s.git)) + or_nothing(
        opt(s.packages),
    ) + or_nothing(opt(s.runners))
}

/// What is said about where a session runs.
pub fn environment_note(s: &Surroundings) -> (r: String)
    ensures
        r@ == environment_text(*s),
{
    let project = match &s.project {
        Some(p) => cat2(p.as_str(), "\n"),
        None => String::new(),
    };
    assert(opt(s.project) is None ==> project@ =~= Seq::empty());
    let platform = cat5(
        "## Environment\n- Platform: ",
        s.os.as_str(),
        " (",
        s.arch.as_str(),
        ")\n- Today's date: ",
    );
    let date = cat2(s.date.as_str(), "\n");
    let head = cat3(project.as_str(), platform.as_str(), date.as_str());
    cat5(
        head.as_str(),
        text_or_nothing(&s.device).as_str(),
        text_or_nothing(&s.git).as_str(),
        text_or_nothing(&s.packages).as_str(),
        text_or_nothing(&s.runners).as_str(),
    )
}

} // verus!
