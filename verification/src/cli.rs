//! What the command line decides before a command runs.

use vstd::prelude::*;

use crate::chat::args::EffortArgs;
use crate::client::config::Effort;
use crate::json::{Fields, Json, JsonV};

verus! {

/// How results are printed.
#[derive(Clone, Copy, PartialEq, Eq, Structural, Debug)]
pub enum OutputFormat {
    Text,
    Json,
}

/// Whether results are printed as JSON: by the flag, or by the format.
pub fn json_mode(json: bool, format: Option<OutputFormat>) -> (r: bool)
    ensures
        r == (json || format == Some(OutputFormat::Json)),
{
    json || match format {
        Some(f) => f == OutputFormat::Json,
        None => false,
    }
}

/// A command, as far as the effort, the log and the screen depend on it.
pub enum Command {
    /// A chat; whether it runs in a terminal.
    Chat { effort: EffortArgs, interactive: bool },
    /// A review; whether it takes the screen, and whether it streams.
    Review { effort: EffortArgs, tui: bool, stream: bool },
    Fix { effort: EffortArgs },
    /// The list of sessions; whether it runs in a terminal.
    Sessions { interactive: bool },
    Acp,
    Learn,
    Other,
}

/// The effort that the flags of a command ask for. Only the commands that reach
/// a model have the flag.
pub fn effort_flag(command: &Command) -> (r: Option<Effort>)
    ensures
        r == (match *command {
            Command::Chat { effort, .. } => effort.effort,
            Command::Review { effort, .. } => effort.effort,
            Command::Fix { effort } => effort.effort,
            _ => None,
        }),
{
    match command {
        Command::Chat { effort, .. } => effort.effort,
        Command::Review { effort, .. } => effort.effort,
        Command::Fix { effort } => effort.effort,
        _ => None,
    }
}

/// Where log lines go.
#[derive(Clone, Copy, PartialEq, Eq, Structural, Debug)]
pub enum LogTo {
    File,
    Stderr,
    Stdout,
}

/// True when a command takes the whole screen.
pub open spec fn takes_screen(command: Command) -> bool {
    match command {
        Command::Chat { interactive, .. } => interactive,
        Command::Sessions { interactive } => interactive,
        Command::Review { tui, .. } => tui,
        _ => false,
    }
}

/// True when a command's standard output is a stream that others read.
pub open spec fn streams(command: Command) -> bool {
    match command {
        Command::Chat { interactive, .. } => !interactive,
        Command::Review { stream, .. } => stream,
        Command::Fix { .. } => true,
        Command::Acp => true,
        Command::Learn => true,
        _ => false,
    }
}

/// Where log lines go: a full screen cannot share the terminal with them, and a
/// stream not its output. `file` says whether the log file could be made.
pub fn init_tracing(command: &Command, file: bool) -> (r: LogTo)
    ensures
        r == (if takes_screen(*command) && file {
            LogTo::File
        } else if streams(*command) {
            LogTo::Stderr
        } else {
            LogTo::Stdout
        }),
{
    let tui_mode = match command {
        Command::Chat { interactive, .. } => *interactive,
        Command::Sessions { interactive } => *interactive,
        Command::Review { tui, .. } => *tui,
        _ => false,
    };
    let stream_mode = match command {
        Command::Chat { interactive, .. } => !*interactive,
        Command::Review { stream, .. } => *stream,
        Command::Fix { .. } => true,
        Command::Acp => true,
        Command::Learn => true,
        _ => false,
    };
    if tui_mode && file {
        LogTo::File
    } else if stream_mode {
        LogTo::Stderr
    } else {
        LogTo::Stdout
    }
}

/// A failure as JSON, so that callers parse one shape either way.
pub fn failure(error: &str) -> (r: Json)
    ensures
        r@ == JsonV::Obj(
            Seq::empty().push(("ok"@, JsonV::Bool(false))).push(("error"@, JsonV::Str(error@))),
        ),
{
    Fields::new().with("ok", Json::Bool(false)).text("error", error).json()
}

/// The home directory: the first of the two variables that is set.
pub fn home_dir(home: &Option<String>, profile: &Option<String>) -> (r: Result<
    String,
    &'static str,
>)
    ensures
        match (crate::text::opt(*home), crate::text::opt(*profile)) {
            (Some(h), _) => r is Ok && r->Ok_0@ == h,
            (None, Some(p)) => r is Ok && r->Ok_0@ == p,
            (None, None) => r is Err && r->Err_0@ == "resolving the home directory"@,
        },
{
    match (home, profile) {
        (Some(h), _) => Ok(h.clone()),
        (None, Some(p)) => Ok(p.clone()),
        (None, None) => Err("resolving the home directory"),
    }
}

/// The directories that skills are looked for in: the repository's, then the
/// user's, where there is one.
pub fn skills_roots(repo: &str, home: &Option<String>) -> (r: Vec<String>)
    ensures
        r@.len() == (if home is Some {
            2int
        } else {
            1
        }),
        r@[0]@ == crate::text::path::joined_path(
            crate::text::path::joined_path(repo@, ".aster"@),
            "skills"@,
        ),
        crate::text::opt(*home) is Some ==> r@[1]@ == crate::text::path::joined_path(
            crate::text::opt(*home)->Some_0,
            "skills"@,
        ),
{
    let mut out: Vec<String> = Vec::new();
    let aster = crate::text::path::path_join(repo, ".aster");
    out.push(crate::text::path::path_join(aster.as_str(), "skills"));
    match home {
        Some(h) => out.push(crate::text::path::path_join(h.as_str(), "skills")),
        None => {},
    }
    out
}

/// The newest of some times of change; zero where there is none.
pub open spec fn newest(times: Seq<u64>) -> u64
    decreases times.len(),
{
    if times.len() == 0 {
        0
    } else if times.last() > newest(times.drop_last()) {
        times.last()
    } else {
        newest(times.drop_last())
    }
}

/// The newest change of the skills, so that a long session can tell when to read
/// them again.
pub fn skills_stamp(times: &Vec<u64>) -> (r: u64)
    ensures
        r == newest(times@),
{
    let mut stamp: u64 = 0;
    let mut i: usize = 0;
    while i < times.len()
        invariant
            i <= times@.len(),
            stamp == newest(times@.take(i as int)),
        decreases times.len() - i,
    {
        proof {
            assert(times@.take(i + 1).drop_last() =~= times@.take(i as int));
            assert(times@.take(i + 1).last() == times@[i as int]);
        }
        if times[i] > stamp {
            stamp = times[i];
        }
        i += 1;
    }
    assert(times@.take(times@.len() as int) =~= times@);
    stamp
}

/// The newest time is one of them, and none is newer.
pub proof fn the_newest_is_the_newest(times: Seq<u64>)
    ensures
        forall|i: int| 0 <= i < times.len() ==> #[trigger] times[i] <= newest(times),
        times.len() > 0 ==> times.contains(newest(times)) || newest(times) == 0,
        times.len() == 0 ==> newest(times) == 0,
    decreases times.len(),
{
    if times.len() > 0 {
        let head = times.drop_last();
        the_newest_is_the_newest(head);
        assert forall|i: int| 0 <= i < times.len() implies #[trigger] times[i] <= newest(times) by {
            if i < times.len() - 1 {
                assert(head[i] == times[i]);
            }
        }
        if newest(times) == times.last() {
            assert(times[times.len() - 1] == newest(times));
        } else if head.len() > 0 && head.contains(newest(head)) {
            let i = choose|i: int| 0 <= i < head.len() && head[i] == newest(head);
            assert(times[i] == newest(times));
        }
    }
}

/// A command that takes the screen never streams, so nothing it logs lands on
/// it.
pub proof fn the_screen_is_kept_clean(command: Command)
    ensures
        command matches Command::Chat { effort, interactive } ==> (takes_screen(command)
            <==> interactive) && (streams(command) <==> !interactive),
        command is Acp || command is Learn || command is Fix ==> streams(command) && !takes_screen(
            command,
        ),
{
}

} // verus!
