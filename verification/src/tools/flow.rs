//! The steps that a tool takes between what it finds outside: a look, an edit, a
//! command.

use vstd::prelude::*;

use crate::json::{Fields, Json, JsonV};
use crate::text::affix::{holds, lemma_holds_between};
use crate::text::case::lowercase;
use crate::text::pieces::lines_of;
use crate::text::{opt, opt_str, owned, texts};
use crate::tools::approval::{
    asks, authorize_edit, authorize_exec, authorize_outside_read, edit_gate, exists_already, goes,
    hinted, refuses, rerun_preview, Answer, Decision, Gate, Place,
};
use crate::tools::command::{
    blames_sandbox, combined, command_text, is_bare, missing_binary, missing_binary_text,
    render_command, sandbox_denial, CommandOutput, RunOpts,
};
use crate::tools::files::{
    missing_path, missing_path_text, read_key, read_numbered, resolve_in_repo, stamp_of,
    unchanged_note, window_text, Reach, ReadGate, Reads,
};

verus! {

/// What a look looks at.
#[derive(Clone, Copy, PartialEq, Eq, Structural, Debug)]
pub enum Look {
    /// One file; whether its name is that of an image.
    File { image: bool },
    /// A directory that is listed.
    List,
    /// A directory that is searched, by content or by name.
    Search,
}

/// What is known of the path that a look names.
pub struct Sight {
    pub there: bool,
    pub reach: Reach,
    /// A read outside the repository is granted already.
    pub granted: bool,
}

/// What a look comes to.
pub enum LookStep {
    /// Answer with a text.
    Say(String),
    /// Fail with a reason.
    Fail(String),
    /// Ask first; on a no, fail with the reason.
    Ask { preview: String, refusal: String },
    /// Look at what was named.
    Open,
    /// Show the image that was named.
    Image,
    /// Look at the root: nothing was named.
    Root,
    /// Look at the root, and say that this directory is not there.
    Widen(String),
    /// It cannot be done beside others.
    Alone,
}

/// True when a look is what opening an allowed target comes to.
pub open spec fn opened(s: LookStep, look: Look) -> bool {
    match look {
        Look::File { image: true } => s is Image,
        _ => s is Open,
    }
}

/// True when a look on its own is what the reach of its target comes to: the
/// policy inside the repository, the grants outside it.
pub open spec fn reached(s: LookStep, look: Look, sight: Sight, shown: Seq<char>, yolo: bool) -> bool {
    match sight.reach {
        Reach::Unresolved(e) => s matches LookStep::Fail(r) && r@ == e@,
        Reach::InRepo(Some(reason)) => s matches LookStep::Fail(r) && r@ == reason@,
        Reach::InRepo(None) => opened(s, look),
        Reach::Outside => if yolo || sight.granted {
            opened(s, look)
        } else {
            s matches LookStep::Ask { preview, refusal } && asks(
                Gate::Ask { preview, refusal },
                "read outside the repository:\n  "@ + shown,
                shown + " is outside the repository and needs the user's approval; \
                     it was rejected or this run has no way to ask"@,
            )
        },
    }
}

/// True when a look beside others is what the reach of its target comes to:
/// nothing is asked, and what would need asking is left to be done alone.
pub open spec fn reached_beside(s: LookStep, look: Look, sight: Sight, yolo: bool) -> bool {
    match sight.reach {
        Reach::Unresolved(e) => s matches LookStep::Fail(r) && r@ == e@,
        Reach::InRepo(Some(reason)) => s matches LookStep::Fail(r) && r@ == reason@,
        Reach::InRepo(None) => opened(s, look),
        Reach::Outside => if yolo {
            opened(s, look)
        } else {
            s is Alone
        },
    }
}

/// True when a step is what a look comes to. `named` is the path it names, for
/// a directory none where it names none.
pub open spec fn look_comes_to(
    s: LookStep,
    look: Look,
    named: Option<Seq<char>>,
    sight: Sight,
    nearby: Seq<Seq<char>>,
    shown: Seq<char>,
    yolo: bool,
    beside: bool,
) -> bool {
    match named {
        None => s is Root,
        Some(path) => if !sight.there {
            if look == Look::Search {
                s matches LookStep::Widen(d) && d@ == path
            } else {
                s matches LookStep::Say(t) && t@ == missing_path_text(path, nearby)
            }
        } else if beside {
            if look == (Look::File { image: true }) {
                s is Alone
            } else {
                reached_beside(s, look, sight, yolo)
            }
        } else {
            reached(s, look, sight, shown, yolo)
        },
    }
}

fn open(look: Look) -> (r: LookStep)
    ensures
        opened(r, look),
{
    match look {
        Look::File { image } => if image {
            LookStep::Image
        } else {
            LookStep::Open
        },
        _ => LookStep::Open,
    }
}

/// What a look comes to. `nearby` are the paths like the one it names, `shown`
/// is that path as it is shown; `beside` says that it runs beside others, where
/// nothing can be asked.
pub fn look_step(
    look: Look,
    named: Option<&str>,
    sight: &Sight,
    nearby: &Vec<String>,
    shown: &str,
    yolo: bool,
    beside: bool,
) -> (r: LookStep)
    ensures
        look_comes_to(
            r,
            look,
            opt_str(named),
            *sight,
            texts(nearby@),
            shown@,
            yolo,
            beside,
        ),
{
    let path = match named {
        Some(p) => p,
        None => return LookStep::Root,
    };
    if !sight.there {
        return match look {
            Look::Search => LookStep::Widen(path.to_owned()),
            _ => LookStep::Say(missing_path(path, nearby)),
        };
    }
    if beside {
        match look {
            Look::File { image } => if image {
                return LookStep::Alone;
            },
            _ => {},
        }
    }
    match resolve_in_repo(&sight.reach, yolo) {
        ReadGate::Go => open(look),
        ReadGate::Refuse(reason) => LookStep::Fail(reason),
        ReadGate::Grants => {
            if beside {
                return LookStep::Alone;
            }
            match authorize_outside_read(sight.granted, shown) {
                Gate::Go => open(look),
                Gate::Refuse(reason) => LookStep::Fail(reason),
                Gate::Ask { preview, refusal } => LookStep::Ask { preview, refusal },
            }
        },
    }
}

/// Lookups that run beside others never ask anyone anything.
pub proof fn batches_never_ask(
    s: LookStep,
    look: Look,
    named: Option<Seq<char>>,
    sight: Sight,
    nearby: Seq<Seq<char>>,
    shown: Seq<char>,
    yolo: bool,
)
    requires
        look_comes_to(s, look, named, sight, nearby, shown, yolo, true),
    ensures
        !(s is Ask),
{
}

/// Nothing outside the repository is opened without a grant, unless all is
/// allowed anyway.
pub proof fn outside_needs_a_grant(
    s: LookStep,
    look: Look,
    named: Option<Seq<char>>,
    sight: Sight,
    nearby: Seq<Seq<char>>,
    shown: Seq<char>,
    beside: bool,
)
    requires
        look_comes_to(s, look, named, sight, nearby, shown, false, beside),
        sight.reach is Outside,
        !sight.granted,
    ensures
        !(s is Open) && !(s is Image),
{
}

/// What an answer comes to: fail with the reason, go ahead for this session, or
/// go ahead and keep the grant.
pub fn answered(answer: Answer, refusal: &str) -> (r: Result<bool, String>)
    ensures
        match answer {
            Answer::No => r is Err && r->Err_0@ == refusal@,
            Answer::Yes => r == Ok::<bool, String>(false),
            Answer::Always => r == Ok::<bool, String>(true),
        },
{
    match answer {
        Answer::No => Err(refusal.to_owned()),
        Answer::Yes => Ok(false),
        Answer::Always => Ok(true),
    }
}

/// What a read comes to, and the reads of the turn after it: a read that was
/// made before, of a file that has not changed since, is pointed back to.
pub open spec fn read_again(
    reads: Seq<(Seq<char>, Option<u128>)>,
    path: Seq<char>,
    start: Option<usize>,
    end: Option<usize>,
    modified: Option<u128>,
    content: Result<Seq<char>, Seq<char>>,
) -> (Seq<(Seq<char>, Option<u128>)>, Result<Seq<char>, Seq<char>>) {
    let key = read_key(path, start, end);
    if modified is Some && stamp_of(reads, key) == Some(modified) {
        (
            reads,
            Ok(
                "[unchanged since you read it earlier in this turn — scroll up for "@ + path
                    + "]"@,
            ),
        )
    } else {
        match content {
            Err(e) => (reads, Err(e)),
            Ok(text) => match window_text(lines_of(text), start, end) {
                Ok(body) => (reads.push((key, modified)), Ok(body)),
                Err(e) => (reads, Err(e)),
            },
        }
    }
}

/// A read that showed something is pointed back to as long as the file keeps its
/// time stamp; once that changes, or is not known, the file is shown as it now
/// is. A read that showed nothing is not remembered.
pub proof fn changed_files_are_shown_again(
    reads: Seq<(Seq<char>, Option<u128>)>,
    path: Seq<char>,
    start: Option<usize>,
    end: Option<usize>,
    stamp: u128,
    text: Seq<char>,
    now: Option<u128>,
    later: Seq<char>,
)
    requires
        stamp_of(reads, read_key(path, start, end)) != Some(Some(stamp)),
        window_text(lines_of(text), start, end) is Ok,
    ensures
        ({
            let first = read_again(reads, path, start, end, Some(stamp), Ok(text));
            let second = read_again(first.0, path, start, end, now, Ok(later));
            &&& first.1 == window_text(lines_of(text), start, end)
            &&& now != Some(stamp) ==> second.1 == window_text(lines_of(later), start, end)
            &&& now == Some(stamp) ==> second.0 == first.0 && (second.1 matches Ok(note) && holds(
                note,
                path,
            ))
        }),
{
    let key = read_key(path, start, end);
    crate::tools::files::noted_reads_are_found(reads, key, Some(stamp));
    lemma_holds_between(
        "[unchanged since you read it earlier in this turn — scroll up for "@,
        path,
        "]"@,
    );
}

/// What cannot be read, or has no such lines, is an error and is not remembered.
pub proof fn failed_reads_are_not_remembered(
    reads: Seq<(Seq<char>, Option<u128>)>,
    path: Seq<char>,
    start: Option<usize>,
    end: Option<usize>,
    modified: Option<u128>,
    content: Result<Seq<char>, Seq<char>>,
)
    ensures
        read_again(reads, path, start, end, modified, content).1 is Err ==> read_again(
            reads,
            path,
            start,
            end,
            modified,
            content,
        ).0 == reads,
        content is Err && !(modified is Some && stamp_of(reads, read_key(path, start, end)) == Some(
            modified,
        )) ==> read_again(reads, path, start, end, modified, content).1 == content,
{
}

/// Read a file unless the same lines were read before and it has not changed
/// since. `content` is its text, or why it cannot be read; a read that fails is
/// not noted.
pub fn cached_read(
    reads: &mut Reads,
    path: &str,
    start: Option<usize>,
    end: Option<usize>,
    modified: Option<u128>,
    content: &Result<String, String>,
) -> (r: Result<String, String>)
    ensures
        ({
            let key = read_key(path@, start, end);
            let seen = modified is Some && stamp_of(old(reads)@, key) == Some(modified);
            if seen {
                &&& r is Ok
                &&& r->Ok_0@ == "[unchanged since you read it earlier in this turn — scroll up for "@
                    + path@ + "]"@
                &&& final(reads)@ == old(reads)@
            } else {
                match *content {
                    Err(e) => r is Err && r->Err_0@ == e@ && final(reads)@ == old(reads)@,
                    Ok(text) => match window_text(lines_of(text@), start, end) {
                        Ok(body) => r is Ok && r->Ok_0@ == body && final(reads)@ == old(
                            reads,
                        )@.push((key, modified)),
                        Err(e) => r is Err && r->Err_0@ == e && final(reads)@ == old(reads)@,
                    },
                }
            }
        }),
        ({
            let done = read_again(
                old(reads)@,
                path@,
                start,
                end,
                modified,
                match *content {
                    Ok(text) => Ok(text@),
                    Err(e) => Err(e@),
                },
            );
            &&& final(reads)@ == done.0
            &&& match done.1 {
                Ok(text) => r is Ok && r->Ok_0@ == text,
                Err(e) => r is Err && r->Err_0@ == e,
            }
        }),
{
    if reads.unchanged(path, start, end, modified) {
        return Ok(unchanged_note(path));
    }
    match content {
        Err(e) => Err(e.clone()),
        Ok(text) => match read_numbered(text.as_str(), start, end) {
            Ok(body) => {
                reads.note(path, start, end, modified);
                Ok(body)
            },
            Err(e) => Err(e),
        },
    }
}

/// What an edit finds at its path.
pub enum Found {
    /// Nothing is replaced: the file is created. Whether it is there, and a hint
    /// where the directory seems to be the wrong one.
    New { there: bool, misplaced: Option<String> },
    /// The text with the edit applied, or why it cannot be.
    Applied(Result<String, String>),
}

/// The new text of the file, or why there is none.
pub open spec fn edited_content(path: Seq<char>, replace: Seq<char>, found: Found) -> Result<
    Seq<char>,
    Seq<char>,
> {
    match found {
        Found::New { there, misplaced } => if there {
            Err(path + " already exists; put the text to replace in `search`"@)
        } else {
            match opt(misplaced) {
                Some(hint) => Err(hint),
                None => Ok(replace),
            }
        },
        Found::Applied(Ok(text)) => Ok(text@),
        Found::Applied(Err(e)) => Err(e@),
    }
}

/// The new text of a file that is edited, and what guards the write; or why
/// there is none. `block` is what a preview shows of the edit.
pub fn edit_file(
    path: &str,
    replace: &str,
    block: &str,
    found: &Found,
    place: &Place,
    yolo: bool,
    can_ask: bool,
) -> (r: Result<(String, Gate), String>)
    ensures
        match edited_content(path@, replace@, *found) {
            Err(e) => r is Err && r->Err_0@ == e,
            Ok(text) => r is Ok && r->Ok_0.0@ == text && edit_gate(
                r->Ok_0.1,
                found is New,
                path@,
                block@,
                *place,
                yolo,
                can_ask,
            ),
        },
{
    let (text, creating) = match found {
        Found::New { there, misplaced } => {
            if *there {
                return Err(exists_already(path));
            }
            match misplaced {
                Some(hint) => return Err(hint.clone()),
                None => (replace.to_owned(), true),
            }
        },
        Found::Applied(Ok(text)) => (text.clone(), false),
        Found::Applied(Err(e)) => return Err(e.clone()),
    };
    Ok((text, authorize_edit(creating, path, block, place, yolo, can_ask)))
}

/// What guards a command: it has to be found, and the policy has to let it run.
pub open spec fn command_guard(
    g: Gate,
    binary: Seq<char>,
    on_path: bool,
    decision: Decision,
    can_ask: bool,
) -> bool {
    if !binary.contains('/') && !on_path {
        refuses(g, missing_binary_text(binary))
    } else {
        match decision {
            Decision::Allow => goes(g),
            Decision::Deny(reason) => refuses(g, hinted(reason@, can_ask)),
            Decision::Prompt(preview) => asks(
                g,
                preview@,
                "command `"@ + binary
                    + "` needs user approval; it was rejected or this run cannot ask"@,
            ),
        }
    }
}

/// What guards a command: it has to be found, and the policy has to let it run.
pub fn guard_command(binary: &str, on_path: bool, decision: &Decision, can_ask: bool) -> (r: Gate)
    ensures
        command_guard(r, binary@, on_path, *decision, can_ask),
{
    if is_bare(binary) && !on_path {
        return Gate::Refuse(missing_binary(binary));
    }
    authorize_exec(binary, decision, can_ask)
}

/// How a command runs.
#[derive(Clone, Copy, PartialEq, Eq, Structural, Debug)]
pub struct Runner {
    pub sandboxed: bool,
    pub network: bool,
}

/// What a command runs in: the sandbox, unless everything is allowed; with the
/// network, unless the call does without and not everything is allowed.
pub open spec fn runner_of(opts: RunOpts) -> Runner {
    Runner { sandboxed: !opts.yolo, network: opts.yolo || !opts.turbo }
}

/// Only where everything is allowed does a command leave the sandbox; a call that
/// does without the network has none inside it.
pub proof fn commands_stay_in_the_sandbox(opts: RunOpts)
    ensures
        runner_of(opts).sandboxed <==> !opts.yolo,
        opts.turbo && runner_of(opts).sandboxed ==> !runner_of(opts).network,
        !opts.turbo ==> runner_of(opts).network,
        !runner_of(opts).sandboxed ==> runner_of(opts).network,
{
}

/// How a command runs: in the sandbox unless all is allowed, and there without
/// the network in turbo mode.
pub fn run_raw(opts: RunOpts) -> (r: Runner)
    ensures
        r.sandboxed == !opts.yolo,
        r.network == (opts.yolo || !opts.turbo),
        r == runner_of(opts),
{
    Runner { sandboxed: !opts.yolo, network: opts.yolo || !opts.turbo }
}

/// What follows a command that ran.
pub enum Ran {
    /// Offer to run it again without the sandbox.
    Offer(String),
    /// This is what is shown of it.
    Shown(String),
}

/// True when running a command again is offered: it ran in the sandbox, failed
/// as if refused by it, and the offer was not made before.
pub open spec fn rerun_offered(output: CommandOutput, opts: RunOpts, offered: bool) -> bool {
    !opts.yolo && !offered && output.exit_code != Some(0i32) && blames_sandbox(
        lowercase(combined(output)),
    )
}

/// What follows a command that ran. `offered` says that running it again was
/// offered before, whatever the answer was.
pub fn command_ran(
    binary: &str,
    output: &CommandOutput,
    opts: RunOpts,
    offered: bool,
) -> (r: Ran)
    ensures
        rerun_offered(*output, opts, offered) ==> (r matches Ran::Offer(s) && s@ == "`"@ + binary@
            + "` failed inside the sandbox, likely on a blocked path or \
             no network. Run it without the sandbox?"@),
        !rerun_offered(*output, opts, offered) ==> (r matches Ran::Shown(s) && s@ == command_text(
            binary@,
            *output,
            lowercase(combined(*output)),
            opts,
        )),
{
    if run_raw(opts).sandboxed && !offered && sandbox_denial(output) {
        return Ran::Offer(rerun_preview(binary));
    }
    Ran::Shown(render_command(binary, output, opts))
}

/// Running again is offered at most once, and never for a command that ran
/// outside the sandbox or came out well.
pub proof fn reruns_are_offered_once(output: CommandOutput, opts: RunOpts, offered: bool)
    ensures
        rerun_offered(output, opts, offered) ==> !offered && !opts.yolo && output.exit_code
            != Some(0i32),
        !rerun_offered(output, opts, true),
{
}

/// Said when a call reaches for a server and none is connected.
pub const NO_SERVERS: &'static str = "no MCP servers are connected in this session";

/// What the bridge answers about one tool.
pub fn described_tool(id: &str, description: Option<&str>, schema: Json) -> (r: Json)
    ensures
        r@ == JsonV::Obj(
            Seq::empty().push(("id"@, JsonV::Str(id@))).push(
                ("description"@, crate::json::opt_value(opt_str(description))),
            ).push(("input_schema"@, schema@)),
        ),
{
    Fields::new().text("id", id).with("description", Json::opt_text(&owned(description))).with(
        "input_schema",
        schema,
    ).json()
}

} // verus!
