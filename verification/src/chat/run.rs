//! The decisions of a run, from its flags to its last line.

use vstd::prelude::*;

use crate::chat::args::{resume_of, ArgsV, ChatArgs, Resume, ResumeV};
use crate::json::{
    found_after_push, nothing_in_nothing, opt_value, text_array, Fields, Json, JsonV,
};
use crate::text::{cat2, opt, texts};
use crate::tools::approval::Mode;

verus! {

/// What is to be done when no client can be made.
#[derive(Clone, Copy, PartialEq, Eq, Structural, Debug)]
pub enum SetupStep {
    /// Tell the front-end what is missing, as an event.
    Emit,
    /// Take the person at the terminal through the setup.
    Onboard,
    /// Fail.
    Fail,
}

/// What is to be done when no client can be made: a stream gets an event; a
/// person at a terminal is taken through the setup; anything else fails.
pub open spec fn setup_step(stream: bool, missing: bool, attended: bool, json: bool) -> SetupStep {
    if !missing {
        SetupStep::Fail
    } else if stream {
        SetupStep::Emit
    } else if attended && !json {
        SetupStep::Onboard
    } else {
        SetupStep::Fail
    }
}

/// What is to be done when no client can be made. `missing` says whether
/// credentials are what is missing.
pub fn on_missing_client(stream: bool, missing: bool, attended: bool, json: bool) -> (r: SetupStep)
    ensures
        r == setup_step(stream, missing, attended, json),
{
    if !missing {
        SetupStep::Fail
    } else if stream {
        SetupStep::Emit
    } else if attended && !json {
        SetupStep::Onboard
    } else {
        SetupStep::Fail
    }
}

/// The event that tells a front-end what is missing.
pub fn setup_event(text: &str, setup: Json) -> (r: Json)
    ensures
        r@ == JsonV::Obj(
            Seq::empty().push(("type"@, JsonV::Str("error"@))).push(
                ("message"@, JsonV::Str(text@)),
            ).push(("setup"@, setup@)),
        ),
{
    Fields::new().text("type", "error").text("message", text).with("setup", setup).json()
}

/// Whether edits that are confirmed one by one have nobody to confirm them.
pub fn ask_needs_front_end(mode: Mode, allow_edits: bool, can_prompt: bool) -> (r: bool)
    ensures
        r == (allow_edits && mode == Mode::Manual && !can_prompt),
{
    allow_edits && mode == Mode::Manual && !can_prompt
}

/// Said when a run turns read-only because it cannot ask.
pub const READ_ONLY_NOTE: &'static str = "note: `manual` permissions confirm every edit and this run cannot ask, \
             so the agent is read-only. Pass --permission-mode edit (or auto), or run \
             with --stream so approvals have somewhere to go.";

/// How a run is gated.
#[derive(Clone, Copy, PartialEq, Eq, Structural, Debug)]
pub struct Permission {
    pub mode: Mode,
    pub allow_edits: bool,
    /// The run turned read-only because it cannot ask.
    pub read_only: bool,
    pub yolo: bool,
}

/// The mode of a run: the flag replaces the configured one.
pub open spec fn mode_of(flag: Option<Mode>, configured: Mode) -> Mode {
    match flag {
        Some(m) => m,
        None => configured,
    }
}

/// How a run is gated. `can_edit` says whether its mode edits at all.
pub open spec fn permission(
    a: ArgsV,
    configured: Mode,
    can_edit: bool,
    interactive: bool,
) -> Permission {
    let mode = mode_of(a.permission_mode, configured);
    let wanted = (a.permission_mode is Some || interactive || a.allow_edits) && can_edit;
    let stuck = !a.no_tools && wanted && mode == Mode::Manual && !(interactive || a.stream);
    Permission { mode, allow_edits: wanted && !stuck, read_only: stuck, yolo: mode == Mode::Yolo }
}

/// The mode of a run.
pub fn run_mode(args: &ChatArgs, configured: Mode) -> (r: Mode)
    ensures
        r == mode_of(args@.permission_mode, configured),
{
    match args.permission_mode {
        Some(m) => m,
        None => configured,
    }
}

/// How a run is gated.
pub fn permissions(
    args: &ChatArgs,
    configured: Mode,
    can_edit: bool,
    interactive: bool,
) -> (r: Permission)
    ensures
        r == permission(args@, configured, can_edit, interactive),
{
    let mode = run_mode(args, configured);
    let wanted = (args.permission_mode.is_some() || interactive || args.allow_edits) && can_edit;
    let can_prompt = interactive || args.stream;
    let stuck = !args.no_tools && ask_needs_front_end(mode, wanted, can_prompt);
    Permission { mode, allow_edits: wanted && !stuck, read_only: stuck, yolo: mode == Mode::Yolo }
}

/// A run that nobody can answer never edits under manual permissions, and no
/// run edits in a mode that does not.
pub proof fn edits_need_someone_to_ask(
    a: ArgsV,
    configured: Mode,
    can_edit: bool,
    interactive: bool,
)
    ensures
        !can_edit ==> !permission(a, configured, can_edit, interactive).allow_edits,
        permission(a, configured, can_edit, interactive).mode == Mode::Manual && !interactive
            && !a.stream && !a.no_tools ==> !permission(
            a,
            configured,
            can_edit,
            interactive,
        ).allow_edits,
        !interactive && !a.allow_edits && a.permission_mode is None ==> !permission(
            a,
            configured,
            can_edit,
            interactive,
        ).allow_edits,
{
}

/// The way a run takes.
#[derive(Clone, Copy, PartialEq, Eq, Structural, Debug)]
pub enum Route {
    /// Fold the history and print it.
    Compact,
    /// Open the interactive UI.
    Interactive,
    /// Fail: a session list needs a terminal.
    NeedsTerminal,
    /// Stream events.
    Stream,
    /// One plain answer, without tools.
    Plain,
    /// One answer, with tools.
    Agent,
}

/// Said when a session list has no terminal to be shown in.
pub const PICK_NEEDS_TERMINAL: &'static str =
    "--resume needs a terminal to show the session list. Pass an id instead: `aster sessions list`, then `aster --resume <ID>`";

/// The way a run takes.
pub open spec fn route_of(a: ArgsV, interactive: bool) -> Route {
    if a.compact {
        Route::Compact
    } else if interactive {
        Route::Interactive
    } else if resume_of(a) == ResumeV::Pick {
        Route::NeedsTerminal
    } else if a.stream {
        Route::Stream
    } else if a.no_tools {
        Route::Plain
    } else {
        Route::Agent
    }
}

/// The way a run takes.
pub fn run(args: &ChatArgs, interactive: bool) -> (r: Route)
    ensures
        r == route_of(args@, interactive),
{
    if args.compact {
        return Route::Compact;
    }
    if interactive {
        return Route::Interactive;
    }
    match args.resume_mode() {
        Resume::Pick => return Route::NeedsTerminal,
        _ => {},
    }
    if args.stream {
        Route::Stream
    } else if args.no_tools {
        Route::Plain
    } else {
        Route::Agent
    }
}

/// What a run that prints JSON prints.
pub open spec fn run_value(
    reply: Seq<char>,
    edits: Seq<Seq<char>>,
    usage: JsonV,
    title: Option<Seq<char>>,
) -> JsonV {
    JsonV::Obj(
        Seq::empty().push(("reply"@, JsonV::Str(reply))).push(("edits"@, text_array(edits))).push(
            ("usage"@, usage),
        ).push(("title"@, opt_value(title))),
    )
}

/// The event that ends a streamed run.
pub open spec fn done_value(
    reply: Seq<char>,
    edits: Seq<Seq<char>>,
    usage: JsonV,
    title: Option<Seq<char>>,
    context_budget: u64,
) -> JsonV {
    JsonV::Obj(
        Seq::empty().push(("type"@, JsonV::Str("done"@))).push(("reply"@, JsonV::Str(reply))).push(
            ("edits"@, text_array(edits)),
        ).push(("usage"@, usage)).push(("title"@, opt_value(title))).push(
            ("context_budget"@, JsonV::Number(context_budget)),
        ),
    )
}

proof fn lemma_run_keys()
    ensures
        "type"@.len() == 4,
        "reply"@.len() == 5 && "reply"@[0] == 'r',
        "edits"@.len() == 5 && "edits"@[0] == 'e',
        "usage"@.len() == 5 && "usage"@[0] == 'u',
        "title"@.len() == 5 && "title"@[0] == 't',
        "context_budget"@.len() == 14,
{
    reveal_strlit("type");
    reveal_strlit("reply");
    reveal_strlit("edits");
    reveal_strlit("usage");
    reveal_strlit("title");
    reveal_strlit("context_budget");
}

/// A run ends with its reply, the files it edited, in order, what it cost and its
/// name, however it is told.
pub proof fn a_run_ends_with_its_reply(
    reply: Seq<char>,
    edits: Seq<Seq<char>>,
    usage: JsonV,
    title: Option<Seq<char>>,
    context_budget: u64,
)
    ensures
        run_value(reply, edits, usage, title).text_at("reply"@) == Some(reply),
        run_value(reply, edits, usage, title).get("usage"@) == Some(usage),
        run_value(reply, edits, usage, title).text_at("title"@) == title,
        listed(run_value(reply, edits, usage, title).elements_at("edits"@), edits),
        done_value(reply, edits, usage, title, context_budget).text_at("type"@) == Some("done"@),
        done_value(reply, edits, usage, title, context_budget).text_at("reply"@) == Some(reply),
        done_value(reply, edits, usage, title, context_budget).get("usage"@) == Some(usage),
        done_value(reply, edits, usage, title, context_budget).text_at("title"@) == title,
        done_value(reply, edits, usage, title, context_budget).unsigned_at("context_budget"@)
            == Some(context_budget),
        listed(
            done_value(reply, edits, usage, title, context_budget).elements_at("edits"@),
            edits,
        ),
{
    broadcast use {found_after_push, nothing_in_nothing};

    lemma_run_keys();
}

/// True when the elements are the texts, in order.
pub open spec fn listed(v: Option<Seq<JsonV>>, texts: Seq<Seq<char>>) -> bool {
    v is Some && v.unwrap().len() == texts.len() && forall|i: int|
        0 <= i < texts.len() ==> (#[trigger] v.unwrap()[i]).text() == Some(texts[i])
}

/// What a run that answers in JSON prints.
pub fn run_json(
    reply: &str,
    edits: &Vec<String>,
    usage: Json,
    title: &Option<String>,
) -> (r: Json)
    ensures
        r@ == JsonV::Obj(
            Seq::empty().push(("reply"@, JsonV::Str(reply@))).push(
                ("edits"@, text_array(texts(edits@))),
            ).push(("usage"@, usage@)).push(("title"@, opt_value(opt(*title)))),
        ),
        r@ == run_value(reply@, texts(edits@), usage@, opt(*title)),
{
    Fields::new().text("reply", reply).with("edits", Json::texts(edits)).with("usage", usage).with(
        "title",
        Json::opt_text(title),
    ).json()
}

/// The last event of a stream that answered.
pub fn done_event(
    reply: &str,
    edits: &Vec<String>,
    usage: Json,
    title: &Option<String>,
    context_budget: u64,
) -> (r: Json)
    ensures
        r@ == JsonV::Obj(
            Seq::empty().push(("type"@, JsonV::Str("done"@))).push(
                ("reply"@, JsonV::Str(reply@)),
            ).push(("edits"@, text_array(texts(edits@)))).push(("usage"@, usage@)).push(
                ("title"@, opt_value(opt(*title))),
            ).push(("context_budget"@, JsonV::Number(context_budget))),
        ),
        r@ == done_value(reply@, texts(edits@), usage@, opt(*title), context_budget),
{
    Fields::new().text("type", "done").text("reply", reply).with("edits", Json::texts(edits)).with(
        "usage",
        usage,
    ).with("title", Json::opt_text(title)).with("context_budget", Json::Number(context_budget)).json()
}

/// The last event of a stream that failed.
pub fn error_event(text: &str) -> (r: Json)
    ensures
        r@ == JsonV::Obj(
            Seq::empty().push(("type"@, JsonV::Str("error"@))).push(
                ("message"@, JsonV::Str(text@)),
            ),
        ),
{
    Fields::new().text("type", "error").text("message", text).json()
}

/// How an edited file is listed after a plain answer.
pub fn edited_line(path: &str) -> (r: String)
    ensures
        r@ == "  ✎ edited "@ + path@,
{
    cat2("  ✎ edited ", path)
}

/// How a session is continued.
pub fn resume_line(id: &str) -> (r: String)
    ensures
        r@ == "Resume this session with: aster --resume "@ + id@,
{
    cat2("Resume this session with: aster --resume ", id)
}

/// A line on the standard input of a stream: a message to inject, a reply to
/// the last request, or nothing of use.
pub enum InputLine {
    Message(String),
    Reply(Json),
    Nothing,
}

/// True when `r` is what a line of input with this value is.
pub open spec fn line_means(r: InputLine, value: Option<JsonV>) -> bool {
    match value {
        None => r is Nothing,
        Some(v) => match v.text_at("message"@) {
            Some(m) => r matches InputLine::Message(s) && s@ == m,
            None => r matches InputLine::Reply(j) && j@ == v,
        },
    }
}

/// A line with a message is that message, any other JSON is a reply as it stands,
/// and what is no JSON is nothing.
pub proof fn messages_are_told_from_replies(r: InputLine, value: Option<JsonV>)
    requires
        line_means(r, value),
    ensures
        r is Nothing <==> value is None,
        r is Message <==> value is Some && value.unwrap().text_at("message"@) is Some,
        r matches InputLine::Message(s) ==> value.unwrap().text_at("message"@) == Some(s@),
        r matches InputLine::Reply(j) ==> value == Some(j@),
{
}

/// What a line on the standard input of a stream is, given the value it holds.
pub fn route_line(value: Option<Json>) -> (r: InputLine)
    ensures
        match value {
            None => r is Nothing,
            Some(j) => match j@.text_at("message"@) {
                Some(m) => r matches InputLine::Message(s) && s@ == m,
                None => r matches InputLine::Reply(v) && v == j,
            },
        },
        line_means(
            r,
            match value {
                Some(j) => Some(j@),
                None => None,
            },
        ),
{
    match value {
        None => InputLine::Nothing,
        Some(j) => {
            let found = crate::text::owned(j.str_at("message"));
            match found {
                Some(m) => InputLine::Message(m),
                None => InputLine::Reply(j),
            }
        },
    }
}

/// What a line on the standard input of a stream is.
pub fn stdin_line(line: &str) -> (r: InputLine)
    ensures
        match crate::json_text::json_text(line@) {
            Err(_) => r is Nothing,
            Ok(v) => match v.text_at("message"@) {
                Some(m) => r matches InputLine::Message(s) && s@ == m,
                None => r matches InputLine::Reply(j) && j@ == v,
            },
        },
        line_means(
            r,
            match crate::json_text::json_text(line@) {
                Ok(v) => Some(v),
                Err(_) => None,
            },
        ),
{
    match crate::json_text::read_json(line) {
        Ok(v) => route_line(Some(v)),
        Err(_) => route_line(None),
    }
}

} // verus!
