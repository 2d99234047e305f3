//! Who may do what: approvals, questions, and the guard before an edit or a
//! command.

use vstd::prelude::*;

use crate::json::{opt_value, Fields, Json, JsonV};
use crate::text::affix::{contains, holds, is_blank, trim, trimmed};
use crate::text::pieces::{cut_once, split_once};
use crate::text::{cat2, cat3, cat4, cat5, contains_text, opt, opt_str, owned, pairs, texts};

verus! {

/// The permission mode of a session.
#[derive(Clone, Copy, PartialEq, Eq, Structural, Debug)]
pub enum Mode {
    Plan,
    Manual,
    Auto,
    Edit,
    Yolo,
}

/// How the user answered a request for approval.
#[derive(Clone, Copy, PartialEq, Eq, Structural, Debug)]
pub enum Answer {
    Yes,
    No,
    Always,
}

impl Answer {
    /// Whether the answer lets the action go ahead.
    pub fn allowed(self) -> (r: bool)
        ensures
            r == (self != Answer::No),
    {
        match self {
            Answer::No => false,
            _ => true,
        }
    }
}

/// What a front-end's reply to a request for approval means: anything but an
/// explicit `allow` is a no.
pub open spec fn approval_of(reply: JsonV) -> Answer {
    if reply.boolean_at("allow"@) != Some(true) {
        Answer::No
    } else if reply.boolean_at("always"@) == Some(true) {
        Answer::Always
    } else {
        Answer::Yes
    }
}

/// What a front-end's reply to a request for approval means.
pub fn parse_approval(reply: &Json) -> (r: Answer)
    ensures
        r == approval_of(reply@),
{
    match reply.bool_at("allow") {
        Some(true) => {},
        _ => return Answer::No,
    }
    match reply.bool_at("always") {
        Some(true) => Answer::Always,
        _ => Answer::Yes,
    }
}

/// What a front-end's reply to a question means.
pub fn parse_question(reply: &Json) -> (r: Option<String>)
    ensures
        opt(r) == reply@.text_at("choice"@),
{
    owned(reply.str_at("choice"))
}

/// The event that asks for approval.
pub open spec fn approval_event(
    kind: Seq<char>,
    preview: Seq<char>,
    scope: Option<Seq<char>>,
    markdown: Option<Seq<char>>,
) -> JsonV {
    JsonV::Obj(
        Seq::empty().push(("type"@, JsonV::Str("approval_request"@))).push(
            ("kind"@, JsonV::Str(kind)),
        ).push(("preview"@, JsonV::Str(preview))).push(("scope"@, opt_value(scope))).push(
            ("markdown"@, opt_value(markdown)),
        ),
    )
}

/// The event that asks for approval.
pub fn approval_request_json(
    kind: &str,
    preview: &str,
    scope: &Option<String>,
    markdown: &Option<String>,
) -> (r: Json)
    ensures
        r@ == approval_event(kind@, preview@, opt(*scope), opt(*markdown)),
{
    Fields::new().text("type", "approval_request").text("kind", kind).text(
        "preview",
        preview,
    ).with("scope", Json::opt_text(scope)).with("markdown", Json::opt_text(markdown)).json()
}

/// The event that puts a question.
pub open spec fn question_event(
    header: Seq<char>,
    question: Seq<char>,
    options: Seq<Seq<char>>,
) -> JsonV {
    JsonV::Obj(
        Seq::empty().push(("type"@, JsonV::Str("question"@))).push(
            ("header"@, JsonV::Str(header)),
        ).push(("question"@, JsonV::Str(question))).push(
            ("options"@, crate::json::text_array(options)),
        ),
    )
}

/// A question is put with its header, its own words and every option, in order.
pub proof fn a_question_is_put_whole(
    header: Seq<char>,
    question: Seq<char>,
    options: Seq<Seq<char>>,
)
    ensures
        question_event(header, question, options).text_at("type"@) == Some("question"@),
        question_event(header, question, options).text_at("header"@) == Some(header),
        question_event(header, question, options).text_at("question"@) == Some(question),
        ({
            let all = question_event(header, question, options).elements_at("options"@);
            all is Some && all.unwrap().len() == options.len() && forall|i: int|
                0 <= i < options.len() ==> (#[trigger] all.unwrap()[i]).text() == Some(options[i])
        }),
{
    broadcast use {crate::json::found_after_push, crate::json::nothing_in_nothing};

    reveal_strlit("type");
    reveal_strlit("header");
    reveal_strlit("question");
    reveal_strlit("options");
    assert("type"@.len() == 4 && "header"@.len() == 6 && "question"@.len() == 8 && "options"@.len()
        == 7);
}

/// The event that puts a question.
pub fn question_json(header: &str, question: &str, options: &Vec<String>) -> (r: Json)
    ensures
        r@ == JsonV::Obj(
            Seq::empty().push(("type"@, JsonV::Str("question"@))).push(
                ("header"@, JsonV::Str(header@)),
            ).push(("question"@, JsonV::Str(question@))).push(
                ("options"@, crate::json::text_array(texts(options@))),
            ),
        ),
        r@ == question_event(header@, question@, texts(options@)),
{
    Fields::new().text("type", "question").text("header", header).text("question", question).with(
        "options",
        Json::texts(options),
    ).json()
}

/// Answered where nobody can be asked.
pub const NOBODY_TO_ASK: &'static str =
    "note: no interactive UI is attached, so the user cannot be asked. Pick the most reasonable option and say which you chose.";

/// Answered when the user picks nothing.
pub const DECLINED: &'static str =
    "the user declined to answer; proceed with your best judgement";

/// What is to be done about a question of the model.
pub enum QuestionStep {
    /// Answer without asking.
    Say(String),
    /// Ask under this header.
    Ask(String),
}

/// The header a question is asked under.
pub open spec fn question_header(header: Seq<char>) -> Seq<char> {
    if trimmed(header).len() == 0 {
        "Question"@
    } else {
        trimmed(header)
    }
}

/// What the user's pick is reported as.
pub open spec fn picked(answer: Option<Seq<char>>) -> Seq<char> {
    match answer {
        Some(a) => "the user chose: "@ + a,
        None => DECLINED@,
    }
}

/// True when `s` is what is done about a question.
pub open spec fn question_put(
    s: QuestionStep,
    has_ui: bool,
    header: Seq<char>,
    options: Seq<Seq<char>>,
) -> bool {
    if !has_ui {
        s matches QuestionStep::Say(text) && text@ == NOBODY_TO_ASK@
    } else if options.len() == 0 {
        s matches QuestionStep::Say(text) && text@ == DECLINED@
    } else if options.len() == 1 {
        s matches QuestionStep::Say(text) && text@ == picked(Some(options[0]))
    } else {
        s matches QuestionStep::Ask(h) && h@ == question_header(header)
    }
}

/// The user is asked exactly where there is someone to ask and something to
/// choose; a single option is taken for the choice.
pub proof fn only_a_choice_is_put(
    s: QuestionStep,
    has_ui: bool,
    header: Seq<char>,
    options: Seq<Seq<char>>,
)
    requires
        question_put(s, has_ui, header, options),
    ensures
        s is Ask <==> has_ui && options.len() >= 2,
        s matches QuestionStep::Ask(h) ==> h@.len() > 0 && (trimmed(header).len() > 0 ==> h@
            == trimmed(header)),
        has_ui && options.len() == 1 ==> (s matches QuestionStep::Say(text) && crate::text::affix::closes(
            text@,
            options[0],
        )),
{
    reveal_strlit("Question");
    if has_ui && options.len() == 1 {
        let text = picked(Some(options[0]));
        assert(text.skip(text.len() - options[0].len()) =~= options[0]);
    }
}

/// What is to be done about a question: nothing can be asked without a UI or
/// with fewer than two options.
pub fn ask_user(has_ui: bool, header: &str, options: &Vec<String>) -> (r: QuestionStep)
    ensures
        !has_ui ==> (r matches QuestionStep::Say(s) && s@ == NOBODY_TO_ASK@),
        has_ui && options@.len() == 0 ==> (r matches QuestionStep::Say(s) && s@ == DECLINED@),
        has_ui && options@.len() == 1 ==> (r matches QuestionStep::Say(s) && s@ == picked(
            Some(options@[0]@),
        )),
        has_ui && options@.len() >= 2 ==> (r matches QuestionStep::Ask(h) && h@ == question_header(
            header@,
        )),
        question_put(r, has_ui, header@, texts(options@)),
{
    if !has_ui {
        return QuestionStep::Say(NOBODY_TO_ASK.to_owned());
    }
    if options.len() == 0 {
        return QuestionStep::Say(DECLINED.to_owned());
    }
    if options.len() == 1 {
        return QuestionStep::Say(cat2("the user chose: ", options[0].as_str()));
    }
    let t = trim(header);
    if t.as_str().is_empty() {
        QuestionStep::Ask("Question".to_owned())
    } else {
        QuestionStep::Ask(t)
    }
}

/// What the user's pick is reported as.
pub fn question_answered(answer: &Option<String>) -> (r: String)
    ensures
        r@ == picked(opt(*answer)),
{
    match answer {
        Some(a) => cat2("the user chose: ", a.as_str()),
        None => DECLINED.to_owned(),
    }
}

/// What a tool's outcome is reported as: an error is marked as one.
pub open spec fn reported(outcome: Result<Seq<char>, Seq<char>>) -> Seq<char> {
    match outcome {
        Ok(text) => text,
        Err(e) => "error: "@ + e,
    }
}

/// What a tool's outcome is reported as.
pub fn report_outcome(outcome: &Result<String, String>) -> (r: String)
    ensures
        r@ == reported(
            match *outcome {
                Ok(text) => Ok(text@),
                Err(e) => Err(e@),
            },
        ),
{
    match outcome {
        Ok(text) => text.clone(),
        Err(e) => cat2("error: ", e.as_str()),
    }
}

/// What the turn may do around a plan: edit, and whether the plan was approved.
#[derive(Clone, Copy, PartialEq, Eq, Structural, Debug)]
pub struct PlanGate {
    pub allow_edits: bool,
    pub approved: bool,
}

/// Said when a plan is presented twice.
pub const ALREADY_APPROVED: &'static str =
    "this plan is already approved; carry it out instead of presenting it again";

/// Said when there is nothing to present.
pub const NO_PLAN: &'static str =
    "there is no plan to present: draft it with `write_plan` first, from the code you have read";

/// The plan that a call carries inline, if it does.
pub open spec fn inline_text(inline: Option<Seq<char>>) -> Option<Seq<char>> {
    match inline {
        Some(doc) => if trimmed(doc).len() > 0 {
            Some(trimmed(doc))
        } else {
            None
        },
        None => None,
    }
}

/// The plan that is presented, or why none is.
pub open spec fn plan_presented(gate: PlanGate, inline: Option<Seq<char>>) -> Result<
    Option<Seq<char>>,
    Seq<char>,
> {
    if gate.approved {
        Err(ALREADY_APPROVED@)
    } else {
        Ok(inline_text(inline))
    }
}

/// An approved plan is not presented again; any other is, from the text given
/// where there is some.
pub proof fn a_plan_is_presented_once(gate: PlanGate, inline: Option<Seq<char>>)
    ensures
        plan_presented(gate, inline) is Err <==> gate.approved,
        !gate.approved && inline is Some && trimmed(inline.unwrap()).len() > 0 ==> plan_presented(
            gate,
            inline,
        )->Ok_0 == Some(trimmed(inline.unwrap())),
        !gate.approved && inline is None ==> plan_presented(gate, inline)->Ok_0 is None,
{
}

/// A denial in plan mode comes with the way out of it, where someone can be
/// asked; the reason itself always stands in front.
pub proof fn a_denial_keeps_its_reason(reason: Seq<char>, can_ask: bool)
    ensures
        crate::text::affix::opens(hinted(reason, can_ask), reason),
        !can_ask ==> hinted(reason, can_ask) == reason,
{
    assert(hinted(reason, can_ask).take(reason.len() as int) =~= reason);
}

/// The model is told what the user decided: approval lets it go on, and only a
/// refusal sends it back to the plan.
pub proof fn the_decision_is_told(gate: PlanGate, answer: Answer)
    ensures
        answer != Answer::No ==> crate::text::affix::opens(plan_reply(gate, answer), "plan approved"@),
        answer == Answer::No ==> crate::text::affix::opens(
            plan_reply(gate, answer),
            "the user did not approve the plan"@,
        ),
{
    reveal_strlit("plan approved");
    reveal_strlit("plan approved; edit mode is now active");
    reveal_strlit("plan approved; carry it out");
    let told = plan_reply(gate, answer);
    if answer == Answer::No {
        lemma_refusal_told();
    } else {
        assert(told.take("plan approved"@.len() as int) =~= "plan approved"@);
    }
}

proof fn lemma_refusal_told()
    ensures
        crate::text::affix::opens(
            "the user did not approve the plan; stay in plan mode, revise the parts they objected to with `write_plan`, and present it again"@,
            "the user did not approve the plan"@,
        ),
{
    let told = "the user did not approve the plan; stay in plan mode, revise the parts they objected to with `write_plan`, and present it again"@;
    reveal_strlit(
        "the user did not approve the plan; stay in plan mode, revise the parts they objected to with `write_plan`, and present it again",
    );
    reveal_strlit("the user did not approve the plan");
    let lead = "the user did not approve the plan"@;
    assert(told.take(lead.len() as int) =~= lead);
}

/// Whether a plan may be presented, and the document to save first.
pub fn exit_plan_mode(gate: PlanGate, inline: Option<&str>) -> (r: Result<Option<String>, String>)
    ensures
        gate.approved ==> r is Err && r->Err_0@ == ALREADY_APPROVED@,
        !gate.approved ==> r is Ok && opt(r->Ok_0) == inline_text(opt_str(inline)),
        match plan_presented(gate, opt_str(inline)) {
            Ok(text) => r is Ok && opt(r->Ok_0) == text,
            Err(e) => r is Err && r->Err_0@ == e,
        },
{
    if gate.approved {
        return Err(ALREADY_APPROVED.to_owned());
    }
    match inline {
        Some(doc) => {
            let t = trim(doc);
            if t.as_str().is_empty() {
                Ok(None)
            } else {
                Ok(Some(t))
            }
        },
        None => Ok(None),
    }
}

/// The preview a plan is presented with.
pub fn plan_preview(markdown: &str) -> (r: Result<String, String>)
    ensures
        trimmed(markdown@).len() == 0 ==> r is Err && r->Err_0@ == NO_PLAN@,
        trimmed(markdown@).len() > 0 ==> r is Ok && r->Ok_0@
            == "Approve this plan and start editing?\n\n"@ + markdown@,
{
    if is_blank(markdown) {
        return Err(NO_PLAN.to_owned());
    }
    Ok(cat2("Approve this plan and start editing?\n\n", markdown))
}

/// What the turn may do once a plan was answered.
pub open spec fn gate_after(gate: PlanGate, answer: Answer) -> PlanGate {
    if answer == Answer::No {
        PlanGate { allow_edits: false, ..gate }
    } else {
        PlanGate { allow_edits: true, approved: true }
    }
}

/// The mode the session is moved to once a plan was answered: back to planning
/// on a no; on to editing when edits were off; unchanged otherwise.
pub open spec fn mode_after(gate: PlanGate, answer: Answer) -> Option<Mode> {
    if answer == Answer::No {
        Some(Mode::Plan)
    } else if !gate.allow_edits {
        Some(Mode::Edit)
    } else {
        None
    }
}

/// What is reported once a plan was answered.
pub open spec fn plan_reply(gate: PlanGate, answer: Answer) -> Seq<char> {
    if answer == Answer::No {
        "the user did not approve the plan; stay in plan mode, revise the parts they objected to with `write_plan`, and present it again"@
    } else if !gate.allow_edits {
        "plan approved; edit mode is now active"@
    } else {
        "plan approved; carry it out"@
    }
}

/// Take the user's answer to a plan. Gives back the mode to move to, if any,
/// and what to report.
pub fn plan_answered(gate: &mut PlanGate, answer: Answer) -> (r: (Option<Mode>, String))
    ensures
        *final(gate) == gate_after(*old(gate), answer),
        r.0 == mode_after(*old(gate), answer),
        r.1@ == plan_reply(*old(gate), answer),
{
    if !answer.allowed() {
        gate.allow_edits = false;
        return (
            Some(Mode::Plan),
            "the user did not approve the plan; stay in plan mode, revise the parts they objected to with `write_plan`, and present it again".to_owned(),
        );
    }
    gate.approved = true;
    if gate.allow_edits {
        return (None, "plan approved; carry it out".to_owned());
    }
    gate.allow_edits = true;
    (Some(Mode::Edit), "plan approved; edit mode is now active".to_owned())
}

/// A rejected plan leaves the turn read-only, and an approved one that could
/// already edit keeps its mode.
pub proof fn plans_never_widen_silently(gate: PlanGate, answer: Answer)
    ensures
        answer == Answer::No ==> !gate_after(gate, answer).allow_edits && gate_after(
            gate,
            answer,
        ).approved == gate.approved,
        answer != Answer::No && gate.allow_edits ==> mode_after(gate, answer) is None,
{
}

/// What the policy says of an action.
pub enum Decision {
    Allow,
    Deny(String),
    Prompt(String),
}

/// What is to be done about an action.
pub enum Gate {
    /// Go ahead.
    Go,
    /// Fail with this reason.
    Refuse(String),
    /// Ask with the preview; on a no, fail with the reason.
    Ask { preview: String, refusal: String },
}

/// True when the guard lets the action go ahead.
pub open spec fn goes(g: Gate) -> bool {
    g is Go
}

/// True when the guard fails with exactly this reason.
pub open spec fn refuses(g: Gate, reason: Seq<char>) -> bool {
    g matches Gate::Refuse(s) && s@ == reason
}

/// True when the guard asks with exactly this preview and fails with exactly
/// this reason.
pub open spec fn asks(g: Gate, shown: Seq<char>, reason: Seq<char>) -> bool {
    g matches Gate::Ask { preview, refusal } && preview@ == shown && refusal@ == reason
}

/// A refusal in plan mode, with the way out where someone can approve it.
pub open spec fn hinted(reason: Seq<char>, can_ask: bool) -> Seq<char> {
    if can_ask && holds(reason, "mode is `plan`"@) {
        reason + ". Present your plan with `exit_plan_mode` and ask the user \
             to approve leaving plan mode; do not retry this call until they do"@
    } else {
        reason
    }
}

/// A refusal in plan mode, with the way out where someone can approve it.
pub fn plan_mode_hint(reason: &str, can_ask: bool) -> (r: String)
    ensures
        r@ == hinted(reason@, can_ask),
{
    if can_ask && contains(reason, "mode is `plan`") {
        return cat2(
            reason,
            ". Present your plan with `exit_plan_mode` and ask the user \
             to approve leaving plan mode; do not retry this call until they do",
        );
    }
    reason.to_owned()
}

/// The guard before a command.
pub fn authorize_exec(binary: &str, decision: &Decision, can_ask: bool) -> (r: Gate)
    ensures
        match *decision {
            Decision::Allow => goes(r),
            Decision::Deny(reason) => refuses(r, hinted(reason@, can_ask)),
            Decision::Prompt(preview) => asks(
                r,
                preview@,
                "command `"@ + binary@
                    + "` needs user approval; it was rejected or this run cannot ask"@,
            ),
        },
{
    match decision {
        Decision::Allow => Gate::Go,
        Decision::Deny(reason) => Gate::Refuse(plan_mode_hint(reason.as_str(), can_ask)),
        Decision::Prompt(preview) => Gate::Ask {
            preview: preview.clone(),
            refusal: cat3(
                "command `",
                binary,
                "` needs user approval; it was rejected or this run cannot ask",
            ),
        },
    }
}

/// The guard before an MCP tool. `arguments` is what the preview shows of them.
pub fn authorize_bridge(id: &str, arguments: &str, decision: &Decision, can_ask: bool) -> (r: Gate)
    ensures
        match *decision {
            Decision::Allow => goes(r),
            Decision::Deny(reason) => refuses(r, hinted(reason@, can_ask)),
            Decision::Prompt(_) => asks(
                r,
                "call MCP tool "@ + id@ + ":\n"@ + arguments@,
                "MCP tool `"@ + id@
                    + "` needs user approval; it was rejected or this run cannot ask"@,
            ),
        },
{
    match decision {
        Decision::Allow => Gate::Go,
        Decision::Deny(reason) => Gate::Refuse(plan_mode_hint(reason.as_str(), can_ask)),
        Decision::Prompt(_) => Gate::Ask {
            preview: cat4("call MCP tool ", id, ":\n", arguments),
            refusal: cat3(
                "MCP tool `",
                id,
                "` needs user approval; it was rejected or this run cannot ask",
            ),
        },
    }
}

/// The guard before a command reads credentials. `dir` is the directory as it is
/// shown.
pub fn authorize_credentials(yolo: bool, granted: bool, command: &str, dir: &str) -> (r: Gate)
    ensures
        yolo || granted ==> goes(r),
        !yolo && !granted ==> asks(
            r,
            "`"@ + command@ + "` needs to read credentials outside the repository:\n  "@ + dir@,
            ("`"@ + command@ + "` needs to read "@ + dir@
                + " and was not allowed to; it was rejected, \
                 or this run has no way to ask. Preauthorize it with \
                 `permissions.allow_credentials: [\""@) + (command@ + ":"@ + dir@
                + "\"]` in aster.yaml"@),
        ),
{
    if yolo || granted {
        return Gate::Go;
    }
    let head = cat5(
        "`",
        command,
        "` needs to read ",
        dir,
        " and was not allowed to; it was rejected, \
                 or this run has no way to ask. Preauthorize it with \
                 `permissions.allow_credentials: [\"",
    );
    let tail = cat4(command, ":", dir, "\"]` in aster.yaml");
    Gate::Ask {
        preview: cat4(
            "`",
            command,
            "` needs to read credentials outside the repository:\n  ",
            dir,
        ),
        refusal: cat2(head.as_str(), tail.as_str()),
    }
}

/// The offer to run a command again that the sandbox seems to have refused.
pub fn rerun_preview(binary: &str) -> (r: String)
    ensures
        r@ == "`"@ + binary@ + "` failed inside the sandbox, likely on a blocked path or \
             no network. Run it without the sandbox?"@,
{
    cat3(
        "`",
        binary,
        "` failed inside the sandbox, likely on a blocked path or \
             no network. Run it without the sandbox?",
    )
}

/// The guard before a read outside the repository.
pub fn authorize_outside_read(granted: bool, path: &str) -> (r: Gate)
    ensures
        granted ==> goes(r),
        !granted ==> asks(
            r,
            "read outside the repository:\n  "@ + path@,
            path@ + " is outside the repository and needs the user's approval; \
                     it was rejected or this run has no way to ask"@,
        ),
{
    if granted {
        return Gate::Go;
    }
    Gate::Ask {
        preview: cat2("read outside the repository:\n  ", path),
        refusal: cat2(
            path,
            " is outside the repository and needs the user's approval; \
                     it was rejected or this run has no way to ask",
        ),
    }
}

/// Where an edit would land.
pub enum Place {
    /// In the repository, with what the policy says of the edit.
    InRepo(Decision),
    /// Outside it.
    Outside,
}

/// Creating a file or editing one.
pub open spec fn edit_verb(creating: bool) -> Seq<char> {
    if creating {
        "create"@
    } else {
        "edit"@
    }
}

/// What the guard before an edit is: outside the repository it asks unless all
/// is allowed anyway; inside, the policy decides.
pub open spec fn edit_gate(
    g: Gate,
    creating: bool,
    path: Seq<char>,
    block: Seq<char>,
    place: Place,
    yolo: bool,
    can_ask: bool,
) -> bool {
    match place {
        Place::Outside => if yolo {
            goes(g)
        } else {
            asks(
                g,
                edit_verb(creating) + " "@ + path + " (outside the repo):\n"@ + block,
                "write to "@ + path + " needs user approval because it is outside the repo; \
                 it was rejected or no interactive approver is available"@,
            )
        },
        Place::InRepo(decision) => match decision {
            Decision::Allow => goes(g),
            Decision::Deny(reason) => refuses(
                g,
                "edit blocked by policy: "@ + hinted(reason@, can_ask),
            ),
            Decision::Prompt(_) => asks(
                g,
                edit_verb(creating) + " "@ + path + ":\n"@ + block,
                "edit needs user approval (permissions mode is `ask`); \
                         it was rejected or no interactive approver is available"@,
            ),
        },
    }
}

/// The guard before an edit. `block` is what the preview shows of it.
pub fn authorize_edit(
    creating: bool,
    path: &str,
    block: &str,
    place: &Place,
    yolo: bool,
    can_ask: bool,
) -> (r: Gate)
    ensures
        edit_gate(r, creating, path@, block@, *place, yolo, can_ask),
{
    let verb = if creating { "create" } else { "edit" };
    match place {
        Place::Outside => {
            if yolo {
                return Gate::Go;
            }
            Gate::Ask {
                preview: cat5(verb, " ", path, " (outside the repo):\n", block),
                refusal: cat3(
                    "write to ",
                    path,
                    " needs user approval because it is outside the repo; \
                 it was rejected or no interactive approver is available",
                ),
            }
        },
        Place::InRepo(decision) => match decision {
            Decision::Allow => Gate::Go,
            Decision::Deny(reason) => Gate::Refuse(
                cat2("edit blocked by policy: ", plan_mode_hint(reason.as_str(), can_ask).as_str()),
            ),
            Decision::Prompt(_) => Gate::Ask {
                preview: cat5(verb, " ", path, ":\n", block),
                refusal: "edit needs user approval (permissions mode is `ask`); \
                         it was rejected or no interactive approver is available".to_owned(),
            },
        },
    }
}

/// Whether an edit creates a file: it names nothing to replace.
pub fn creates(search: &str) -> (r: bool)
    ensures
        r == (search@.len() == 0),
{
    search.is_empty()
}

/// Said when a file to create is there already.
pub fn exists_already(path: &str) -> (r: String)
    ensures
        r@ == path@ + " already exists; put the text to replace in `search`"@,
{
    cat2(path, " already exists; put the text to replace in `search`")
}

/// What an edit is reported as: what was done, the rules that govern the place,
/// and the problems a language server found.
pub open spec fn edit_report(
    creating: bool,
    path: Seq<char>,
    block: Seq<char>,
    rules: Option<Seq<char>>,
    problems: Option<Seq<char>>,
) -> Seq<char> {
    let done = (if creating {
        "created"@
    } else {
        "edited"@
    }) + " "@ + path + ":\n"@ + block;
    let ruled = match rules {
        Some(p) => done + "\n\n"@ + p
            + " sets the rules for this directory. Read it if you have not, and revisit this edit if it conflicts."@,
        None => done,
    };
    match problems {
        Some(p) => ruled + "\n\n"@ + p,
        None => ruled,
    }
}

/// What an edit is reported as.
pub fn edited_text(
    creating: bool,
    path: &str,
    block: &str,
    rules: &Option<String>,
    problems: &Option<String>,
) -> (r: String)
    ensures
        r@ == edit_report(creating, path@, block@, opt(*rules), opt(*problems)),
{
    let verb = if creating { "created" } else { "edited" };
    let done = cat5(verb, " ", path, ":\n", block);
    let ruled = match rules {
        Some(p) => cat4(
            done.as_str(),
            "\n\n",
            p.as_str(),
            " sets the rules for this directory. Read it if you have not, and revisit this edit if it conflicts.",
        ),
        None => done,
    };
    match problems {
        Some(p) => cat3(ruled.as_str(), "\n\n", p.as_str()),
        None => ruled,
    }
}

/// Note a path as edited, once.
pub fn note_edited(edited: &mut Vec<String>, path: &str)
    ensures
        texts(final(edited)@) == if texts(old(edited)@).contains(path@) {
            texts(old(edited)@)
        } else {
            texts(old(edited)@).push(path@)
        },
{
    if !contains_text(edited, path) {
        let p = path.to_owned();
        edited.push(p);
        assert(texts(edited@) =~= texts(old(edited)@).push(path@));
    }
}

/// The paths that count as edited once the first `n` of `files` are.
pub open spec fn edited_after(edited: Seq<Seq<char>>, files: Seq<Seq<char>>, n: nat) -> Seq<
    Seq<char>,
>
    decreases n,
{
    if n == 0 || n > files.len() {
        edited
    } else {
        let head = edited_after(edited, files, (n - 1) as nat);
        if head.contains(files[n - 1]) {
            head
        } else {
            head.push(files[n - 1])
        }
    }
}

/// Note each of several paths as edited, once.
pub fn note_all_edited(edited: &mut Vec<String>, files: &Vec<String>)
    ensures
        texts(final(edited)@) == edited_after(texts(old(edited)@), texts(files@), files@.len()),
{
    let ghost start = texts(edited@);
    let ghost all = texts(files@);
    let mut i: usize = 0;
    while i < files.len()
        invariant
            i <= files@.len(),
            all == texts(files@),
            texts(edited@) == edited_after(start, all, i as nat),
        decreases files.len() - i,
    {
        assert(all[i as int] == files@[i as int]@);
        note_edited(edited, files[i].as_str());
        i += 1;
    }
}

/// What a rewrite of many files comes to.
pub enum RewriteStep {
    /// Answer with a text.
    Say(String),
    /// Write the files, once this lets it.
    Write(Gate),
}

/// What is said where a rewrite finds nothing.
pub const NO_MATCHES: &'static str = "no matches; nothing changed";

/// What a rewrite of many files comes to, given what the policy says of each
/// file that it changes.
pub fn ast_edit(decisions: &Vec<Decision>, preview: &str, can_ask: bool) -> (r: RewriteStep)
    ensures
        if decisions@.len() == 0 {
            r matches RewriteStep::Say(t) && t@ == NO_MATCHES@
        } else {
            r matches RewriteStep::Write(g) && batch_gate(g, decisions@, preview@, can_ask)
        },
{
    if decisions.len() == 0 {
        RewriteStep::Say(NO_MATCHES.to_owned())
    } else {
        RewriteStep::Write(authorize_batch(decisions, preview, can_ask))
    }
}

/// The reason of the first file that the policy denies.
pub open spec fn first_denial(v: Seq<Decision>) -> Option<Seq<char>>
    decreases v.len(),
{
    if v.len() == 0 {
        None
    } else {
        match v[0] {
            Decision::Deny(reason) => Some(reason@),
            _ => first_denial(v.drop_first()),
        }
    }
}

/// True when the policy asks about some file.
pub open spec fn some_prompt(v: Seq<Decision>) -> bool {
    exists|i: int| 0 <= i < v.len() && #[trigger] v[i] is Prompt
}

/// True when `g` is the guard before a rewrite of many files.
pub open spec fn batch_gate(
    g: Gate,
    decisions: Seq<Decision>,
    preview: Seq<char>,
    can_ask: bool,
) -> bool {
    match first_denial(decisions) {
        Some(reason) => refuses(g, "edit blocked by policy: "@ + hinted(reason, can_ask)),
        None => if some_prompt(decisions) {
            asks(
                g,
                preview,
                "ast_edit needs user approval (permissions mode is `ask`); \
                             it was rejected or no interactive approver is available"@,
            )
        } else {
            goes(g)
        },
    }
}

/// The guard before a rewrite of many files, given what the policy says of each:
/// one denial refuses the batch; otherwise one question covers it.
pub fn authorize_batch(decisions: &Vec<Decision>, preview: &str, can_ask: bool) -> (r: Gate)
    ensures
        batch_gate(r, decisions@, preview@, can_ask),
{
    let mut ask = false;
    let mut i: usize = 0;
    assert(decisions@.skip(0) =~= decisions@);
    while i < decisions.len()
        invariant
            i <= decisions@.len(),
            first_denial(decisions@.skip(i as int)) == first_denial(decisions@),
            ask <==> exists|k: int| 0 <= k < i && #[trigger] decisions@[k] is Prompt,
        decreases decisions.len() - i,
    {
        proof {
            assert(decisions@.skip(i as int)[0] == decisions@[i as int]);
            assert(decisions@.skip(i as int).drop_first() =~= decisions@.skip(i + 1));
        }
        match &decisions[i] {
            Decision::Allow => {},
            Decision::Deny(reason) => {
                return Gate::Refuse(
                    cat2(
                        "edit blocked by policy: ",
                        plan_mode_hint(reason.as_str(), can_ask).as_str(),
                    ),
                );
            },
            Decision::Prompt(_) => {
                assert(decisions@[i as int] is Prompt);
                ask = true;
            },
        }
        i += 1;
    }
    if ask {
        Gate::Ask {
            preview: preview.to_owned(),
            refusal: "ast_edit needs user approval (permissions mode is `ask`); \
                             it was rejected or no interactive approver is available".to_owned(),
        }
    } else {
        Gate::Go
    }
}

/// The command and directory of each entry that has both.
pub open spec fn split_grants(v: Seq<Seq<char>>, mark: char, trims: bool) -> Seq<
    (Seq<char>, Seq<char>),
>
    decreases v.len(),
{
    if v.len() == 0 {
        Seq::empty()
    } else {
        let head = split_grants(v.drop_last(), mark, trims);
        match cut_once(v.last(), mark) {
            Some(parts) => head.push(
                if trims {
                    (trimmed(parts.0), trimmed(parts.1))
                } else {
                    parts
                },
            ),
            None => head,
        }
    }
}

fn push_grants(out: &mut Vec<(String, String)>, v: &Vec<String>, mark: char, trims: bool)
    ensures
        pairs(final(out)@) == pairs(old(out)@) + split_grants(texts(v@), mark, trims),
{
    let ghost start = pairs(out@);
    let ghost all = texts(v@);
    let mut i: usize = 0;
    assert(start + split_grants(all.take(0), mark, trims) =~= start);
    while i < v.len()
        invariant
            i <= v@.len(),
            all == texts(v@),
            pairs(out@) == start + split_grants(all.take(i as int), mark, trims),
        decreases v.len() - i,
    {
        proof {
            assert(all.take(i + 1).drop_last() =~= all.take(i as int));
            assert(all.take(i + 1).last() == all[i as int]);
        }
        let ghost had = pairs(out@);
        match split_once(v[i].as_str(), mark) {
            Some((command, dir)) => {
                let pair = if trims {
                    (trim(command.as_str()), trim(dir.as_str()))
                } else {
                    (command, dir)
                };
                let ghost m = (pair.0@, pair.1@);
                out.push(pair);
                assert(pairs(out@) =~= had.push(m));
                assert(had.push(m) =~= start + split_grants(all.take(i + 1), mark, trims));
            },
            None => {},
        }
        i += 1;
    }
    assert(all.take(all.len() as int) =~= all);
}

/// The commands that may read credentials, each with the directory: those of
/// the configuration, written `command:dir`, then those that were granted
/// before, kept as `command`, a tab and `dir`.
pub fn configured_credentials(configured: &Vec<String>, granted: &Vec<String>) -> (r: Vec<
    (String, String),
>)
    ensures
        pairs(r@) == split_grants(texts(configured@), ':', true) + split_grants(
            texts(granted@),
            '\t',
            false,
        ),
{
    let mut out: Vec<(String, String)> = Vec::new();
    assert(pairs(out@) =~= Seq::empty());
    push_grants(&mut out, configured, ':', true);
    assert(pairs(out@) =~= split_grants(texts(configured@), ':', true));
    push_grants(&mut out, granted, '\t', false);
    out
}

} // verus!
