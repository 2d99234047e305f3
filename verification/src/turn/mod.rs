//! One agentic turn: the model's tool calls are driven until it answers in
//! plain text or the round budget ends. The turn decides; whoever runs it talks
//! to the model, runs the tools and hands the outcome back.

use vstd::prelude::*;

use crate::json::{items, message, opt_value, Json, JsonV};
use crate::message::{
    calls, calls_wire, citations, citations_event, tokens_in, Annotation, AssistantV, CallV,
    EffectV, EventUsage, MessageV, ThoughtV, ToolCall,
};
use crate::plan::{unfinished, PlanSnapshot, PlanStepStatus};
use crate::rounds::{
    all_failed, found_something, fresh_progress, image_message, images_retired, is_error,
    is_read_tool, productive, progress_after, signature, verdict_of, LIVE_IMAGES, NoProgress,
    RoundVerdict,
};
use crate::steering::{
    barren_text, batch_text, budget_text, pending_work, ASK_USER_ADVICE,
    DANGLING_INTENT_CORRECTION, DEGENERATE_CORRECTION, EMPTY_CORRECTION, LOOP_CORRECTION,
    MAX_DEGENERATE_RETRIES, MAX_EMPTY_ROUNDS, MAX_ROUND_EXTENSIONS, PROMISED_WORK_KICK,
    RETRY_ADVICE, SILENT_MODEL, SINGLE_LOOKUP_ROUNDS,
};
use crate::text::affix::trimmed;
use crate::text::cut::truncated;
use crate::text::pieces::joined;
use crate::text::{opt, texts};

pub mod laws;
pub mod round_laws;
pub mod steps;
pub mod wire_laws;

verus! {

/// The most of a tool's result that goes back to the model, in bytes.
pub const MAX_TOOL_RESULT_CHARS: usize = 24_000;

/// What the transcript keeps of a result that is never shown.
pub const INTERNAL_RESULT: &'static str = "[internal tool result omitted]";

/// Where a turn stands.
#[derive(Clone, Copy, PartialEq, Eq, Structural, Debug)]
pub enum Phase {
    /// Between rounds.
    Ready,
    /// A round is open and the model has not answered.
    Open,
    /// The model asked for tools and their results are coming in.
    Tools,
    /// No more rounds.
    Ended,
}

/// A turn in progress.
pub struct Turn {
    pub wire: Vec<Json>,
    pub phase: Phase,
    /// Rounds opened so far.
    pub round: usize,
    pub round_cap: usize,
    pub max_tool_rounds: usize,
    pub plan_at_extension: PlanSnapshot,
    pub extensions: usize,
    pub no_progress: NoProgress,
    pub budget_told: bool,
    pub empties: usize,
    pub degenerations: usize,
    pub promised: usize,
    pub single_lookups: usize,
    pub batch_nudged: bool,
}

/// The model of a turn.
#[verifier::ext_equal]
pub struct TurnV {
    pub wire: Seq<JsonV>,
    pub phase: Phase,
    pub round: int,
    pub round_cap: int,
    pub max_tool_rounds: int,
    pub plan_at_extension: Option<Seq<(Seq<char>, PlanStepStatus)>>,
    pub extensions: int,
    pub no_progress: NoProgress,
    pub budget_told: bool,
    pub empties: int,
    pub degenerations: int,
    pub promised: int,
    pub single_lookups: int,
    pub batch_nudged: bool,
}

impl View for Turn {
    type V = TurnV;

    open spec fn view(&self) -> TurnV {
        TurnV {
            wire: items(self.wire@),
            phase: self.phase,
            round: self.round as int,
            round_cap: self.round_cap as int,
            max_tool_rounds: self.max_tool_rounds as int,
            plan_at_extension: self.plan_at_extension@,
            extensions: self.extensions as int,
            no_progress: self.no_progress,
            budget_told: self.budget_told,
            empties: self.empties as int,
            degenerations: self.degenerations as int,
            promised: self.promised as int,
            single_lookups: self.single_lookups as int,
            batch_nudged: self.batch_nudged,
        }
    }
}

impl TurnV {
    /// Rounds whose calls were all taken into account.
    pub open spec fn closed_rounds(self) -> int {
        if self.phase == Phase::Ready || self.phase == Phase::Ended {
            self.round
        } else {
            self.round - 1
        }
    }

    /// What holds of every turn: the cap is one allotment for the start and one
    /// for each extension, no round is beyond it, and every counter is bounded.
    pub open spec fn wf(self) -> bool {
        &&& 1 <= self.max_tool_rounds
        &&& self.max_tool_rounds * 3 <= usize::MAX
        &&& 0 <= self.extensions <= MAX_ROUND_EXTENSIONS
        &&& self.round_cap == self.max_tool_rounds * (1 + self.extensions)
        &&& 0 <= self.round <= self.round_cap
        &&& (self.phase == Phase::Open || self.phase == Phase::Tools) ==> self.round >= 1
        &&& 0 <= self.empties <= MAX_EMPTY_ROUNDS + 1
        &&& self.phase != Phase::Ended ==> self.empties <= MAX_EMPTY_ROUNDS
        &&& 0 <= self.degenerations <= MAX_DEGENERATE_RETRIES + 1
        &&& self.phase != Phase::Ended ==> self.degenerations <= MAX_DEGENERATE_RETRIES
        &&& 0 <= self.promised <= 2
        &&& 0 <= self.single_lookups <= self.closed_rounds()
        &&& self.no_progress.within(self.closed_rounds())
    }

    /// One more message at the end of the wire.
    pub open spec fn said(self, m: JsonV) -> TurnV {
        TurnV { wire: self.wire.push(m), ..self }
    }

    /// One steering message to the model; it rides a user turn.
    pub open spec fn steered(self, content: Seq<char>) -> TurnV {
        self.said(message("user"@, JsonV::Str(content)))
    }

    /// The turn in another phase.
    pub open spec fn at(self, phase: Phase) -> TurnV {
        TurnV { phase, ..self }
    }
}

/// The system prompt and the history as they open the wire.
pub open spec fn opening(system: Seq<char>, history: Seq<MessageV>) -> Seq<JsonV> {
    Seq::empty().push(message("system"@, JsonV::Str(system))) + Seq::new(
        history.len(),
        |i: int| message(history[i].role, history[i].content),
    )
}

/// The last thing the assistant said.
pub open spec fn last_reply(history: Seq<MessageV>) -> Option<Seq<char>>
    decreases history.len(),
{
    if history.len() == 0 {
        None
    } else if history.last().role == "assistant"@ {
        Some(history.last().text)
    } else {
        last_reply(history.drop_last())
    }
}

/// True when the last reply of the history promised work that was not done.
pub open spec fn opens_on_a_promise(history: Seq<MessageV>) -> bool {
    match last_reply(history) {
        Some(text) => pending_work(text),
        None => false,
    }
}

/// A turn before its first round, without the kick for a promise.
pub open spec fn fresh_turn(
    system: Seq<char>,
    history: Seq<MessageV>,
    plan: Option<Seq<(Seq<char>, PlanStepStatus)>>,
    max_tool_rounds: int,
) -> TurnV {
    TurnV {
        wire: opening(system, history),
        phase: Phase::Ready,
        round: 0,
        round_cap: max_tool_rounds,
        max_tool_rounds,
        plan_at_extension: plan,
        extensions: 0,
        no_progress: fresh_progress(),
        budget_told: false,
        empties: 0,
        degenerations: 0,
        promised: 0,
        single_lookups: 0,
        batch_nudged: false,
    }
}

/// A turn before its first round: kicked into acting when `kick` is set.
pub open spec fn started(
    system: Seq<char>,
    history: Seq<MessageV>,
    plan: Option<Seq<(Seq<char>, PlanStepStatus)>>,
    max_tool_rounds: int,
    kick: bool,
) -> TurnV {
    let t = fresh_turn(system, history, plan, max_tool_rounds);
    if kick {
        t.steered(PROMISED_WORK_KICK@)
    } else {
        t
    }
}

/// What a steering message leaves in the transcript.
pub open spec fn steer_effect(content: Seq<char>) -> Seq<EffectV> {
    Seq::empty().push(EffectV::System(content))
}

/// Whether another round opens, and the turn after the decision: within the cap
/// always; at the cap only while the plan is unfinished, has moved since the
/// last extension, and fewer than two extensions were given.
pub open spec fn round_opened(
    t: TurnV,
    now: Option<Seq<(Seq<char>, PlanStepStatus)>>,
) -> (TurnV, bool) {
    if t.round < t.round_cap {
        (TurnV { round: t.round + 1, phase: Phase::Open, ..t }, true)
    } else if t.extensions < MAX_ROUND_EXTENSIONS && unfinished(now) && now
        != t.plan_at_extension {
        (
            TurnV {
                round: t.round + 1,
                phase: Phase::Open,
                plan_at_extension: now,
                extensions: t.extensions + 1,
                round_cap: t.round_cap + t.max_tool_rounds,
                ..t
            },
            true,
        )
    } else {
        (t.at(Phase::Ended), false)
    }
}

/// What a check of the turn advises.
#[derive(Clone, Copy, PartialEq, Eq, Structural, Debug)]
pub enum Advice {
    Nothing,
    Retry,
    AskUser,
    Stop,
}

/// The turn after advice.
pub open spec fn advised(t: TurnV, advice: Advice) -> TurnV {
    match advice {
        Advice::Nothing => t,
        Advice::Retry => t.steered(RETRY_ADVICE@),
        Advice::AskUser => t.steered(ASK_USER_ADVICE@),
        Advice::Stop => t.at(Phase::Ended),
    }
}

/// What advice leaves in the transcript.
pub open spec fn advice_effects(advice: Advice) -> Seq<EffectV> {
    match advice {
        Advice::Retry => steer_effect(RETRY_ADVICE@),
        Advice::AskUser => steer_effect(ASK_USER_ADVICE@),
        _ => Seq::empty(),
    }
}

/// A message that the user sent during the turn: what was typed, and the
/// content it goes on the wire with.
pub struct Injected {
    pub content: String,
    pub wire: Json,
}

/// The models of injected messages.
pub open spec fn injected(v: Seq<Injected>) -> Seq<(Seq<char>, JsonV)> {
    Seq::new(v.len(), |i: int| (v[i].content@, v[i].wire@))
}

/// The event that shows an injected message.
pub open spec fn injected_event(content: Seq<char>) -> JsonV {
    JsonV::Obj(
        Seq::empty().push(("type"@, JsonV::Str("injected"@))).push(
            ("content"@, JsonV::Str(content)),
        ),
    )
}

/// The wire after the first `n` injected messages.
pub open spec fn wire_with(
    wire: Seq<JsonV>,
    pending: Seq<(Seq<char>, JsonV)>,
    n: nat,
) -> Seq<JsonV>
    decreases n,
{
    if n == 0 || n > pending.len() {
        wire
    } else {
        wire_with(wire, pending, (n - 1) as nat).push(message("user"@, pending[n - 1].1))
    }
}

/// What the first `n` injected messages are shown and kept as.
pub open spec fn injected_effects(pending: Seq<(Seq<char>, JsonV)>, n: nat) -> Seq<EffectV>
    decreases n,
{
    if n == 0 || n > pending.len() {
        Seq::empty()
    } else {
        injected_effects(pending, (n - 1) as nat).push(
            EffectV::Emit(injected_event(pending[n - 1].0)),
        ).push(EffectV::User(pending[n - 1].0))
    }
}

/// True when the model is due its one notice of the round budget: halfway
/// through, after the first round.
pub open spec fn budget_due(t: TurnV) -> bool {
    !t.budget_told && t.round > 1 && (t.round - 1) * 2 >= t.round_cap
}

/// The turn after the model was told its budget, if that was due.
pub open spec fn budget_said(t: TurnV) -> TurnV {
    if budget_due(t) {
        TurnV { budget_told: true, ..t.steered(
            budget_text((t.round - 1) as nat, t.round_cap as nat),
        ) }
    } else {
        t
    }
}

/// What is to be done about a request that failed.
#[derive(Clone, Copy, PartialEq, Eq, Structural, Debug)]
pub enum FailureStep {
    /// Answer without tools.
    PlainChat,
    /// Go on to the next round.
    Again,
    /// The turn fails with the error.
    Fail,
}

/// What is to be done about a failure: a model that rejects tools in the first
/// round is asked without them; a degenerate reply is steered twice; anything
/// else fails the turn.
pub open spec fn failure_step(t: TurnV, unsupported: bool, degenerate: bool) -> FailureStep {
    if t.round == 1 && unsupported {
        FailureStep::PlainChat
    } else if degenerate && t.degenerations < MAX_DEGENERATE_RETRIES {
        FailureStep::Again
    } else {
        FailureStep::Fail
    }
}

/// The turn after a failure.
pub open spec fn failed(t: TurnV, unsupported: bool, degenerate: bool) -> TurnV {
    match failure_step(t, unsupported, degenerate) {
        FailureStep::PlainChat => t.at(Phase::Ended),
        FailureStep::Again => TurnV {
            degenerations: t.degenerations + 1,
            ..t.steered(DEGENERATE_CORRECTION@).at(Phase::Ready)
        },
        FailureStep::Fail => TurnV {
            degenerations: if degenerate && !(t.round == 1 && unsupported) {
                t.degenerations + 1
            } else {
                t.degenerations
            },
            ..t.at(Phase::Ended)
        },
    }
}

/// What the model sent back.
pub struct Reply {
    pub content: Option<String>,
    pub tool_calls: Vec<ToolCall>,
    pub annotations: Vec<Annotation>,
    /// The thinking blocks, as they go back on the wire.
    pub reasoning_details: Vec<Json>,
    /// The readable text of each thinking block that has one.
    pub thoughts: Vec<String>,
}

/// The model of a reply.
#[verifier::ext_equal]
pub struct ReplyV {
    pub content: Option<Seq<char>>,
    pub tool_calls: Seq<CallV>,
    pub annotations: Seq<(Seq<char>, Option<Seq<char>>)>,
    pub reasoning_details: Seq<JsonV>,
    pub thoughts: Seq<Seq<char>>,
}

impl View for Reply {
    type V = ReplyV;

    open spec fn view(&self) -> ReplyV {
        ReplyV {
            content: opt(self.content),
            tool_calls: calls(self.tool_calls@),
            annotations: citations(self.annotations@),
            reasoning_details: items(self.reasoning_details@),
            thoughts: texts(self.thoughts@),
        }
    }
}

/// How a reply came in.
#[derive(Clone, Copy, PartialEq, Eq, Structural, Debug)]
pub struct RoundInfo {
    /// Some of the text was shown as it arrived.
    pub streamed: bool,
    /// Some of the thinking was shown as it arrived.
    pub streamed_reasoning: bool,
    /// Characters of thinking shown as they arrived.
    pub reasoning_chars: usize,
    pub duration_ms: u64,
    pub usage: Option<EventUsage>,
}

/// The readable thinking of a reply.
pub open spec fn reasoning(thoughts: Seq<Seq<char>>) -> Seq<char> {
    joined(thoughts, "\n\n"@)
}

/// The thinking that is kept with a reply, if it has any.
pub open spec fn kept_reasoning(thoughts: Seq<Seq<char>>, duration_ms: u64) -> Option<ThoughtV> {
    let text = reasoning(thoughts);
    if text.len() == 0 {
        None
    } else {
        Some(
            ThoughtV {
                text,
                tokens: Some(tokens_in(text.len() as int) as u64),
                duration_ms: Some(duration_ms),
            },
        )
    }
}

/// What is shown of the thinking once the round closes.
pub open spec fn reasoning_effects(r: ReplyV, info: RoundInfo) -> Seq<EffectV> {
    let text = reasoning(r.thoughts);
    if info.streamed_reasoning {
        Seq::empty().push(
            EffectV::Emit(
                JsonV::Obj(
                    Seq::empty().push(("type"@, JsonV::Str("reasoning_done"@))).push(
                        ("tokens"@, JsonV::Number(tokens_in(info.reasoning_chars as int) as u64)),
                    ).push(("duration_ms"@, JsonV::Number(info.duration_ms))),
                ),
            ),
        )
    } else if text.len() > 0 {
        Seq::empty().push(
            EffectV::Emit(
                JsonV::Obj(
                    Seq::empty().push(("type"@, JsonV::Str("reasoning"@))).push(
                        ("content"@, JsonV::Str(text)),
                    ).push(("tokens"@, JsonV::Number(tokens_in(text.len() as int) as u64))).push(
                        ("duration_ms"@, JsonV::Number(info.duration_ms)),
                    ),
                ),
            ),
        )
    } else {
        Seq::empty()
    }
}

/// The text of a reply that says anything.
pub open spec fn spoken(content: Option<Seq<char>>) -> Option<Seq<char>> {
    match content {
        Some(text) => if trimmed(text).len() > 0 {
            Some(text)
        } else {
            None
        },
        None => None,
    }
}

/// How text that may have been streamed already is shown: a separator when it
/// was, the text when not.
pub open spec fn shown(text: Seq<char>, streamed: bool) -> EffectV {
    if streamed {
        EffectV::Emit(
            JsonV::Obj(
                Seq::empty().push(("type"@, JsonV::Str("token"@))).push(
                    ("content"@, JsonV::Str("\n\n"@)),
                ),
            ),
        )
    } else {
        EffectV::Emit(
            JsonV::Obj(
                Seq::empty().push(("type"@, JsonV::Str("text"@))).push(
                    ("content"@, JsonV::Str(text)),
                ),
            ),
        )
    }
}

/// What is to be done about a reply.
#[derive(Clone, Copy, PartialEq, Eq, Structural, Debug)]
pub enum ReplyStep {
    /// Go on to the next round.
    Again,
    /// Ask for an answer without tools.
    ForceAnswer,
    /// The reply answers the user.
    Answer,
    /// Run the tools it asks for.
    Tools,
}

/// What is to be done about a reply: its calls are run; a silent one is asked
/// again twice and then forced; one that promises work is told to act, twice at
/// most; any other is the answer.
pub open spec fn reply_step(t: TurnV, r: ReplyV) -> ReplyStep {
    if r.tool_calls.len() > 0 {
        ReplyStep::Tools
    } else {
        match spoken(r.content) {
            None => if t.empties < MAX_EMPTY_ROUNDS {
                ReplyStep::Again
            } else {
                ReplyStep::ForceAnswer
            },
            Some(text) => if t.promised < 2 && pending_work(text) {
                ReplyStep::Again
            } else {
                ReplyStep::Answer
            },
        }
    }
}

/// The record of a reply without calls.
pub open spec fn said_record(
    text: Seq<char>,
    annotations: Seq<(Seq<char>, Option<Seq<char>>)>,
    r: ReplyV,
    info: RoundInfo,
) -> EffectV {
    EffectV::Assistant(
        AssistantV {
            content: Some(text),
            tool_calls: Seq::empty(),
            annotations,
            reasoning: kept_reasoning(r.thoughts, info.duration_ms),
            usage: info.usage,
        },
    )
}

/// The turn after a reply was looked at.
pub open spec fn replied(t: TurnV, r: ReplyV) -> TurnV {
    if r.tool_calls.len() > 0 {
        TurnV { empties: 0, ..t.at(Phase::Tools) }
    } else {
        match spoken(r.content) {
            None => if t.empties < MAX_EMPTY_ROUNDS {
                TurnV { empties: t.empties + 1, ..t.steered(EMPTY_CORRECTION@).at(Phase::Ready) }
            } else {
                TurnV { empties: t.empties + 1, ..t.at(Phase::Ended) }
            },
            Some(text) => if t.promised < 2 && pending_work(text) {
                TurnV {
                    promised: t.promised + 1,
                    empties: 0,
                    ..t.said(message("assistant"@, JsonV::Str(text))).steered(
                        DANGLING_INTENT_CORRECTION@,
                    ).at(Phase::Ready)
                }
            } else {
                t
            },
        }
    }
}

/// What a reply shows and keeps before its calls run or its answer stands.
pub open spec fn reply_effects(t: TurnV, r: ReplyV, info: RoundInfo) -> Seq<EffectV> {
    let head = reasoning_effects(r, info);
    if r.tool_calls.len() > 0 {
        head
    } else {
        match spoken(r.content) {
            None => if t.empties < MAX_EMPTY_ROUNDS {
                head.push(EffectV::System(EMPTY_CORRECTION@))
            } else {
                head
            },
            Some(text) => if t.promised < 2 && pending_work(text) {
                head.push(said_record(text, Seq::empty(), r, info)).push(
                    shown(text, info.streamed),
                ).push(EffectV::System(DANGLING_INTENT_CORRECTION@))
            } else {
                head
            },
        }
    }
}

/// Messages that go on the wire as the text that was typed.
pub open spec fn as_typed(typed: Seq<Seq<char>>) -> Seq<(Seq<char>, JsonV)> {
    Seq::new(typed.len(), |i: int| (typed[i], JsonV::Str(typed[i])))
}

/// The turn after an answer, given what was typed while it formed: it ends
/// without any message, and goes on when there are some.
pub open spec fn answered(t: TurnV, text: Seq<char>, typed: Seq<Seq<char>>) -> TurnV {
    let pending = as_typed(typed);
    if typed.len() == 0 {
        t.at(Phase::Ended)
    } else {
        let u = t.said(message("assistant"@, JsonV::Str(text))).at(Phase::Ready);
        TurnV { wire: wire_with(u.wire, pending, pending.len()), ..u }
    }
}

/// What an answer shows and keeps.
pub open spec fn answer_effects(
    r: ReplyV,
    text: Seq<char>,
    info: RoundInfo,
    typed: Seq<Seq<char>>,
) -> Seq<EffectV> {
    let pending = as_typed(typed);
    let cited = if r.annotations.len() > 0 {
        Seq::empty().push(EffectV::Emit(citations_event(r.annotations)))
    } else {
        Seq::empty()
    };
    let kept = cited.push(said_record(text, r.annotations, r, info));
    if typed.len() == 0 {
        kept
    } else {
        kept.push(shown(text, info.streamed)) + injected_effects(pending, pending.len())
    }
}

/// The assistant message that carries tool calls.
pub open spec fn calling_message(r: ReplyV) -> JsonV {
    let base = Seq::empty().push(("role"@, JsonV::Str("assistant"@))).push(
        ("content"@, opt_value(r.content)),
    ).push(("tool_calls"@, calls_wire(r.tool_calls)));
    if r.reasoning_details.len() > 0 {
        JsonV::Obj(base.push(("reasoning_details"@, JsonV::Arr(r.reasoning_details))))
    } else {
        JsonV::Obj(base)
    }
}

/// The event that shows a tool call.
pub open spec fn call_event(c: CallV) -> JsonV {
    JsonV::Obj(
        Seq::empty().push(("type"@, JsonV::Str("tool_call"@))).push(("id"@, JsonV::Str(c.id))).push(
            ("name"@, JsonV::Str(c.name)),
        ).push(("arguments"@, JsonV::Str(c.arguments))),
    )
}

/// The events for the first `n` calls; an internal one is not shown.
pub open spec fn call_events(v: Seq<CallV>, internal: Seq<bool>, n: nat) -> Seq<EffectV>
    decreases n,
{
    if n == 0 || n > v.len() {
        Seq::empty()
    } else {
        let head = call_events(v, internal, (n - 1) as nat);
        if internal[n - 1] {
            head
        } else {
            head.push(EffectV::Emit(call_event(v[n - 1])))
        }
    }
}

/// What a reply with calls shows and keeps before they run.
pub open spec fn tools_effects(r: ReplyV, info: RoundInfo, internal: Seq<bool>) -> Seq<EffectV> {
    let kept = Seq::empty().push(
        EffectV::Assistant(
            AssistantV {
                content: r.content,
                tool_calls: r.tool_calls,
                annotations: r.annotations,
                reasoning: kept_reasoning(r.thoughts, info.duration_ms),
                usage: info.usage,
            },
        ),
    );
    let said = match spoken(r.content) {
        Some(text) => kept.push(shown(text, info.streamed)),
        None => kept,
    };
    said + call_events(r.tool_calls, internal, r.tool_calls.len())
}

/// The event for a piece of text as it arrives.
pub open spec fn token_value(delta: Seq<char>) -> JsonV {
    JsonV::Obj(
        Seq::empty().push(("type"@, JsonV::Str("token"@))).push(("content"@, JsonV::Str(delta))),
    )
}

/// The event for a piece of thinking as it arrives.
pub open spec fn thinking_value(delta: Seq<char>, chars: int) -> JsonV {
    JsonV::Obj(
        Seq::empty().push(("type"@, JsonV::Str("reasoning_delta"@))).push(
            ("content"@, JsonV::Str(delta)),
        ).push(("tokens"@, JsonV::Number(tokens_in(chars) as u64))),
    )
}

/// What is kept of a tool's output.
pub open spec fn result_of(output: Seq<char>) -> Seq<char> {
    truncated(output, MAX_TOOL_RESULT_CHARS as int)
}

/// The event that shows a tool's result.
pub open spec fn result_event(c: CallV, result: Seq<char>, images: u64) -> JsonV {
    JsonV::Obj(
        Seq::empty().push(("type"@, JsonV::Str("tool_result"@))).push(
            ("id"@, JsonV::Str(c.id)),
        ).push(("name"@, JsonV::Str(c.name))).push(("result"@, JsonV::Str(result))).push(
            ("error"@, JsonV::Bool(is_error(result))),
        ).push(("images"@, JsonV::Number(images))),
    )
}

/// The message that carries a tool's result back.
pub open spec fn result_message(id: Seq<char>, result: Seq<char>) -> JsonV {
    JsonV::Obj(
        Seq::empty().push(("role"@, JsonV::Str("tool"@))).push(
            ("tool_call_id"@, JsonV::Str(id)),
        ).push(("content"@, JsonV::Str(result))),
    )
}

/// The turn after a tool's result: the result goes on the wire, and pictures
/// follow it once older ones are retired.
pub open spec fn with_result(
    t: TurnV,
    c: CallV,
    result: Seq<char>,
    images: Seq<Seq<char>>,
) -> TurnV {
    let u = t.said(result_message(c.id, result));
    if images.len() == 0 {
        u
    } else {
        TurnV {
            wire: images_retired(u.wire, LIVE_IMAGES as int, 0).push(
                image_message(c.name, images),
            ),
            ..u
        }
    }
}

/// What a tool's result shows and keeps.
pub open spec fn result_effects(
    c: CallV,
    result: Seq<char>,
    images: u64,
    internal: bool,
) -> Seq<EffectV> {
    if internal {
        Seq::empty().push(EffectV::Tool(c.id, INTERNAL_RESULT@))
    } else {
        Seq::empty().push(EffectV::Emit(result_event(c, result, images))).push(
            EffectV::Tool(c.id, result),
        )
    }
}

/// What is to be done once a round's calls have run.
#[derive(Clone, Copy, PartialEq, Eq, Structural, Debug)]
pub enum CloseStep {
    /// Go on to the next round.
    Next,
    /// The turn fails for repeating itself.
    Fail,
    /// Ask for an answer without tools.
    ForceAnswer,
}

/// Rounds of one lookup each, with this round counted.
pub open spec fn lookups_after(
    t: TurnV,
    round: Seq<(Seq<char>, Seq<char>, Seq<char>)>,
) -> int {
    if round.len() == 1 && is_read_tool(round[0].0) {
        t.single_lookups + 1
    } else {
        0
    }
}

/// The verdict on a round that has run.
pub open spec fn round_verdict(
    t: TurnV,
    round: Seq<(Seq<char>, Seq<char>, Seq<char>)>,
    barren: Seq<bool>,
) -> RoundVerdict {
    verdict_of(
        t.no_progress,
        signature(round),
        all_failed(round),
        productive(round) || found_something(round, barren),
    )
}

/// What is said to the model after a round, if anything.
pub open spec fn closing_words(
    t: TurnV,
    round: Seq<(Seq<char>, Seq<char>, Seq<char>)>,
    barren: Seq<bool>,
) -> Option<Seq<char>> {
    match round_verdict(t, round, barren) {
        RoundVerdict::Continue => if !t.batch_nudged && lookups_after(t, round)
            >= SINGLE_LOOKUP_ROUNDS {
            Some(batch_text(lookups_after(t, round) as nat))
        } else {
            None
        },
        RoundVerdict::Correct => Some(LOOP_CORRECTION@),
        RoundVerdict::Nudge(streak) => Some(barren_text(streak as nat)),
        RoundVerdict::Abort => None,
        RoundVerdict::Wrap => None,
    }
}

/// What is to be done once a round's calls have run.
pub open spec fn close_step(
    t: TurnV,
    round: Seq<(Seq<char>, Seq<char>, Seq<char>)>,
    barren: Seq<bool>,
) -> CloseStep {
    match round_verdict(t, round, barren) {
        RoundVerdict::Abort => CloseStep::Fail,
        RoundVerdict::Wrap => CloseStep::ForceAnswer,
        _ => CloseStep::Next,
    }
}

/// The turn once a round's calls have run.
pub open spec fn round_closed(
    t: TurnV,
    round: Seq<(Seq<char>, Seq<char>, Seq<char>)>,
    barren: Seq<bool>,
) -> TurnV {
    let verdict = round_verdict(t, round, barren);
    let counted = TurnV {
        no_progress: progress_after(
            t.no_progress,
            signature(round),
            all_failed(round),
            productive(round) || found_something(round, barren),
        ),
        single_lookups: lookups_after(t, round),
        batch_nudged: t.batch_nudged || (verdict == RoundVerdict::Continue && lookups_after(
            t,
            round,
        ) >= SINGLE_LOOKUP_ROUNDS),
        phase: if close_step(t, round, barren) == CloseStep::Next {
            Phase::Ready
        } else {
            Phase::Ended
        },
        ..t
    };
    match closing_words(t, round, barren) {
        Some(words) => counted.steered(words),
        None => counted,
    }
}

/// What the end of a round leaves in the transcript.
pub open spec fn close_effects(
    t: TurnV,
    round: Seq<(Seq<char>, Seq<char>, Seq<char>)>,
    barren: Seq<bool>,
) -> Seq<EffectV> {
    match closing_words(t, round, barren) {
        Some(words) => steer_effect(words),
        None => Seq::empty(),
    }
}

/// The reply a forced answer gives: its text, or a word about the silence.
pub open spec fn forced_reply(content: Option<Seq<char>>) -> Seq<char> {
    match spoken(content) {
        Some(text) => text,
        None => SILENT_MODEL@,
    }
}

} // verus!
