//! The steps of a turn.

use vstd::prelude::*;

use crate::json::{copy_items, items, message, message_json, Fields, Json, JsonV};
use crate::message::{
    add_effect, calls, calls_json, copy_annotations, copy_calls, effects, emit_citations,
    estimate_reasoning_tokens, messages, no_effects, thought, AssistantRecord, AssistantV,
    ChatMessage, Effect, EffectV, ReasoningRecord, ToolCall,
};
use crate::plan::{plan_unfinished, same_snapshot, PlanSnapshot};
use crate::rounds::{
    error_result, image_turn, is_productive_round, read_tool, retire_old_images, round_all_errors,
    round_found_something, round_signature, round_view, LIVE_IMAGES, NoProgress, RoundCall,
    RoundVerdict,
};
use crate::steering::{
    announces_pending_work, barren_correction, batch_correction, budget_notice, is_tool_unsupported,
    rejects_tools, ASK_USER_ADVICE, DANGLING_INTENT_CORRECTION, DEGENERATE_CORRECTION,
    EMPTY_CORRECTION, FORCED_ANSWER, LOOP_CORRECTION, MAX_DEGENERATE_RETRIES, MAX_EMPTY_ROUNDS,
    MAX_ROUND_EXTENSIONS, ModelFailure, PROMISED_WORK_KICK, RETRY_ADVICE, SILENT_MODEL,
    SINGLE_LOOKUP_ROUNDS,
};
use crate::text::affix::is_blank;
use crate::text::cut::{truncate, truncated};
use crate::text::pieces::{count_chars, join};
use crate::text::{opt, same, texts};
use crate::turn::wire_laws::a_result_answers_its_call;
use crate::turn::{
    advice_effects, advised, answer_effects, answered, as_typed, budget_due, budget_said,
    call_event, call_events, calling_message, close_effects, close_step, failed, failure_step,
    forced_reply, injected, injected_effects, kept_reasoning, last_reply, lookups_after, opening,
    opens_on_a_promise, reasoning, reasoning_effects, replied, reply_effects, reply_step,
    result_effects, result_of, round_closed, round_opened, said_record, shown, spoken, started,
    steer_effect, thinking_value, token_value, tools_effects, wire_with, with_result, Advice,
    CloseStep, FailureStep, INTERNAL_RESULT, Injected, MAX_TOOL_RESULT_CHARS, Phase, Reply,
    ReplyStep, RoundInfo, Turn, TurnV,
};

verus! {

fn reply_before(history: &Vec<ChatMessage>) -> (r: Option<String>)
    ensures
        opt(r) == last_reply(messages(history@)),
{
    let ghost all = messages(history@);
    let mut n: usize = history.len();
    assert(all.take(n as int) =~= all);
    while n > 0
        invariant
            n <= history@.len(),
            all == messages(history@),
            last_reply(all.take(n as int)) == last_reply(all),
        decreases n,
    {
        proof {
            assert(all.take(n as int).last() == history@[n - 1]@);
            assert(all.take(n as int).drop_last() =~= all.take(n - 1));
        }
        if same(history[n - 1].role.as_str(), "assistant") {
            return Some(history[n - 1].text.clone());
        }
        n -= 1;
    }
    None
}

/// The readable thinking of a reply.
pub fn reasoning_text(thoughts: &Vec<String>) -> (r: String)
    ensures
        r@ == reasoning(texts(thoughts@)),
{
    join(thoughts, "\n\n")
}

/// The thinking that is kept with a reply, if it has any.
pub fn reasoning_record(thoughts: &Vec<String>, duration_ms: u64) -> (r: Option<ReasoningRecord>)
    ensures
        thought(r) == kept_reasoning(texts(thoughts@), duration_ms),
{
    let text = reasoning_text(thoughts);
    if text.as_str().is_empty() {
        return None;
    }
    let tokens = estimate_reasoning_tokens(count_chars(text.as_str()));
    Some(ReasoningRecord { text, tokens: Some(tokens), duration_ms: Some(duration_ms) })
}

/// What is shown of the thinking once the round closes.
fn emit_reasoning(reply: &Reply, info: RoundInfo) -> (r: Vec<Effect>)
    ensures
        effects(r@) == reasoning_effects(reply@, info),
{
    let mut out = no_effects();
    if info.streamed_reasoning {
        add_effect(
            &mut out,
            Effect::Emit(
                Fields::new().text("type", "reasoning_done").with(
                    "tokens",
                    Json::Number(estimate_reasoning_tokens(info.reasoning_chars)),
                ).with("duration_ms", Json::Number(info.duration_ms)).json(),
            ),
        );
        return out;
    }
    let text = reasoning_text(&reply.thoughts);
    if !text.as_str().is_empty() {
        let tokens = estimate_reasoning_tokens(count_chars(text.as_str()));
        add_effect(
            &mut out,
            Effect::Emit(
                Fields::new().text("type", "reasoning").text("content", text.as_str()).with(
                    "tokens",
                    Json::Number(tokens),
                ).with("duration_ms", Json::Number(info.duration_ms)).json(),
            ),
        );
    }
    out
}

/// How text that may have been streamed already is shown.
fn show(text: &str, streamed: bool) -> (r: Effect)
    ensures
        r@ == shown(text@, streamed),
{
    if streamed {
        Effect::Emit(Fields::new().text("type", "token").text("content", "\n\n").json())
    } else {
        Effect::Emit(Fields::new().text("type", "text").text("content", text).json())
    }
}

/// The text of a reply that says anything.
pub fn spoken_text(content: &Option<String>) -> (r: Option<String>)
    ensures
        opt(r) == spoken(opt(*content)),
{
    match content {
        Some(text) => if is_blank(text.as_str()) {
            None
        } else {
            Some(text.clone())
        },
        None => None,
    }
}

/// The event for a piece of text as it arrives.
pub fn token_event(delta: &str) -> (r: Json)
    ensures
        r@ == JsonV::Obj(
            Seq::empty().push(("type"@, JsonV::Str("token"@))).push(
                ("content"@, JsonV::Str(delta@)),
            ),
        ),
        r@ == token_value(delta@),
{
    Fields::new().text("type", "token").text("content", delta).json()
}

/// The event for a piece of thinking as it arrives; `chars` counts all of the
/// thinking so far.
pub fn reasoning_delta_event(delta: &str, chars: usize) -> (r: Json)
    ensures
        r@ == JsonV::Obj(
            Seq::empty().push(("type"@, JsonV::Str("reasoning_delta"@))).push(
                ("content"@, JsonV::Str(delta@)),
            ).push(
                ("tokens"@, JsonV::Number(crate::message::tokens_in(chars as int) as u64)),
            ),
        ),
        r@ == thinking_value(delta@, chars as int),
{
    Fields::new().text("type", "reasoning_delta").text("content", delta).with(
        "tokens",
        Json::Number(estimate_reasoning_tokens(chars)),
    ).json()
}

fn said_text(
    text: &str,
    with_annotations: bool,
    reply: &Reply,
    info: RoundInfo,
) -> (r: Effect)
    ensures
        r@ == said_record(
            text@,
            if with_annotations {
                reply@.annotations
            } else {
                Seq::empty()
            },
            reply@,
            info,
        ),
{
    let annotations = if with_annotations {
        copy_annotations(&reply.annotations)
    } else {
        Vec::new()
    };
    let tool_calls: Vec<ToolCall> = Vec::new();
    proof {
        assert(calls(tool_calls@) =~= Seq::empty());
        if !with_annotations {
            assert(crate::message::citations(annotations@) =~= Seq::empty());
        }
    }
    Effect::Assistant(
        AssistantRecord {
            content: Some(text.to_owned()),
            tool_calls,
            annotations,
            reasoning: reasoning_record(&reply.thoughts, info.duration_ms),
            usage: info.usage,
        },
    )
}

fn typed_messages(typed: &Vec<String>) -> (r: Vec<Injected>)
    ensures
        injected(r@) == as_typed(texts(typed@)),
{
    let mut out: Vec<Injected> = Vec::new();
    let mut i: usize = 0;
    while i < typed.len()
        invariant
            i <= typed@.len(),
            out@.len() == i,
            forall|k: int|
                0 <= k < i ==> (#[trigger] out@[k]).content@ == typed@[k]@ && out@[k].wire@
                    == JsonV::Str(typed@[k]@),
        decreases typed.len() - i,
    {
        let wire = Json::text(typed[i].as_str());
        out.push(Injected { content: typed[i].clone(), wire });
        i += 1;
    }
    assert(injected(out@) =~= as_typed(texts(typed@)));
    out
}

impl Turn {
    fn say(&mut self, m: Json)
        ensures
            final(self)@ == old(self)@.said(m@),
    {
        self.wire.push(m);
        assert(items(self.wire@) =~= items(old(self).wire@).push(m@));
    }

    fn steer(&mut self, out: &mut Vec<Effect>, content: String)
        ensures
            final(self)@ == old(self)@.steered(content@),
            effects(final(out)@) == effects(old(out)@).push(EffectV::System(content@)),
    {
        add_effect(out, Effect::System(content.clone()));
        self.say(message_json("user", Json::Str(content)));
    }

    /// Begin a turn: the system prompt, the history, and a kick into acting
    /// when the last reply was a promise.
    pub fn start(
        system: &str,
        history: &Vec<ChatMessage>,
        plan: PlanSnapshot,
        max_tool_rounds: usize,
    ) -> (r: (Turn, Vec<Effect>))
        requires
            1 <= max_tool_rounds,
            max_tool_rounds * 3 <= usize::MAX,
        ensures
            r.0@ == started(
                system@,
                messages(history@),
                plan@,
                max_tool_rounds as int,
                opens_on_a_promise(messages(history@)),
            ),
            r.0@.wf(),
            effects(r.1@) == if opens_on_a_promise(messages(history@)) {
                steer_effect(PROMISED_WORK_KICK@)
            } else {
                Seq::empty()
            },
    {
        let kick = match reply_before(history) {
            Some(text) => announces_pending_work(text.as_str()),
            None => false,
        };
        Turn::start_kicked(system, history, plan, max_tool_rounds, kick)
    }

    /// [`Turn::start`] once it is known whether the last reply was a promise.
    pub fn start_kicked(
        system: &str,
        history: &Vec<ChatMessage>,
        plan: PlanSnapshot,
        max_tool_rounds: usize,
        kick: bool,
    ) -> (r: (Turn, Vec<Effect>))
        requires
            1 <= max_tool_rounds,
            max_tool_rounds * 3 <= usize::MAX,
        ensures
            r.0@ == started(system@, messages(history@), plan@, max_tool_rounds as int, kick),
            r.0@.wf(),
            effects(r.1@) == if kick {
                steer_effect(PROMISED_WORK_KICK@)
            } else {
                Seq::empty()
            },
    {
        let mut wire: Vec<Json> = Vec::new();
        wire.push(message_json("system", Json::text(system)));
        let ghost all = messages(history@);
        let ghost want = opening(system@, all);
        let mut i: usize = 0;
        assert(items(wire@) =~= want.take(1));
        while i < history.len()
            invariant
                i <= history@.len(),
                all == messages(history@),
                want == opening(system@, all),
                items(wire@) == want.take(i + 1),
            decreases history.len() - i,
        {
            let ghost had = items(wire@);
            let one = history[i].wire();
            wire.push(one);
            proof {
                assert(items(wire@) =~= had.push(one@));
                assert(want[i + 1] == message(all[i as int].role, all[i as int].content));
                assert(want.take(i + 2) =~= want.take(i + 1).push(want[i + 1]));
            }
            i += 1;
        }
        assert(want.take(want.len() as int) =~= want);
        let mut turn = Turn {
            wire,
            phase: Phase::Ready,
            round: 0,
            round_cap: max_tool_rounds,
            max_tool_rounds,
            plan_at_extension: plan,
            extensions: 0,
            no_progress: NoProgress::new(),
            budget_told: false,
            empties: 0,
            degenerations: 0,
            promised: 0,
            single_lookups: 0,
            batch_nudged: false,
        };
        let mut out = no_effects();
        if kick {
            turn.steer(&mut out, PROMISED_WORK_KICK.to_owned());
        }
        (turn, out)
    }

    /// Open the next round, or say that there is none. `now` is the plan at
    /// this moment.
    pub fn open_round(&mut self, now: PlanSnapshot) -> (go_on: bool)
        requires
            old(self)@.wf(),
            old(self)@.phase == Phase::Ready,
        ensures
            (final(self)@, go_on) == round_opened(old(self)@, now@),
            final(self)@.wf(),
            go_on ==> final(self)@.phase == Phase::Open,
    {
        if self.round >= self.round_cap {
            if self.extensions < MAX_ROUND_EXTENSIONS && plan_unfinished(&now) && !same_snapshot(
                &now,
                &self.plan_at_extension,
            ) {
                proof {
                    assert(self.max_tool_rounds * (1 + self.extensions) + self.max_tool_rounds
                        == self.max_tool_rounds * (2 + self.extensions)) by (nonlinear_arith);
                    assert(self.max_tool_rounds * (2 + self.extensions) <= self.max_tool_rounds
                        * 3) by (nonlinear_arith)
                        requires
                            self.extensions < 2,
                    ;
                }
                self.plan_at_extension = now;
                self.extensions += 1;
                self.round_cap += self.max_tool_rounds;
            } else {
                self.phase = Phase::Ended;
                return false;
            }
        }
        proof {
            assert(self.max_tool_rounds * (1 + self.extensions) <= self.max_tool_rounds * 3)
                by (nonlinear_arith)
                requires
                    self.extensions <= 2,
            ;
        }
        self.round += 1;
        self.phase = Phase::Open;
        true
    }

    /// Take the advice of a check of the turn. It can end the turn or steer it,
    /// never extend it.
    pub fn take_advice(&mut self, advice: Advice) -> (r: Vec<Effect>)
        requires
            old(self)@.wf(),
            old(self)@.phase == Phase::Open,
        ensures
            final(self)@ == advised(old(self)@, advice),
            final(self)@.wf(),
            effects(r@) == advice_effects(advice),
    {
        let mut out = no_effects();
        match advice {
            Advice::Nothing => {},
            Advice::Retry => {
                self.steer(&mut out, RETRY_ADVICE.to_owned());
            },
            Advice::AskUser => {
                self.steer(&mut out, ASK_USER_ADVICE.to_owned());
            },
            Advice::Stop => {
                self.phase = Phase::Ended;
            },
        }
        out
    }

    fn let_in_to(&mut self, out: &mut Vec<Effect>, pending: &Vec<Injected>)
        ensures
            final(self)@ == (TurnV {
                wire: wire_with(old(self)@.wire, injected(pending@), pending@.len()),
                ..old(self)@
            }),
            effects(final(out)@) == effects(old(out)@) + injected_effects(
                injected(pending@),
                pending@.len(),
            ),
    {
        let ghost all = injected(pending@);
        let ghost before = effects(out@);
        let ghost start = self@;
        let mut i: usize = 0;
        assert(before + injected_effects(all, 0) =~= before);
        while i < pending.len()
            invariant
                i <= pending@.len(),
                all == injected(pending@),
                self@ == (TurnV { wire: wire_with(start.wire, all, i as nat), ..start }),
                effects(out@) == before + injected_effects(all, i as nat),
            decreases pending.len() - i,
        {
            let content = pending[i].content.as_str();
            let event = Fields::new().text("type", "injected").text("content", content).json();
            add_effect(out, Effect::Emit(event));
            add_effect(out, Effect::User(content.to_owned()));
            self.say(message_json("user", pending[i].wire.copy()));
            i += 1;
            proof {
                assert(effects(out@) =~= before + injected_effects(all, i as nat));
            }
        }
    }

    /// Messages the user sent during the turn join before the next request.
    pub fn let_in(&mut self, pending: &Vec<Injected>) -> (r: Vec<Effect>)
        requires
            old(self)@.wf(),
        ensures
            final(self)@ == (TurnV {
                wire: wire_with(old(self)@.wire, injected(pending@), pending@.len()),
                ..old(self)@
            }),
            final(self)@.wf(),
            effects(r@) == injected_effects(injected(pending@), pending@.len()),
    {
        let mut out = no_effects();
        self.let_in_to(&mut out, pending);
        assert(Seq::<EffectV>::empty() + injected_effects(injected(pending@), pending@.len())
            =~= injected_effects(injected(pending@), pending@.len()));
        out
    }

    /// Tell the model its round budget, once, halfway through it.
    pub fn tell_budget(&mut self) -> (r: Vec<Effect>)
        requires
            old(self)@.wf(),
            old(self)@.phase == Phase::Open,
        ensures
            final(self)@ == budget_said(old(self)@),
            final(self)@.wf(),
            effects(r@) == if budget_due(old(self)@) {
                steer_effect(
                    crate::steering::budget_text(
                        (old(self)@.round - 1) as nat,
                        old(self)@.round_cap as nat,
                    ),
                )
            } else {
                Seq::empty()
            },
    {
        let mut out = no_effects();
        let spent: usize = self.round - 1;
        if !self.budget_told && spent > 0 && spent >= self.round_cap - spent {
            self.budget_told = true;
            self.steer(&mut out, budget_notice(spent, self.round_cap));
        }
        out
    }

    /// Put back the wire after old results were evicted from it.
    pub fn evicted(&mut self, wire: Vec<Json>)
        requires
            old(self)@.wf(),
        ensures
            final(self)@ == (TurnV { wire: items(wire@), ..old(self)@ }),
            final(self)@.wf(),
    {
        self.wire = wire;
    }

    /// Decide what to do about a request that failed.
    pub fn model_failed(&mut self, failure: &ModelFailure) -> (r: (FailureStep, Vec<Effect>))
        requires
            old(self)@.wf(),
            old(self)@.phase == Phase::Open,
        ensures
            r.0 == failure_step(
                old(self)@,
                rejects_tools(failure.degenerate, failure.text@),
                failure.degenerate,
            ),
            final(self)@ == failed(
                old(self)@,
                rejects_tools(failure.degenerate, failure.text@),
                failure.degenerate,
            ),
            final(self)@.wf(),
            effects(r.1@) == if r.0 == FailureStep::Again {
                steer_effect(DEGENERATE_CORRECTION@)
            } else {
                Seq::empty()
            },
    {
        let unsupported = is_tool_unsupported(failure);
        self.settle_failure(unsupported, failure.degenerate)
    }

    /// [`Turn::model_failed`] once it is known whether tools were rejected.
    pub fn settle_failure(&mut self, unsupported: bool, degenerate: bool) -> (r: (
        FailureStep,
        Vec<Effect>,
    ))
        requires
            old(self)@.wf(),
            old(self)@.phase == Phase::Open,
        ensures
            r.0 == failure_step(old(self)@, unsupported, degenerate),
            final(self)@ == failed(old(self)@, unsupported, degenerate),
            final(self)@.wf(),
            effects(r.1@) == if r.0 == FailureStep::Again {
                steer_effect(DEGENERATE_CORRECTION@)
            } else {
                Seq::empty()
            },
    {
        let mut out = no_effects();
        if self.round == 1 && unsupported {
            self.phase = Phase::Ended;
            return (FailureStep::PlainChat, out);
        }
        if !degenerate {
            self.phase = Phase::Ended;
            return (FailureStep::Fail, out);
        }
        self.degenerations += 1;
        if self.degenerations > MAX_DEGENERATE_RETRIES {
            self.phase = Phase::Ended;
            return (FailureStep::Fail, out);
        }
        self.steer(&mut out, DEGENERATE_CORRECTION.to_owned());
        self.phase = Phase::Ready;
        (FailureStep::Again, out)
    }

    /// Decide what to do about a reply.
    pub fn take_reply(&mut self, reply: &Reply, info: RoundInfo) -> (r: (ReplyStep, Vec<Effect>))
        requires
            old(self)@.wf(),
            old(self)@.phase == Phase::Open,
        ensures
            r.0 == reply_step(old(self)@, reply@),
            final(self)@ == replied(old(self)@, reply@),
            final(self)@.wf(),
            effects(r.1@) == reply_effects(old(self)@, reply@, info),
    {
        let mut out = emit_reasoning(reply, info);
        if reply.tool_calls.len() > 0 {
            self.empties = 0;
            self.phase = Phase::Tools;
            return (ReplyStep::Tools, out);
        }
        let text = match spoken_text(&reply.content) {
            Some(text) => text,
            None => {
                self.empties += 1;
                if self.empties > MAX_EMPTY_ROUNDS {
                    self.phase = Phase::Ended;
                    return (ReplyStep::ForceAnswer, out);
                }
                self.steer(&mut out, EMPTY_CORRECTION.to_owned());
                self.phase = Phase::Ready;
                return (ReplyStep::Again, out);
            },
        };
        if self.promised < 2 && announces_pending_work(text.as_str()) {
            self.promised += 1;
            self.empties = 0;
            add_effect(&mut out, said_text(text.as_str(), false, reply, info));
            add_effect(&mut out, show(text.as_str(), info.streamed));
            self.say(message_json("assistant", Json::Str(text)));
            self.steer(&mut out, DANGLING_INTENT_CORRECTION.to_owned());
            self.phase = Phase::Ready;
            return (ReplyStep::Again, out);
        }
        (ReplyStep::Answer, out)
    }

    /// Let an answer stand, unless the user sent messages while it formed: then
    /// it is banked, they follow it as they were typed, and the turn goes on. True when the turn is over.
    pub fn answer(
        &mut self,
        reply: &Reply,
        text: &str,
        info: RoundInfo,
        typed: &Vec<String>,
    ) -> (r: (bool, Vec<Effect>))
        requires
            old(self)@.wf(),
            old(self)@.phase == Phase::Open,
        ensures
            r.0 == (typed@.len() == 0),
            final(self)@ == answered(old(self)@, text@, texts(typed@)),
            final(self)@.wf(),
            effects(r.1@) == answer_effects(reply@, text@, info, texts(typed@)),
    {
        let mut out = no_effects();
        if reply.annotations.len() > 0 {
            add_effect(&mut out, Effect::Emit(emit_citations(&reply.annotations)));
        }
        add_effect(&mut out, said_text(text, true, reply, info));
        if typed.len() == 0 {
            self.phase = Phase::Ended;
            return (true, out);
        }
        add_effect(&mut out, show(text, info.streamed));
        self.say(message_json("assistant", Json::text(text)));
        self.phase = Phase::Ready;
        let pending = typed_messages(typed);
        assert(injected(pending@).len() == pending@.len());
        self.let_in_to(&mut out, &pending);
        (false, out)
    }

    /// Put a reply's calls on the wire. `internal` says of each call whether it
    /// is hidden from the user.
    pub fn open_tools(
        &mut self,
        reply: &Reply,
        info: RoundInfo,
        internal: &Vec<bool>,
    ) -> (r: Vec<Effect>)
        requires
            old(self)@.wf(),
            old(self)@.phase == Phase::Tools,
            internal@.len() == reply.tool_calls@.len(),
        ensures
            final(self)@ == old(self)@.said(calling_message(reply@)),
            final(self)@.wf(),
            effects(r@) == tools_effects(reply@, info, internal@),
    {
        let mut out = no_effects();
        add_effect(
            &mut out,
            Effect::Assistant(
                AssistantRecord {
                    content: reply.content.clone(),
                    tool_calls: copy_calls(&reply.tool_calls),
                    annotations: copy_annotations(&reply.annotations),
                    reasoning: reasoning_record(&reply.thoughts, info.duration_ms),
                    usage: info.usage,
                },
            ),
        );
        match spoken_text(&reply.content) {
            Some(text) => {
                add_effect(&mut out, show(text.as_str(), info.streamed));
            },
            None => {},
        }
        let base = Fields::new().text("role", "assistant").with(
            "content",
            Json::opt_text(&reply.content),
        ).with("tool_calls", calls_json(&reply.tool_calls));
        let assistant = if reply.reasoning_details.len() > 0 {
            base.with(
                "reasoning_details",
                Json::array(copy_items(&reply.reasoning_details)),
            ).json()
        } else {
            base.json()
        };
        self.say(assistant);
        let ghost before = effects(out@);
        let ghost all = calls(reply.tool_calls@);
        let mut i: usize = 0;
        assert(before + call_events(all, internal@, 0) =~= before);
        while i < reply.tool_calls.len()
            invariant
                i <= reply.tool_calls@.len(),
                internal@.len() == reply.tool_calls@.len(),
                all == calls(reply.tool_calls@),
                effects(out@) == before + call_events(all, internal@, i as nat),
            decreases reply.tool_calls.len() - i,
        {
            if !internal[i] {
                let call = &reply.tool_calls[i];
                let event = Fields::new().text("type", "tool_call").text(
                    "id",
                    call.id.as_str(),
                ).text("name", call.name.as_str()).text(
                    "arguments",
                    call.arguments.as_str(),
                ).json();
                assert(event@ == call_event(all[i as int]));
                add_effect(&mut out, Effect::Emit(event));
            }
            i += 1;
            assert(effects(out@) =~= before + call_events(all, internal@, i as nat));
        }
        out
    }

    /// Take a tool's result, with anything secret already taken out of it. Gives
    /// back the call as it counts for the round.
    pub fn tool_result(
        &mut self,
        call: &ToolCall,
        output: &str,
        images: &Vec<String>,
        internal: bool,
    ) -> (r: (RoundCall, Vec<Effect>))
        requires
            old(self)@.wf(),
            old(self)@.phase == Phase::Tools,
        ensures
            r.0.name@ == call.name@,
            r.0.arguments@ == call.arguments@,
            r.0.result@ == truncated(output@, MAX_TOOL_RESULT_CHARS as int),
            final(self)@ == with_result(
                old(self)@,
                call@,
                truncated(output@, MAX_TOOL_RESULT_CHARS as int),
                texts(images@),
            ),
            final(self)@.wf(),
            effects(r.1@) == result_effects(
                call@,
                truncated(output@, MAX_TOOL_RESULT_CHARS as int),
                images@.len() as u64,
                internal,
            ),
            r.0.result@ == result_of(output@),
            final(self)@ == with_result(old(self)@, call@, result_of(output@), texts(images@)),
            effects(r.1@) == result_effects(
                call@,
                result_of(output@),
                images@.len() as u64,
                internal,
            ),
            final(self)@.wire[old(self)@.wire.len() as int].text_at("role"@) == Some("tool"@),
            final(self)@.wire[old(self)@.wire.len() as int].text_at("tool_call_id"@) == Some(call@.id),
            final(self)@.wire[old(self)@.wire.len() as int].text_at("content"@) == Some(
                result_of(output@),
            ),
    {
        let result = truncate(output, MAX_TOOL_RESULT_CHARS);
        let mut out = no_effects();
        if internal {
            add_effect(&mut out, Effect::Tool(call.id.clone(), INTERNAL_RESULT.to_owned()));
        } else {
            let event = Fields::new().text("type", "tool_result").text(
                "id",
                call.id.as_str(),
            ).text("name", call.name.as_str()).text("result", result.as_str()).with(
                "error",
                Json::Bool(error_result(result.as_str())),
            ).with("images", Json::Number(images.len() as u64)).json();
            add_effect(&mut out, Effect::Emit(event));
            add_effect(&mut out, Effect::Tool(call.id.clone(), result.clone()));
        }
        let back = Fields::new().text("role", "tool").text("tool_call_id", call.id.as_str()).text(
            "content",
            result.as_str(),
        ).json();
        self.say(back);
        if images.len() > 0 {
            retire_old_images(&mut self.wire, LIVE_IMAGES);
            self.say(image_turn(call.name.as_str(), images));
        }
        proof {
            a_result_answers_its_call(old(self)@, call@, result@, texts(images@));
        }
        (
            RoundCall { name: call.name.clone(), arguments: call.arguments.clone(), result },
            out,
        )
    }

    /// Look back on a round whose calls have all run. `barren` says of each
    /// result whether it is one that found nothing.
    pub fn close_round(&mut self, round: &Vec<RoundCall>, barren: &Vec<bool>) -> (r: (
        CloseStep,
        Vec<Effect>,
    ))
        requires
            old(self)@.wf(),
            old(self)@.phase == Phase::Tools,
            barren@.len() == round@.len(),
        ensures
            r.0 == close_step(old(self)@, round_view(round@), barren@),
            final(self)@ == round_closed(old(self)@, round_view(round@), barren@),
            final(self)@.wf(),
            effects(r.1@) == close_effects(old(self)@, round_view(round@), barren@),
    {
        let mut out = no_effects();
        let ghost start = self@;
        let ghost view = round_view(round@);
        if round.len() == 1 && read_tool(round[0].name.as_str()) {
            assert(view[0].0 == round@[0].name@);
            self.single_lookups += 1;
        } else {
            assert(view.len() == 1 ==> view[0].0 == round@[0].name@);
            self.single_lookups = 0;
        }
        let verdict = self.no_progress.feed(
            round_signature(round),
            round_all_errors(round),
            is_productive_round(round) || round_found_something(round, barren),
        );
        assert(verdict == crate::turn::round_verdict(start, view, barren@));
        assert(self.single_lookups == lookups_after(start, view));
        match verdict {
            RoundVerdict::Continue => {
                self.phase = Phase::Ready;
                if !self.batch_nudged && self.single_lookups >= SINGLE_LOOKUP_ROUNDS {
                    self.batch_nudged = true;
                    self.steer(&mut out, batch_correction(self.single_lookups));
                }
                (CloseStep::Next, out)
            },
            RoundVerdict::Correct => {
                self.phase = Phase::Ready;
                self.steer(&mut out, LOOP_CORRECTION.to_owned());
                (CloseStep::Next, out)
            },
            RoundVerdict::Abort => {
                self.phase = Phase::Ended;
                (CloseStep::Fail, out)
            },
            RoundVerdict::Nudge(streak) => {
                self.phase = Phase::Ready;
                self.steer(&mut out, barren_correction(streak));
                (CloseStep::Next, out)
            },
            RoundVerdict::Wrap => {
                self.phase = Phase::Ended;
                (CloseStep::ForceAnswer, out)
            },
        }
    }

    /// Ask for an answer without tools, when the turn ended without one.
    pub fn force_answer(&mut self) -> (r: Vec<Effect>)
        requires
            old(self)@.wf(),
            old(self)@.phase == Phase::Ended,
        ensures
            final(self)@ == old(self)@.steered(FORCED_ANSWER@),
            final(self)@.wf(),
            effects(r@) == steer_effect(FORCED_ANSWER@),
    {
        let mut out = no_effects();
        self.steer(&mut out, FORCED_ANSWER.to_owned());
        out
    }
}

/// The reply that a forced answer comes to, and how it is kept.
pub fn final_reply(content: &Option<String>) -> (r: (String, Effect))
    ensures
        r.0@ == forced_reply(opt(*content)),
        r.1@ == EffectV::Assistant(
            AssistantV {
                content: Some(forced_reply(opt(*content))),
                tool_calls: Seq::empty(),
                annotations: Seq::empty(),
                reasoning: None,
                usage: None,
            },
        ),
{
    let reply = match spoken_text(content) {
        Some(text) => text,
        None => SILENT_MODEL.to_owned(),
    };
    let record = AssistantRecord {
        content: Some(reply.clone()),
        tool_calls: Vec::new(),
        annotations: Vec::new(),
        reasoning: None,
        usage: None,
    };
    assert(record@.tool_calls =~= Seq::empty());
    assert(record@.annotations =~= Seq::empty());
    (reply, Effect::Assistant(record))
}

} // verus!
