//! What holds of every turn.

use vstd::prelude::*;

use crate::json::JsonV;
use crate::message::CallV;
use crate::plan::{unfinished, PlanStepStatus};
use crate::steering::{MAX_DEGENERATE_RETRIES, MAX_EMPTY_ROUNDS};
use crate::turn::{
    advised, answered, as_typed, budget_due, budget_said, close_step, failed, failure_step, replied,
    reply_step, round_closed, round_opened, spoken, wire_with, with_result, Advice, CloseStep,
    FailureStep, Phase, ReplyStep, ReplyV, TurnV,
};

verus! {

/// A turn never runs more than three allotments of rounds, whatever its plan
/// does.
pub proof fn rounds_are_bounded(t: TurnV)
    requires
        t.wf(),
    ensures
        t.round <= 3 * t.max_tool_rounds,
{
    assert(t.max_tool_rounds * (1 + t.extensions) <= 3 * t.max_tool_rounds) by (nonlinear_arith)
        requires
            0 <= t.extensions <= 2,
            1 <= t.max_tool_rounds,
    ;
}

/// At the cap a turn goes on only while the plan has work left and has moved
/// since the last extension.
pub proof fn no_extension_without_progress(
    t: TurnV,
    now: Option<Seq<(Seq<char>, PlanStepStatus)>>,
)
    requires
        t.wf(),
        t.round == t.round_cap,
        !unfinished(now) || now == t.plan_at_extension || t.extensions == 2,
    ensures
        round_opened(t, now) == (t.at(Phase::Ended), false),
{
}

/// Within the cap the next round always opens.
pub proof fn rounds_within_the_cap_open(
    t: TurnV,
    now: Option<Seq<(Seq<char>, PlanStepStatus)>>,
)
    requires
        t.wf(),
        t.round < t.round_cap,
    ensures
        round_opened(t, now).1,
        round_opened(t, now).0.round == t.round + 1,
        round_opened(t, now).0.round_cap == t.round_cap,
{
}

/// What one event can make of a turn.
pub open spec fn follows(t: TurnV, u: TurnV) -> bool {
    ||| exists|now: Option<Seq<(Seq<char>, PlanStepStatus)>>|
        u == (#[trigger] round_opened(t, now)).0
    ||| exists|advice: Advice| u == #[trigger] advised(t, advice)
    ||| exists|pending: Seq<(Seq<char>, JsonV)>|
        u == (TurnV { wire: #[trigger] wire_with(t.wire, pending, pending.len()), ..t })
    ||| u == budget_said(t)
    ||| exists|a: bool, b: bool| u == #[trigger] failed(t, a, b)
    ||| exists|r: ReplyV| u == #[trigger] replied(t, r)
    ||| exists|text: Seq<char>, typed: Seq<Seq<char>>| u == #[trigger] answered(t, text, typed)
    ||| exists|m: JsonV| u == #[trigger] t.said(m)
    ||| exists|c: CallV, result: Seq<char>, images: Seq<Seq<char>>|
        u == #[trigger] with_result(t, c, result, images)
    ||| exists|round: Seq<(Seq<char>, Seq<char>, Seq<char>)>, barren: Seq<bool>|
        u == #[trigger] round_closed(t, round, barren)
}

/// What a turn was told it stays told, and its counters of rounds and
/// extensions never go back.
pub proof fn nothing_said_once_is_unsaid(t: TurnV, u: TurnV)
    requires
        t.wf(),
        follows(t, u),
    ensures
        t.budget_told ==> u.budget_told,
        t.batch_nudged ==> u.batch_nudged,
        t.no_progress.corrected ==> u.no_progress.corrected,
        t.no_progress.nudged ==> u.no_progress.nudged,
        t.promised <= u.promised,
        t.degenerations <= u.degenerations,
        t.round <= u.round,
        t.extensions <= u.extensions,
        t.max_tool_rounds == u.max_tool_rounds,
{
}

/// The notice of the round budget is given once: after it, none is due.
pub proof fn budget_is_told_once(t: TurnV, u: TurnV)
    requires
        t.budget_told || (budget_due(t) && u == budget_said(t)),
        t.budget_told ==> u.budget_told,
    ensures
        u.budget_told,
        !budget_due(u),
{
}

/// A reply that promises work is sent back twice at most; the third one stands.
pub proof fn third_promise_stands(t: TurnV, r: ReplyV)
    requires
        t.wf(),
        t.promised == 2,
        r.tool_calls.len() == 0,
        spoken(r.content) is Some,
    ensures
        reply_step(t, r) == ReplyStep::Answer,
        replied(t, r) == t,
{
}

/// A silent model is asked again twice and then for a plain answer; silence
/// alone never fails a turn.
pub proof fn silence_is_asked_again_twice(t: TurnV, r: ReplyV)
    requires
        t.wf(),
        r.tool_calls.len() == 0,
        spoken(r.content) is None,
    ensures
        t.empties < MAX_EMPTY_ROUNDS ==> reply_step(t, r) == ReplyStep::Again && replied(
            t,
            r,
        ).empties == t.empties + 1,
        t.empties >= MAX_EMPTY_ROUNDS ==> reply_step(t, r) == ReplyStep::ForceAnswer,
{
}

/// A degenerate reply after the first round costs a round twice, and the turn
/// the third time.
pub proof fn degenerate_replies_are_steered_twice(t: TurnV, unsupported: bool)
    requires
        t.wf(),
        t.round > 1,
    ensures
        t.degenerations < MAX_DEGENERATE_RETRIES ==> failure_step(t, unsupported, true)
            == FailureStep::Again,
        t.degenerations >= MAX_DEGENERATE_RETRIES ==> failure_step(t, unsupported, true)
            == FailureStep::Fail,
{
}

/// A turn that fails for repeating itself was corrected before.
pub proof fn only_a_corrected_turn_fails(
    t: TurnV,
    round: Seq<(Seq<char>, Seq<char>, Seq<char>)>,
    barren: Seq<bool>,
)
    requires
        t.wf(),
        close_step(t, round, barren) == CloseStep::Fail,
    ensures
        t.no_progress.corrected,
{
}

proof fn lemma_wire_with_prefix(
    wire: Seq<JsonV>,
    pending: Seq<(Seq<char>, JsonV)>,
    n: nat,
)
    ensures
        wire.is_prefix_of(wire_with(wire, pending, n)),
    decreases n,
{
    if n > 0 && n <= pending.len() {
        lemma_wire_with_prefix(wire, pending, (n - 1) as nat);
        let w = wire_with(wire, pending, (n - 1) as nat);
        let z = wire_with(wire, pending, n);
        assert(wire =~= z.subrange(0, wire.len() as int));
    } else {
        assert(wire =~= wire.subrange(0, wire.len() as int));
    }
}

/// Replies, advice, user messages and the end of a round only ever add to the
/// conversation; nothing the model has seen is taken back by them.
pub proof fn conversation_only_grows(
    t: TurnV,
    advice: Advice,
    unsupported: bool,
    degenerate: bool,
    r: ReplyV,
    text: Seq<char>,
    typed: Seq<Seq<char>>,
    round: Seq<(Seq<char>, Seq<char>, Seq<char>)>,
    barren: Seq<bool>,
)
    ensures
        t.wire.is_prefix_of(advised(t, advice).wire),
        t.wire.is_prefix_of(budget_said(t).wire),
        t.wire.is_prefix_of(failed(t, unsupported, degenerate).wire),
        t.wire.is_prefix_of(replied(t, r).wire),
        t.wire.is_prefix_of(answered(t, text, typed).wire),
        t.wire.is_prefix_of(round_closed(t, round, barren).wire),
{
    let n = t.wire.len() as int;
    assert(t.wire =~= t.wire.subrange(0, n));
    assert(t.wire =~= advised(t, advice).wire.subrange(0, n));
    assert(t.wire =~= budget_said(t).wire.subrange(0, n));
    assert(t.wire =~= failed(t, unsupported, degenerate).wire.subrange(0, n));
    assert(t.wire =~= replied(t, r).wire.subrange(0, n));
    assert(t.wire =~= round_closed(t, round, barren).wire.subrange(0, n));
    if typed.len() > 0 {
        let pending = as_typed(typed);
        let u = t.said(crate::json::message("assistant"@, JsonV::Str(text)));
        lemma_wire_with_prefix(u.wire, pending, pending.len());
        let w = answered(t, text, typed).wire;
        assert(u.wire =~= w.subrange(0, u.wire.len() as int));
        assert forall|i: int| 0 <= i < n implies t.wire[i] == w[i] by {
            assert(u.wire[i] == w.subrange(0, u.wire.len() as int)[i]);
        }
        assert(t.wire =~= w.subrange(0, n));
    } else {
        assert(t.wire =~= answered(t, text, typed).wire.subrange(0, n));
    }
}

} // verus!
