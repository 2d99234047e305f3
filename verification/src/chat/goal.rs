//! A goal: turns that run until a judge deems a condition met.

use vstd::prelude::*;

use crate::json::{items, message, Fields, Json, JsonV};
use crate::message::{
    add_effect, effects, messages, no_effects, plain_message, ChatMessage, Effect, EffectV,
    MessageV,
};
use crate::text::affix::{after_prefix, strip_prefix};
use crate::text::number::{dec, decimal_usize};
use crate::text::{cat2, cat3};

verus! {

/// What a summary of earlier turns opens with.
pub const SUMMARY_LEAD: &'static str = "Summary of earlier conversation:\n";

/// The event that tells of a goal.
pub open spec fn goal_event(condition: Seq<char>, max_turns: u64) -> JsonV {
    JsonV::Obj(
        Seq::empty().push(("type"@, JsonV::Str("goal_set"@))).push(
            ("condition"@, JsonV::Str(condition)),
        ).push(("max_turns"@, JsonV::Number(max_turns))),
    )
}

/// A goal is told with its condition and how many tries it has.
pub proof fn a_goal_is_told(condition: Seq<char>, max_turns: u64)
    ensures
        goal_event(condition, max_turns).text_at("type"@) == Some("goal_set"@),
        goal_event(condition, max_turns).text_at("condition"@) == Some(condition),
        goal_event(condition, max_turns).unsigned_at("max_turns"@) == Some(max_turns),
{
    broadcast use {crate::json::found_after_push, crate::json::nothing_in_nothing};

    reveal_strlit("type");
    reveal_strlit("condition");
    reveal_strlit("max_turns");
    assert("type"@.len() == 4 && "condition"@.len() == 9 && "max_turns"@.len() == 9);
    assert("condition"@[0] == 'c' && "max_turns"@[0] == 'm');
}

/// The event that announces a goal.
pub fn goal_set(condition: &str, max_turns: usize) -> (r: Json)
    ensures
        r@ == JsonV::Obj(
            Seq::empty().push(("type"@, JsonV::Str("goal_set"@))).push(
                ("condition"@, JsonV::Str(condition@)),
            ).push(("max_turns"@, JsonV::Number(max_turns as u64))),
        ),
        r@ == goal_event(condition@, max_turns as u64),
{
    Fields::new().text("type", "goal_set").text("condition", condition).with(
        "max_turns",
        Json::Number(max_turns as u64),
    ).json()
}

/// The event that gives a verdict on a goal.
pub open spec fn verdict_event(
    verdict: Seq<char>,
    reason: Seq<char>,
    turn: u64,
    last: bool,
) -> JsonV {
    JsonV::Obj(
        Seq::empty().push(("type"@, JsonV::Str("goal_verdict"@))).push(
            ("verdict"@, JsonV::Str(verdict)),
        ).push(("reason"@, JsonV::Str(reason))).push(("turn"@, JsonV::Number(turn))).push(
            ("final"@, JsonV::Bool(last)),
        ),
    )
}

fn goal_verdict(verdict: &str, reason: &str, turn: usize, last: bool) -> (r: Json)
    ensures
        r@ == verdict_event(verdict@, reason@, turn as u64, last),
{
    Fields::new().text("type", "goal_verdict").text("verdict", verdict).text(
        "reason",
        reason,
    ).with("turn", Json::Number(turn as u64)).with("final", Json::Bool(last)).json()
}

/// What a judge found.
pub enum Judgment {
    /// The check itself failed.
    Failed(String),
    /// The condition is not met yet.
    NotYet { word: String, reason: String },
    /// The condition is settled, one way or the other.
    Settled { word: String, reason: String },
}

/// The turns of one run.
#[derive(Clone, Copy, PartialEq, Eq, Structural, Debug)]
pub struct GoalLoop {
    pub has_goal: bool,
    pub max_turns: usize,
    pub turns: usize,
}

/// What is to be done after a turn.
pub enum GoalStep {
    /// The run is over.
    Finish,
    /// The run is over, and this is said about it.
    GiveUp(Json),
    /// Ask the judge.
    Judge,
}

/// True when `now` is the loop after one more turn, and `s` what follows it.
pub open spec fn turn_counted(was: GoalLoop, now: GoalLoop, s: GoalStep) -> bool {
    &&& now == (GoalLoop { turns: (was.turns + 1) as usize, ..was })
    &&& !was.has_goal ==> s is Finish
    &&& was.has_goal && now.turns >= was.max_turns ==> (s matches GoalStep::GiveUp(e) && e@
        == verdict_event(
        "not_yet"@,
        "stopped after "@ + dec(was.max_turns as nat) + " tries without reaching it"@,
        now.turns as u64,
        true,
    ))
    &&& was.has_goal && now.turns < was.max_turns ==> s is Judge
}

/// True when `event` tells what the judge found, and `over` whether that ends the
/// run.
pub open spec fn verdict_told(g: GoalLoop, judgment: Judgment, over: bool, event: JsonV) -> bool {
    match judgment {
        Judgment::Failed(e) => over && event == verdict_event(
            "not_yet"@,
            "couldn't check progress: "@ + e@,
            g.turns as u64,
            true,
        ),
        Judgment::NotYet { word, reason } => !over && event == verdict_event(
            word@,
            reason@,
            g.turns as u64,
            false,
        ),
        Judgment::Settled { word, reason } => over && event == verdict_event(
            word@,
            reason@,
            g.turns as u64,
            true,
        ),
    }
}

impl GoalLoop {
    /// The first turn.
    pub fn new(has_goal: bool, max_turns: usize) -> (r: GoalLoop)
        ensures
            r == (GoalLoop { has_goal, max_turns, turns: 0 }),
    {
        GoalLoop { has_goal, max_turns, turns: 0 }
    }

    /// Count a turn that answered, and decide what follows: without a goal
    /// nothing; with one, the judge, until the turns are used up.
    pub fn turn_done(&mut self) -> (r: GoalStep)
        requires
            old(self).turns < usize::MAX,
        ensures
            *final(self) == (GoalLoop { turns: (old(self).turns + 1) as usize, ..*old(self) }),
            !old(self).has_goal ==> r is Finish,
            old(self).has_goal && final(self).turns >= old(self).max_turns ==> (
            r matches GoalStep::GiveUp(e) && e@ == verdict_event(
                "not_yet"@,
                "stopped after "@ + dec(old(self).max_turns as nat)
                    + " tries without reaching it"@,
                final(self).turns as u64,
                true,
            )),
            old(self).has_goal && final(self).turns < old(self).max_turns ==> r is Judge,
            turn_counted(*old(self), *final(self), r),
    {
        self.turns += 1;
        if !self.has_goal {
            return GoalStep::Finish;
        }
        if self.turns >= self.max_turns {
            let reason = cat3(
                "stopped after ",
                decimal_usize(self.max_turns).as_str(),
                " tries without reaching it",
            );
            return GoalStep::GiveUp(goal_verdict("not_yet", reason.as_str(), self.turns, true));
        }
        GoalStep::Judge
    }

    /// Say what the judge found. True when the run is over.
    pub fn judged(&self, judgment: &Judgment) -> (r: (bool, Json))
        ensures
            match *judgment {
                Judgment::Failed(e) => r.0 && r.1@ == verdict_event(
                    "not_yet"@,
                    "couldn't check progress: "@ + e@,
                    self.turns as u64,
                    true,
                ),
                Judgment::NotYet { word, reason } => !r.0 && r.1@ == verdict_event(
                    word@,
                    reason@,
                    self.turns as u64,
                    false,
                ),
                Judgment::Settled { word, reason } => r.0 && r.1@ == verdict_event(
                    word@,
                    reason@,
                    self.turns as u64,
                    true,
                ),
            },
            verdict_told(*self, *judgment, r.0, r.1@),
    {
        match judgment {
            Judgment::Failed(e) => (
                true,
                goal_verdict(
                    "not_yet",
                    cat2("couldn't check progress: ", e.as_str()).as_str(),
                    self.turns,
                    true,
                ),
            ),
            Judgment::NotYet { word, reason } => (
                false,
                goal_verdict(word.as_str(), reason.as_str(), self.turns, false),
            ),
            Judgment::Settled { word, reason } => (
                true,
                goal_verdict(word.as_str(), reason.as_str(), self.turns, true),
            ),
        }
    }
}

/// A folded history as it is shown.
pub open spec fn wire_messages(v: Seq<MessageV>) -> JsonV {
    JsonV::Arr(Seq::new(v.len(), |i: int| message(v[i].role, v[i].content)))
}

/// A folded history as it is shown.
pub fn messages_json(v: &Vec<ChatMessage>) -> (r: Json)
    ensures
        r@ == wire_messages(messages(v@)),
{
    let ghost all = messages(v@);
    let mut out: Vec<Json> = Vec::new();
    let mut i: usize = 0;
    while i < v.len()
        invariant
            i <= v@.len(),
            all == messages(v@),
            out@.len() == i,
            forall|k: int| 0 <= k < i ==> #[trigger] out@[k]@ == message(all[k].role, all[k].content),
        decreases v.len() - i,
    {
        out.push(v[i].wire());
        i += 1;
    }
    assert(items(out@) =~= wire_messages(all)->Arr_0);
    Json::array(out)
}

/// The summary that a folded history opens with.
pub open spec fn summary_of(folded: Seq<MessageV>) -> Seq<char> {
    let raw = if folded.len() > 0 {
        folded[0].text
    } else {
        Seq::empty()
    };
    match after_prefix(raw, SUMMARY_LEAD@) {
        Some(rest) => rest,
        None => raw,
    }
}

/// The event that tells of a folded history; `before` messages were there.
pub open spec fn compacted_event(before: int, folded: Seq<MessageV>) -> JsonV {
    JsonV::Obj(
        Seq::empty().push(("type"@, JsonV::Str("compacted"@))).push(
            ("summary"@, JsonV::Str(summary_of(folded))),
        ).push(("folded"@, JsonV::Number((before + 1 - folded.len()) as u64))).push(
            ("messages"@, wire_messages(folded)),
        ),
    )
}

/// The event that tells of a folded history.
pub fn emit_compacted(before: usize, folded: &Vec<ChatMessage>) -> (r: Json)
    requires
        folded@.len() <= before + 1,
        before < usize::MAX,
    ensures
        r@ == compacted_event(before as int, messages(folded@)),
{
    let raw = if folded.len() > 0 {
        folded[0].text.clone()
    } else {
        String::new()
    };
    assert(folded@.len() == 0 ==> raw@ =~= Seq::empty());
    let summary = match strip_prefix(raw.as_str(), SUMMARY_LEAD) {
        Some(rest) => rest,
        None => raw,
    };
    let count: usize = before + 1 - folded.len();
    Fields::new().text("type", "compacted").text("summary", summary.as_str()).with(
        "folded",
        Json::Number(count as u64),
    ).with("messages", messages_json(folded)).json()
}

/// The history a goal goes on from: the folded one where the turn folded it,
/// then the reply, then the guidance.
pub open spec fn carried_on(
    history: Seq<MessageV>,
    compacted: Option<Seq<MessageV>>,
    reply: Seq<char>,
    steering: Seq<char>,
) -> Seq<MessageV> {
    let base = match compacted {
        Some(c) => c,
        None => history,
    };
    base.push(plain_message("assistant"@, reply)).push(plain_message("user"@, steering))
}

/// Go on with a goal that is not met. The guidance is kept as what the user
/// said.
pub fn carry_on(
    history: &mut Vec<ChatMessage>,
    compacted: Option<Vec<ChatMessage>>,
    reply: &str,
    steering: &str,
) -> (r: Vec<Effect>)
    requires
        compacted is Some ==> compacted.unwrap()@.len() <= old(history)@.len() + 1,
        old(history)@.len() < usize::MAX,
    ensures
        messages(final(history)@) == carried_on(
            messages(old(history)@),
            match compacted {
                Some(c) => Some(messages(c@)),
                None => None,
            },
            reply@,
            steering@,
        ),
        effects(r@) == (match compacted {
            Some(c) => Seq::empty().push(
                EffectV::Emit(compacted_event(old(history)@.len() as int, messages(c@))),
            ),
            None => Seq::empty(),
        }).push(EffectV::User(steering@)),
{
    let mut out = no_effects();
    match compacted {
        Some(c) => {
            add_effect(&mut out, Effect::Emit(emit_compacted(history.len(), &c)));
            *history = c;
        },
        None => {},
    }
    let ghost base = messages(history@);
    history.push(ChatMessage::plain("assistant", reply));
    assert(messages(history@) =~= base.push(plain_message("assistant"@, reply@)));
    let ghost mid = messages(history@);
    add_effect(&mut out, Effect::User(steering.to_owned()));
    history.push(ChatMessage::plain("user", steering));
    assert(messages(history@) =~= mid.push(plain_message("user"@, steering@)));
    out
}

} // verus!
