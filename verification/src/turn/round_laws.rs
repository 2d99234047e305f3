//! What holds of every round: how it opens, what it comes to, and when a turn is
//! corrected or ended.

use vstd::prelude::*;
use vstd::utf8::{encode_utf8, encode_utf8_decode_utf8};

use crate::json::JsonV;
use crate::message::EffectV;
use crate::rounds::{
    errors_now, found_something, hashed, identical_now, image_lead, image_stub, image_turns,
    images_retired, is_error, is_read_tool, productive, progress_after, retiring_leaves_the_newest,
    verdict_of, NoProgress, RoundVerdict,
};
use crate::steering::{
    asks, barren_text, batch_text, budget_text, last_filled, pending_work, promises,
};
use crate::text::affix::{closes, holds, lemma_holds_between, opens, trimmed, trimmed_end};
use crate::text::case::lowercase;
use crate::text::number::dec;
use crate::text::pieces::{joined, lemma_joined_holds, lines_of};
use crate::turn::wire_laws::steering_rides_a_user_turn;
use crate::turn::{
    advice_effects, advised, answered, budget_due, budget_said, close_effects, close_step,
    closing_words, failed, failure_step, forced_reply, lookups_after, opens_on_a_promise, replied,
    reply_effects, reply_step, round_closed, round_opened, round_verdict, Advice, CloseStep,
    FailureStep, Phase, ReplyStep, ReplyV, RoundInfo, TurnV,
};

verus! {

/// Of the pictures in a conversation the newest stay: one is kept exactly when
/// fewer than `keep` come after it, and else leaves a word in its place.
pub proof fn newer_pictures_push_out_older_ones(
    wire: Seq<JsonV>,
    keep: nat,
    seen: nat,
    i: int,
)
    requires
        0 <= i < wire.len(),
        image_lead(wire[i]) is Some,
    ensures
        images_retired(wire, keep as int, seen as int).len() == wire.len(),
        seen + image_turns(wire.skip(i + 1)) < keep ==> images_retired(
            wire,
            keep as int,
            seen as int,
        )[i] == wire[i],
        seen + image_turns(wire.skip(i + 1)) >= keep ==> images_retired(
            wire,
            keep as int,
            seen as int,
        )[i] == image_stub(image_lead(wire[i]).unwrap()),
    decreases wire.len(),
{
    retiring_leaves_the_newest(wire, keep, seen);
    let head = wire.drop_last();
    let n = wire.len() - 1;
    let next: nat = if image_lead(wire.last()) is Some { seen + 1 } else { seen };
    retiring_leaves_the_newest(head, keep, next);
    if i == n {
        assert(wire.skip(i + 1) =~= Seq::empty());
    } else {
        newer_pictures_push_out_older_ones(head, keep, next, i);
        let after = wire.skip(i + 1);
        assert(after.drop_last() =~= head.skip(i + 1));
        assert(after.last() == wire.last());
    }
}

/// A round that repeats the last one for the third time, or the third in a row
/// of which every call failed, is held against the turn: once with a correction,
/// and then with its end.
pub proof fn three_of_a_kind_are_held_against_a_turn(
    p: NoProgress,
    sig: u64,
    all_errors: bool,
    useful: bool,
)
    ensures
        ({
            let again = p.last_round == Some(sig) && p.identical_rounds >= 2;
            let failing = all_errors && p.error_rounds >= 2;
            let verdict = verdict_of(p, sig, all_errors, useful);
            &&& (again || failing) && !p.corrected ==> verdict == RoundVerdict::Correct
            &&& (again || failing) && p.corrected ==> verdict == RoundVerdict::Abort
            &&& !again && !failing ==> verdict != RoundVerdict::Correct && verdict
                != RoundVerdict::Abort
        }),
{
}

/// Ten rounds in a row that found nothing are answered with a nudge, and ten
/// more with the call for an answer; a round that found something starts the
/// count anew.
pub proof fn barren_rounds_are_held_against_a_turn(
    p: NoProgress,
    sig: u64,
    all_errors: bool,
    useful: bool,
)
    requires
        identical_now(p, sig) < 3,
        errors_now(p, all_errors) < 3,
        p.barren_rounds < usize::MAX,
    ensures
        useful ==> verdict_of(p, sig, all_errors, useful) == RoundVerdict::Continue
            && progress_after(p, sig, all_errors, useful).barren_rounds == 0,
        !useful && p.barren_rounds + 1 < 10 ==> verdict_of(p, sig, all_errors, useful)
            == RoundVerdict::Continue && progress_after(p, sig, all_errors, useful).barren_rounds
            == p.barren_rounds + 1,
        !useful && p.barren_rounds + 1 >= 10 && !p.nudged ==> verdict_of(p, sig, all_errors, useful)
            == RoundVerdict::Nudge((p.barren_rounds + 1) as usize),
        !useful && p.barren_rounds + 1 >= 10 && p.nudged ==> verdict_of(p, sig, all_errors, useful)
            == RoundVerdict::Wrap,
{
}

/// What is counted of rounds: a repeated one adds to its count and another
/// starts it anew; a failed one adds to the failures and any success ends them.
pub proof fn rounds_are_counted(p: NoProgress, sig: u64, all_errors: bool, useful: bool)
    requires
        p.within(usize::MAX - 1),
    ensures
        ({
            let q = progress_after(p, sig, all_errors, useful);
            &&& q.last_round == Some(sig)
            &&& verdict_of(p, sig, all_errors, useful) != RoundVerdict::Correct ==> {
                &&& p.last_round == Some(sig) ==> q.identical_rounds == p.identical_rounds + 1
                &&& p.last_round != Some(sig) ==> q.identical_rounds == 1
                &&& all_errors ==> q.error_rounds == p.error_rounds + 1
                &&& !all_errors ==> q.error_rounds == 0
            }
        }),
{
}

/// What a round is told apart by: the name, the arguments and the result of
/// every one of its calls, in order. Rounds that differ in any of them are fed
/// differently to the hash.
pub proof fn rounds_are_told_apart(
    a: Seq<(Seq<char>, Seq<char>, Seq<char>)>,
    b: Seq<(Seq<char>, Seq<char>, Seq<char>)>,
)
    ensures
        hashed(a, a.len()) == hashed(b, b.len()) ==> a == b,
{
    lemma_hashed(a, a.len());
    lemma_hashed(b, b.len());
    let h = hashed(a, a.len());
    if h == hashed(b, b.len()) {
        assert(a.len() == b.len());
        assert forall|i: int| 0 <= i < a.len() implies a[i] == b[i] by {
            assert(h[6 * i] == encode_utf8(a[i].0) && h[6 * i] == encode_utf8(b[i].0));
            assert(h[6 * i + 2] == encode_utf8(a[i].1) && h[6 * i + 2] == encode_utf8(b[i].1));
            assert(h[6 * i + 4] == encode_utf8(a[i].2) && h[6 * i + 4] == encode_utf8(b[i].2));
            encode_utf8_decode_utf8(a[i].0);
            encode_utf8_decode_utf8(b[i].0);
            encode_utf8_decode_utf8(a[i].1);
            encode_utf8_decode_utf8(b[i].1);
            encode_utf8_decode_utf8(a[i].2);
            encode_utf8_decode_utf8(b[i].2);
        }
        assert(a =~= b);
    }
}

proof fn lemma_hashed(v: Seq<(Seq<char>, Seq<char>, Seq<char>)>, n: nat)
    requires
        n <= v.len(),
    ensures
        hashed(v, n).len() == 6 * n,
        forall|i: int|
            #![trigger v[i]]
            0 <= i < n ==> hashed(v, n)[6 * i] == encode_utf8(v[i].0) && hashed(v, n)[6 * i + 2]
                == encode_utf8(v[i].1) && hashed(v, n)[6 * i + 4] == encode_utf8(v[i].2),
    decreases n,
{
    if n > 0 {
        lemma_hashed(v, (n - 1) as nat);
        let most = hashed(v, (n - 1) as nat);
        let all = hashed(v, n);
        assert forall|i: int| #![trigger v[i]] 0 <= i < n implies all[6 * i] == encode_utf8(v[i].0)
            && all[6 * i + 2] == encode_utf8(v[i].1) && all[6 * i + 4] == encode_utf8(v[i].2) by {
            if i < n - 1 {
                assert(all[6 * i] == most[6 * i]);
                assert(all[6 * i + 2] == most[6 * i + 2]);
                assert(all[6 * i + 4] == most[6 * i + 4]);
            }
        }
    }
}

/// A round is useful as soon as one call did more than look, or one look found
/// something: a result that is no error, no repetition and not barren.
pub proof fn one_useful_call_is_enough(
    round: Seq<(Seq<char>, Seq<char>, Seq<char>)>,
    barren: Seq<bool>,
    i: int,
)
    requires
        0 <= i < round.len(),
        barren.len() == round.len(),
    ensures
        !is_read_tool(round[i].0) && round[i].0 != "explore"@ ==> productive(round),
        !opens(round[i].2, "error: "@) && !opens(round[i].2, "[identical "@) && !barren[i]
            ==> found_something(round, barren),
        found_something(round, barren) ==> !crate::rounds::all_failed(round),
{
    if found_something(round, barren) {
        let k = choose|k: int|
            0 <= k < round.len() && !is_error((#[trigger] round[k]).2) && !opens(
                round[k].2,
                "[identical "@,
            ) && !barren[k];
        assert(!is_error(round[k].2));
    }
}

/// How a round ends follows from what it is found to be, and a turn that goes on
/// is ready for its next round.
pub proof fn a_round_ends_by_its_verdict(
    t: TurnV,
    round: Seq<(Seq<char>, Seq<char>, Seq<char>)>,
    barren: Seq<bool>,
)
    ensures
        round_verdict(t, round, barren) == RoundVerdict::Abort <==> close_step(t, round, barren)
            == CloseStep::Fail,
        round_verdict(t, round, barren) == RoundVerdict::Wrap <==> close_step(t, round, barren)
            == CloseStep::ForceAnswer,
        close_step(t, round, barren) == CloseStep::Next <==> round_closed(t, round, barren).phase
            == Phase::Ready,
        close_step(t, round, barren) != CloseStep::Next <==> round_closed(t, round, barren).phase
            == Phase::Ended,
        round_verdict(t, round, barren) == RoundVerdict::Correct ==> closing_words(
            t,
            round,
            barren,
        ) == Some(crate::steering::LOOP_CORRECTION@),
        round_verdict(t, round, barren) is Nudge ==> closing_words(t, round, barren) is Some,
        round_verdict(t, round, barren) == RoundVerdict::Continue && t.batch_nudged
            ==> closing_words(t, round, barren) is None,
{
}

/// What is said to the model at the end of a round, on advice or about its
/// budget is what the transcript keeps, word for word; where nothing is said
/// nothing is kept, and the conversation stays.
pub proof fn steering_is_kept_as_it_was_said(
    t: TurnV,
    round: Seq<(Seq<char>, Seq<char>, Seq<char>)>,
    barren: Seq<bool>,
    advice: Advice,
)
    ensures
        kept_as_said(t.wire, round_closed(t, round, barren).wire, close_effects(t, round, barren)),
        kept_as_said(t.wire, advised(t, advice).wire, advice_effects(advice)),
        budget_due(t) ==> budget_said(t).wire.len() == t.wire.len() + 1,
        !budget_due(t) ==> budget_said(t) == t,
{
    match closing_words(t, round, barren) {
        Some(words) => {
            steering_rides_a_user_turn(t, words);
        },
        None => {},
    }
    steering_rides_a_user_turn(t, crate::steering::RETRY_ADVICE@);
    steering_rides_a_user_turn(t, crate::steering::ASK_USER_ADVICE@);
}

/// True when the conversation grew by one message of the user's for the one line
/// that is kept, with the same words, or by none for none.
pub open spec fn kept_as_said(was: Seq<JsonV>, now: Seq<JsonV>, kept: Seq<EffectV>) -> bool {
    if kept.len() == 0 {
        now == was
    } else {
        &&& kept.len() == 1
        &&& now.len() == was.len() + 1
        &&& now.drop_last() == was
        &&& now.last().text_at("role"@) == Some("user"@)
        &&& kept[0] matches EffectV::System(words) && now.last().text_at("content"@) == Some(words)
    }
}

/// A lone lookup adds to the count of lone lookups, and any other round starts
/// it anew; the fourth in a row is answered with a word, once.
pub proof fn lone_lookups_are_counted(
    t: TurnV,
    round: Seq<(Seq<char>, Seq<char>, Seq<char>)>,
    barren: Seq<bool>,
)
    ensures
        round.len() == 1 && is_read_tool(round[0].0) ==> round_closed(
            t,
            round,
            barren,
        ).single_lookups == t.single_lookups + 1,
        round.len() != 1 || !is_read_tool(round[0].0) ==> round_closed(
            t,
            round,
            barren,
        ).single_lookups == 0,
        round_verdict(t, round, barren) == RoundVerdict::Continue && !t.batch_nudged
            && lookups_after(t, round) >= 4 ==> closing_words(t, round, barren) is Some
            && round_closed(t, round, barren).batch_nudged,
        round_verdict(t, round, barren) == RoundVerdict::Continue && lookups_after(t, round) < 4
            ==> closing_words(t, round, barren) is None,
{
}

/// What a reply comes to: its calls run; a silent one is asked again; a promise
/// is sent back with the promise on the wire before the correction; any other
/// text is the answer.
pub proof fn replies_are_taken_for_what_they_are(t: TurnV, r: ReplyV)
    ensures
        r.tool_calls.len() > 0 <==> reply_step(t, r) == ReplyStep::Tools,
        r.tool_calls.len() > 0 ==> replied(t, r).phase == Phase::Tools && replied(t, r).wire
            == t.wire,
        r.tool_calls.len() == 0 && r.content is Some && trimmed(r.content.unwrap()).len() > 0
            && !pending_work(r.content.unwrap()) ==> reply_step(t, r) == ReplyStep::Answer
            && replied(t, r) == t,
        reply_step(t, r) == ReplyStep::Answer ==> r.content is Some && trimmed(
            r.content.unwrap(),
        ).len() > 0 && r.tool_calls.len() == 0,
        r.tool_calls.len() == 0 && r.content is Some && trimmed(r.content.unwrap()).len() > 0
            && pending_work(r.content.unwrap()) && t.promised < 2 ==> {
            let wire = replied(t, r).wire;
            &&& reply_step(t, r) == ReplyStep::Again
            &&& wire.len() == t.wire.len() + 2
            &&& wire[t.wire.len() as int].text_at("role"@) == Some("assistant"@)
            &&& wire[t.wire.len() as int].text_at("content"@) == r.content
            &&& wire.last().text_at("role"@) == Some("user"@)
            &&& replied(t, r).promised == t.promised + 1
        },
        r.tool_calls.len() == 0 && (r.content is None || trimmed(r.content.unwrap()).len() == 0)
            ==> reply_step(t, r) == ReplyStep::Again || reply_step(t, r) == ReplyStep::ForceAnswer,
{
    if r.content is Some {
        crate::turn::wire_laws::a_message_has_a_role_and_a_content(
            "assistant"@,
            JsonV::Str(r.content.unwrap()),
        );
        let said = t.said(crate::json::message("assistant"@, JsonV::Str(r.content.unwrap())));
        steering_rides_a_user_turn(said, crate::steering::DANGLING_INTENT_CORRECTION@);
    }
}

/// A promise that is sent back is kept as the assistant's, with its text.
pub proof fn a_promise_is_kept(t: TurnV, r: ReplyV, info: RoundInfo)
    requires
        r.tool_calls.len() == 0,
        r.content is Some,
        trimmed(r.content.unwrap()).len() > 0,
        pending_work(r.content.unwrap()),
        t.promised < 2,
    ensures
        ({
            let all = reply_effects(t, r, info);
            &&& all.len() >= 3
            &&& all[all.len() - 3] matches EffectV::Assistant(a) && a.content == r.content
            &&& all.last() is System
        }),
{
}

/// A request that failed is tried again without tools where they were refused at
/// the start, and again with a word where the reply ran away; else the turn
/// ends.
pub proof fn failures_are_taken_for_what_they_are(t: TurnV, unsupported: bool, degenerate: bool)
    ensures
        failure_step(t, unsupported, degenerate) == FailureStep::PlainChat <==> t.round == 1
            && unsupported,
        failure_step(t, unsupported, degenerate) == FailureStep::Again ==> degenerate && failed(
            t,
            unsupported,
            degenerate,
        ).phase == Phase::Ready && failed(t, unsupported, degenerate).wire.len() == t.wire.len()
            + 1,
        failure_step(t, unsupported, degenerate) != FailureStep::Again ==> failed(
            t,
            unsupported,
            degenerate,
        ).phase == Phase::Ended && failed(t, unsupported, degenerate).wire == t.wire,
        !degenerate && !(t.round == 1 && unsupported) ==> failure_step(t, unsupported, degenerate)
            == FailureStep::Fail,
{
}

/// Advice to stop ends the turn, and no other advice does; only a stop and no
/// advice say nothing.
pub proof fn only_a_stop_ends_a_turn(t: TurnV, advice: Advice)
    requires
        t.phase != Phase::Ended,
    ensures
        advised(t, advice).phase == Phase::Ended <==> advice == Advice::Stop,
        advised(t, advice).wire == t.wire <==> advice == Advice::Stop || advice == Advice::Nothing,
{
    assert(t.steered(crate::steering::RETRY_ADVICE@).wire.len() == t.wire.len() + 1);
    assert(t.steered(crate::steering::ASK_USER_ADVICE@).wire.len() == t.wire.len() + 1);
}

/// An open round is the next one, and opening it says nothing.
pub proof fn opening_a_round_says_nothing(
    t: TurnV,
    now: Option<Seq<(Seq<char>, crate::plan::PlanStepStatus)>>,
)
    ensures
        round_opened(t, now).0.wire == t.wire,
        round_opened(t, now).1 ==> round_opened(t, now).0.round == t.round + 1 && round_opened(
            t,
            now,
        ).0.phase == Phase::Open,
        !round_opened(t, now).1 ==> round_opened(t, now).0.phase == Phase::Ended && round_opened(
            t,
            now,
        ).0.round == t.round,
{
}

/// A forced answer is the model's own text where it has any.
pub proof fn a_forced_answer_is_the_models(text: Seq<char>)
    ensures
        trimmed(text).len() > 0 ==> forced_reply(Some(text)) == text,
        trimmed(text).len() == 0 ==> forced_reply(Some(text)) == crate::steering::SILENT_MODEL@,
        forced_reply(None) == crate::steering::SILENT_MODEL@,
{
}

/// The notices tell the numbers they are about: rounds spent and left, lone
/// lookups, barren rounds.
pub proof fn notices_tell_their_numbers(spent: nat, cap: nat)
    requires
        spent <= cap,
    ensures
        holds(budget_text(spent, cap), "You are "@ + dec(spent) + " tool rounds"@),
        holds(budget_text(spent, cap), "; "@ + dec((cap - spent) as nat) + " remain"@),
        holds(barren_text(spent), "Your last "@ + dec(spent) + " "@),
        holds(batch_text(spent), "Your last "@ + dec(spent) + " "@),
{
    lemma_budget(spent, (cap - spent) as nat, budget_text(spent, cap));
    reveal_strlit(" ");
    let a = barren_text(spent);
    let lead = "Your last "@ + dec(spent) + " "@;
    lemma_lead(a, lead, dec(spent));
    let b = batch_text(spent);
    lemma_batch_lead(b, lead, spent);
}

proof fn lemma_lead(a: Seq<char>, lead: Seq<char>, n: Seq<char>)
    requires
        a == "Your last "@ + n + " tool rounds were lookups that came back empty. \
         Stop searching the same way: act on what is already above, try a \
         different angle, or say in one line what is blocking you."@,
        lead == "Your last "@ + n + " "@,
    ensures
        holds(a, lead),
{
    reveal_strlit(
        " tool rounds were lookups that came back empty. \
         Stop searching the same way: act on what is already above, try a \
         different angle, or say in one line what is blocking you.",
    );
    reveal_strlit(" ");
    let tail = a.skip(lead.len() as int);
    assert(a =~= Seq::empty() + lead + tail);
    lemma_holds_between(Seq::empty(), lead, tail);
}

proof fn lemma_batch_lead(b: Seq<char>, lead: Seq<char>, n: nat)
    requires
        b == batch_text(n),
        lead == "Your last "@ + dec(n) + " "@,
    ensures
        holds(b, lead),
{
    reveal_strlit(
        " rounds each carried a single lookup, and every \
         round costs a full model round-trip. Decide everything you still \
         need to see and request it in one round: several tool calls in one \
         reply, or one `explore` with all the steps.",
    );
    reveal_strlit(" ");
    let tail = b.skip(lead.len() as int);
    assert(b =~= Seq::empty() + lead + tail);
    lemma_holds_between(Seq::empty(), lead, tail);
}

proof fn lemma_budget(spent: nat, left: nat, text: Seq<char>)
    requires
        text == "You are "@ + dec(spent) + " tool rounds into this turn; "@ + dec(left)
            + " remain before it ends \
         and you have to answer with whatever you have. Spend them finishing, \
         not gathering."@,
    ensures
        holds(text, "You are "@ + dec(spent) + " tool rounds"@),
        holds(text, "; "@ + dec(left) + " remain"@),
{
    reveal_strlit(" tool rounds into this turn; ");
    reveal_strlit(" tool rounds into this turn");
    reveal_strlit(" tool rounds");
    reveal_strlit("; ");
    reveal_strlit(
        " remain before it ends \
         and you have to answer with whatever you have. Spend them finishing, \
         not gathering.",
    );
    reveal_strlit(" remain");
    let first = "You are "@ + dec(spent) + " tool rounds"@;
    let after = text.skip(first.len() as int);
    assert(text =~= Seq::empty() + first + after);
    lemma_holds_between(Seq::empty(), first, after);
    assert(" tool rounds into this turn; "@ =~= " tool rounds into this turn"@ + "; "@);
    let front = "You are "@ + dec(spent) + " tool rounds into this turn"@;
    let second = "; "@ + dec(left) + " remain"@;
    let tail = text.skip((front + second).len() as int);
    assert(text =~= front + second + tail);
    lemma_holds_between(front, second, tail);
}

/// A reply that asks something is never taken for a promise; only one that holds
/// one of the phrases is.
pub proof fn questions_are_no_promises(reply: Seq<char>)
    ensures
        asks(reply) ==> !pending_work(reply),
        pending_work(reply) <==> !asks(reply) && promises(lowercase(reply)),
        holds(lowercase(reply), "i will now"@) && !asks(reply) ==> pending_work(reply),
        holds(lowercase(reply), "ready to apply"@) && !asks(reply) ==> pending_work(reply),
{
}

/// A reply asks something when its last line that is not blank ends in a
/// question mark.
pub proof fn the_last_line_asks(reply: Seq<char>, i: int)
    requires
        0 <= i < lines_of(reply).len(),
        trimmed(lines_of(reply)[i]).len() > 0,
        forall|k: int| i < k < lines_of(reply).len() ==> trimmed(#[trigger] lines_of(reply)[k]).len() == 0,
    ensures
        asks(reply) <==> closes(trimmed_end(lines_of(reply)[i]), "?"@),
{
    lemma_last_filled(lines_of(reply), i);
}

proof fn lemma_last_filled(v: Seq<Seq<char>>, i: int)
    requires
        0 <= i < v.len(),
        trimmed(v[i]).len() > 0,
        forall|k: int| i < k < v.len() ==> trimmed(#[trigger] v[k]).len() == 0,
    ensures
        last_filled(v) == Some(v[i]),
    decreases v.len(),
{
    if i < v.len() - 1 {
        assert(trimmed(v[v.len() - 1]).len() == 0);
        let head = v.drop_last();
        assert forall|k: int| i < k < head.len() implies trimmed(#[trigger] head[k]).len() == 0 by {
            assert(head[k] == v[k]);
        }
        lemma_last_filled(head, i);
    }
}

/// What each step of a turn leaves alone: advice and an answer touch only the
/// conversation and the phase, a notice also that it was given, a failure the
/// count of runaway replies, a reply the counts of silence and promises, and the
/// end of a round what is counted of rounds.
pub proof fn steps_leave_the_rest_alone(
    t: TurnV,
    advice: Advice,
    unsupported: bool,
    degenerate: bool,
    r: ReplyV,
    text: Seq<char>,
    typed: Seq<Seq<char>>,
    round: Seq<(Seq<char>, Seq<char>, Seq<char>)>,
    barren: Seq<bool>,
)
    ensures
        ({
            let u = advised(t, advice);
            u == (TurnV { wire: u.wire, phase: u.phase, ..t })
        }),
        ({
            let u = answered(t, text, typed);
            u == (TurnV { wire: u.wire, phase: u.phase, ..t })
        }),
        ({
            let u = budget_said(t);
            u == (TurnV { wire: u.wire, budget_told: u.budget_told, ..t })
        }),
        ({
            let u = failed(t, unsupported, degenerate);
            u == (TurnV { wire: u.wire, phase: u.phase, degenerations: u.degenerations, ..t })
        }),
        ({
            let u = replied(t, r);
            u == (TurnV {
                wire: u.wire,
                phase: u.phase,
                empties: u.empties,
                promised: u.promised,
                ..t
            })
        }),
        ({
            let u = round_closed(t, round, barren);
            u == (TurnV {
                wire: u.wire,
                phase: u.phase,
                no_progress: u.no_progress,
                single_lookups: u.single_lookups,
                batch_nudged: u.batch_nudged,
                ..t
            })
        }),
{
}

/// An extension gives one allotment of rounds more and remembers the plan it was
/// given for; within the cap nothing is extended.
pub proof fn an_extension_is_one_allotment(
    t: TurnV,
    now: Option<Seq<(Seq<char>, crate::plan::PlanStepStatus)>>,
)
    ensures
        ({
            let u = round_opened(t, now).0;
            &&& t.round < t.round_cap ==> u == (TurnV { round: u.round, phase: u.phase, ..t })
            &&& t.round >= t.round_cap && round_opened(t, now).1 ==> {
                &&& u.round_cap == t.round_cap + t.max_tool_rounds
                &&& u.extensions == t.extensions + 1
                &&& u.plan_at_extension == now
                &&& u == (TurnV {
                    round: u.round,
                    phase: u.phase,
                    round_cap: u.round_cap,
                    extensions: u.extensions,
                    plan_at_extension: u.plan_at_extension,
                    ..t
                })
            }
            &&& !round_opened(t, now).1 ==> u == (TurnV { phase: u.phase, ..t })
        }),
{
}

/// Silence is counted until something is said or asked for; a promise is counted
/// for good; an answer counts nothing.
pub proof fn silence_and_promises_are_counted(t: TurnV, r: ReplyV)
    ensures
        r.tool_calls.len() > 0 ==> replied(t, r).empties == 0 && replied(t, r).promised
            == t.promised,
        r.tool_calls.len() == 0 && (r.content is None || trimmed(r.content.unwrap()).len() == 0)
            ==> replied(t, r).empties == t.empties + 1 && replied(t, r).promised == t.promised,
        reply_step(t, r) == ReplyStep::Again && r.content is Some && trimmed(
            r.content.unwrap(),
        ).len() > 0 ==> replied(t, r).empties == 0,
{
}

/// A failure counts against the turn exactly where the reply ran away and was not
/// put down to missing tools.
pub proof fn runaway_replies_are_counted(t: TurnV, unsupported: bool, degenerate: bool)
    ensures
        failed(t, unsupported, degenerate).degenerations == t.degenerations + if degenerate && !(
        t.round == 1 && unsupported) {
            1int
        } else {
            0
        },
{
}

/// A turn starts before its first round, with one allotment of them and nothing
/// counted yet.
pub proof fn a_turn_starts_fresh(
    system: Seq<char>,
    history: Seq<crate::message::MessageV>,
    plan: Option<Seq<(Seq<char>, crate::plan::PlanStepStatus)>>,
    max_tool_rounds: int,
    kick: bool,
)
    ensures
        ({
            let t = crate::turn::started(system, history, plan, max_tool_rounds, kick);
            &&& t.phase == Phase::Ready && t.round == 0
            &&& t.round_cap == max_tool_rounds && t.max_tool_rounds == max_tool_rounds
            &&& t.plan_at_extension == plan && t.extensions == 0
            &&& t.empties == 0 && t.degenerations == 0 && t.promised == 0 && t.single_lookups == 0
            &&& !t.budget_told && !t.batch_nudged
            &&& t.no_progress == crate::rounds::fresh_progress()
        }),
{
}

/// The thinking of a reply is kept with it: every thought in order, a blank line
/// between two, counted by its length and timed; no thought, nothing kept.
pub proof fn thinking_is_kept(r: ReplyV, info: RoundInfo, internal: Seq<bool>, i: int)
    requires
        0 <= i < r.thoughts.len(),
        r.thoughts[i].len() > 0,
    ensures
        crate::turn::tools_effects(r, info, internal)[0] matches EffectV::Assistant(a) && (
        a.reasoning matches Some(t) && holds(t.text, r.thoughts[i]) && t.duration_ms == Some(
            info.duration_ms,
        )),
        r.thoughts.len() == 1 ==> (crate::turn::kept_reasoning(r.thoughts, info.duration_ms)
            matches Some(t) && t.text == r.thoughts[0]),
        crate::turn::kept_reasoning(Seq::empty(), info.duration_ms) is None,
{
    lemma_joined_holds(r.thoughts, "\n\n"@, i);
    let text = joined(r.thoughts, "\n\n"@);
    let k = choose|k: int| #[trigger] crate::text::affix::stands_at(text, r.thoughts[i], k);
    assert(text.len() > 0);
}

/// What is said at the end of a round tells the count it is about: so many lone
/// lookups, this round with them, or so many barren rounds; and the notice of the
/// budget tells the rounds spent and those left.
pub proof fn closing_words_tell_the_count(
    t: TurnV,
    round: Seq<(Seq<char>, Seq<char>, Seq<char>)>,
    barren: Seq<bool>,
)
    requires
        t.single_lookups >= 0,
        1 <= t.round <= t.round_cap,
    ensures
        round_verdict(t, round, barren) == RoundVerdict::Continue && closing_words(t, round, barren)
            is Some ==> round.len() == 1 && holds(
            closing_words(t, round, barren).unwrap(),
            "Your last "@ + dec((t.single_lookups + 1) as nat) + " "@,
        ),
        round_verdict(t, round, barren) matches RoundVerdict::Nudge(n) ==> holds(
            closing_words(t, round, barren).unwrap(),
            "Your last "@ + dec(n as nat) + " "@,
        ),
        budget_due(t) ==> holds(
            budget_said(t).wire.last().text_at("content"@).unwrap(),
            "You are "@ + dec((t.round - 1) as nat) + " tool rounds"@,
        ) && holds(
            budget_said(t).wire.last().text_at("content"@).unwrap(),
            "; "@ + dec((t.round_cap - t.round + 1) as nat) + " remain"@,
        ),
        budget_due(t) <==> !t.budget_told && t.round > 1 && 2 * (t.round - 1) >= t.round_cap,
{
    if round_verdict(t, round, barren) == RoundVerdict::Continue && closing_words(t, round, barren)
        is Some {
        let n = lookups_after(t, round) as nat;
        notices_tell_their_numbers(n, n);
    }
    match round_verdict(t, round, barren) {
        RoundVerdict::Nudge(n) => {
            notices_tell_their_numbers(n as nat, n as nat);
        },
        _ => {},
    }
    let spent = (t.round - 1) as nat;
    notices_tell_their_numbers(spent, t.round_cap as nat);
    steering_rides_a_user_turn(t, budget_text(spent, t.round_cap as nat));
}

/// A turn is kicked into acting exactly where the last thing the assistant said
/// was a promise, whatever the user said since.
pub proof fn a_promise_is_held_against_the_next_turn(
    history: Seq<crate::message::MessageV>,
    i: int,
)
    requires
        0 <= i < history.len(),
        history[i].role == "assistant"@,
        forall|j: int| i < j < history.len() ==> (#[trigger] history[j]).role != "assistant"@,
    ensures
        opens_on_a_promise(history) <==> pending_work(history[i].text),
{
    crate::turn::wire_laws::the_last_reply_is_the_last_one(history, i);
}

/// Tools are taken for refused only where the failure names them, and never where
/// the reply ran away.
pub proof fn tools_are_refused_by_name(degenerate: bool, text: Seq<char>)
    ensures
        crate::steering::rejects_tools(degenerate, text) ==> !degenerate && (holds(
            lowercase(text),
            "tool"@,
        ) || holds(lowercase(text), "function"@)),
        !degenerate && holds(lowercase(text), "tool"@) ==> crate::steering::rejects_tools(
            degenerate,
            text,
        ),
{
}

/// A reply with calls, and one that answers, shows only its thinking before its
/// calls run or its answer stands.
pub proof fn thinking_comes_first(t: TurnV, r: ReplyV, info: RoundInfo)
    ensures
        r.tool_calls.len() > 0 ==> reply_effects(t, r, info) == crate::turn::reasoning_effects(
            r,
            info,
        ),
        reply_step(t, r) == ReplyStep::Answer ==> reply_effects(t, r, info)
            == crate::turn::reasoning_effects(r, info),
        reply_step(t, r) == ReplyStep::Again && r.content is None ==> reply_effects(t, r, info).len()
            == crate::turn::reasoning_effects(r, info).len() + 1 && reply_effects(
            t,
            r,
            info,
        ).last() is System,
{
}

} // verus!
