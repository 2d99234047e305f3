//! What the conversation on the wire and in the transcript says.

use vstd::prelude::*;

use crate::json::{found_after_push, nothing_in_nothing, JsonV};
use crate::message::{call_wire, citations_event, CallV, EffectV, MessageV};
use crate::plan::PlanStepStatus;
use crate::rounds::{image_lead, retiring_leaves_the_newest, LIVE_IMAGES};
use crate::text::cut::truncated_keeps_a_fitting_prefix;
use crate::text::utf8::utf8_len;
use crate::turn::{
    answer_effects, answered, as_typed, call_event, call_events, calling_message, injected_effects,
    injected_event, last_reply, opening, reasoning_effects, result_effects, result_event,
    result_message, result_of, shown, started, steer_effect, thinking_value, token_value,
    tools_effects, wire_with, with_result, MAX_TOOL_RESULT_CHARS, ReplyV, RoundInfo, TurnV,
};

verus! {

proof fn lemma_keys()
    ensures
        "role"@ != "content"@,
        "role"@ != "tool_calls"@,
        "role"@ != "tool_call_id"@,
        "role"@ != "reasoning_details"@,
        "content"@ != "tool_calls"@,
        "content"@ != "tool_call_id"@,
        "content"@ != "reasoning_details"@,
        "tool_calls"@ != "tool_call_id"@,
        "tool_calls"@ != "reasoning_details"@,
        "id"@ != "type"@,
        "id"@ != "function"@,
        "id"@ != "name"@,
        "id"@ != "extra_content"@,
        "id"@ != "arguments"@,
        "id"@ != "result"@,
        "id"@ != "error"@,
        "id"@ != "images"@,
        "type"@ != "function"@,
        "type"@ != "name"@,
        "type"@ != "content"@,
        "type"@ != "arguments"@,
        "type"@ != "extra_content"@,
        "type"@ != "result"@,
        "type"@ != "error"@,
        "type"@ != "images"@,
        "type"@ != "sources"@,
        "type"@ != "tokens"@,
        "type"@ != "text"@,
        "type"@ != "image_url"@,
        "type"@ != "duration_ms"@,
        "content"@ != "tokens"@,
        "content"@ != "duration_ms"@,
        "tokens"@ != "duration_ms"@,
        "function"@ != "extra_content"@,
        "name"@ != "arguments"@,
        "name"@ != "result"@,
        "name"@ != "error"@,
        "name"@ != "images"@,
        "result"@ != "error"@,
        "result"@ != "images"@,
        "error"@ != "images"@,
        "url"@ != "title"@,
        "user"@ != "assistant"@,
        "user"@ != "tool"@,
        "user"@ != "system"@,
{
    reveal_strlit("role");
    reveal_strlit("content");
    reveal_strlit("tool_calls");
    reveal_strlit("tool_call_id");
    reveal_strlit("reasoning_details");
    reveal_strlit("id");
    reveal_strlit("type");
    reveal_strlit("function");
    reveal_strlit("name");
    reveal_strlit("extra_content");
    reveal_strlit("arguments");
    reveal_strlit("result");
    reveal_strlit("error");
    reveal_strlit("images");
    reveal_strlit("sources");
    reveal_strlit("tokens");
    reveal_strlit("text");
    reveal_strlit("image_url");
    reveal_strlit("duration_ms");
    reveal_strlit("url");
    reveal_strlit("title");
    reveal_strlit("user");
    reveal_strlit("assistant");
    reveal_strlit("tool");
    reveal_strlit("system");
    assert("role"@.len() == 4);
    assert("content"@.len() == 7);
    assert("tool_calls"@.len() == 10);
    assert("tool_call_id"@.len() == 12);
    assert("reasoning_details"@.len() == 17);
    assert("id"@.len() == 2);
    assert("type"@.len() == 4);
    assert("function"@.len() == 8);
    assert("name"@.len() == 4);
    assert("extra_content"@.len() == 13);
    assert("arguments"@.len() == 9);
    assert("result"@.len() == 6);
    assert("error"@.len() == 5);
    assert("images"@.len() == 6);
    assert("sources"@.len() == 7);
    assert("tokens"@.len() == 6);
    assert("text"@.len() == 4);
    assert("image_url"@.len() == 9);
    assert("duration_ms"@.len() == 11);
    assert("url"@.len() == 3);
    assert("title"@.len() == 5);
    assert("user"@.len() == 4);
    assert("assistant"@.len() == 9);
    assert("tool"@.len() == 4);
    assert("system"@.len() == 6);
    assert("type"@[0] != "name"@[0]);
    assert("type"@[1] != "text"@[1]);
    assert("result"@[0] != "images"@[0]);
    assert("user"@[0] != "tool"@[0]);
}

/// A message has its role under `role` and its content under `content`.
pub proof fn a_message_has_a_role_and_a_content(role: Seq<char>, content: JsonV)
    ensures
        crate::json::message(role, content).text_at("role"@) == Some(role),
        crate::json::message(role, content).get("content"@) == Some(content),
{
    broadcast use {found_after_push, nothing_in_nothing};

    lemma_keys();
}

/// A call on the wire has its id under `id`, and its name and its arguments
/// within `function`.
pub proof fn a_call_keeps_its_parts(c: CallV)
    ensures
        call_wire(c).text_at("id"@) == Some(c.id),
        call_wire(c).text_at("type"@) == Some("function"@),
        call_wire(c).get("function"@) is Some,
        call_wire(c).get("function"@).unwrap().text_at("name"@) == Some(c.name),
        call_wire(c).get("function"@).unwrap().text_at("arguments"@) == Some(c.arguments),
        call_wire(c).get("extra_content"@) == c.extra_content,
{
    broadcast use {found_after_push, nothing_in_nothing};

    lemma_keys();
}

/// The message that carries calls is the assistant's. It has the reply's text,
/// and its `tool_calls` are the reply's calls, entry for entry.
pub proof fn calls_go_on_the_wire_in_order(r: ReplyV, i: int)
    requires
        0 <= i < r.tool_calls.len(),
    ensures
        calling_message(r).text_at("role"@) == Some("assistant"@),
        r.content matches Some(text) ==> calling_message(r).text_at("content"@) == Some(text),
        r.content is None ==> calling_message(r).get("content"@) == Some(JsonV::Null),
        r.reasoning_details.len() > 0 ==> calling_message(r).elements_at("reasoning_details"@)
            == Some(r.reasoning_details),
        ({
            let entries = calling_message(r).elements_at("tool_calls"@);
            &&& entries is Some
            &&& entries.unwrap().len() == r.tool_calls.len()
            &&& entries.unwrap()[i].text_at("id"@) == Some(r.tool_calls[i].id)
            &&& entries.unwrap()[i].get("function"@).unwrap().text_at("name"@) == Some(
                r.tool_calls[i].name,
            )
            &&& entries.unwrap()[i].get("function"@).unwrap().text_at("arguments"@) == Some(
                r.tool_calls[i].arguments,
            )
        }),
{
    broadcast use {found_after_push, nothing_in_nothing};

    lemma_keys();
    a_call_keeps_its_parts(r.tool_calls[i]);
}

proof fn lemma_no_image(m: JsonV)
    requires
        m.text_at("role"@) == Some("assistant"@) || m.text_at("role"@) == Some("tool"@),
    ensures
        image_lead(m) is None,
{
    lemma_keys();
}

/// The message that comes on the wire for a call's result is a tool message
/// with the call's id under `tool_call_id` and the result as its content. With
/// pictures one more message follows it, the user's; nothing else joins, and of
/// what was there only older pictures change.
pub proof fn a_result_answers_its_call(
    t: TurnV,
    c: CallV,
    result: Seq<char>,
    images: Seq<Seq<char>>,
)
    ensures
        ({
            let wire = with_result(t, c, result, images).wire;
            let m = wire[t.wire.len() as int];
            &&& wire.len() == t.wire.len() + if images.len() == 0 { 1nat } else { 2nat }
            &&& m.text_at("role"@) == Some("tool"@)
            &&& m.text_at("tool_call_id"@) == Some(c.id)
            &&& m.text_at("content"@) == Some(result)
            &&& images.len() > 0 ==> wire.last().text_at("role"@) == Some("user"@)
            &&& forall|k: int|
                0 <= k < t.wire.len() && (images.len() == 0 || image_lead(#[trigger] t.wire[k]) is None)
                    ==> wire[k] == t.wire[k]
        }),
        with_result(t, c, result, images) == (TurnV {
            wire: with_result(t, c, result, images).wire,
            ..t
        }),
{
    broadcast use {found_after_push, nothing_in_nothing};

    lemma_keys();
    let m = result_message(c.id, result);
    let grown = t.wire.push(m);
    assert(m.text_at("role"@) == Some("tool"@));
    lemma_no_image(m);
    if images.len() > 0 {
        retiring_leaves_the_newest(grown, LIVE_IMAGES as nat, 0);
        let wire = with_result(t, c, result, images).wire;
        assert(grown[t.wire.len() as int] == m);
        assert(wire[t.wire.len() as int] == m);
        assert forall|k: int|
            0 <= k < t.wire.len() && image_lead(#[trigger] t.wire[k]) is None implies wire[k]
            == t.wire[k] by {
            assert(grown[k] == t.wire[k]);
        }
    }
}

/// The pictures of a result follow it in one message of the user's, in order.
pub proof fn pictures_follow_their_result(
    t: TurnV,
    c: CallV,
    result: Seq<char>,
    images: Seq<Seq<char>>,
    i: int,
)
    requires
        0 <= i < images.len(),
    ensures
        ({
            let m = with_result(t, c, result, images).wire.last();
            let parts = m.elements_at("content"@);
            &&& m.text_at("role"@) == Some("user"@)
            &&& parts is Some
            &&& parts.unwrap().len() == images.len() + 1
            &&& parts.unwrap()[i + 1].get("image_url"@) is Some
            &&& parts.unwrap()[i + 1].get("image_url"@).unwrap().text_at("url"@) == Some(images[i])
            &&& parts.unwrap()[i + 1].text_at("type"@) == Some("image_url"@)
        }),
{
    broadcast use {found_after_push, nothing_in_nothing};

    lemma_keys();
}

/// The turn once the first `n` results of a round are in.
pub open spec fn results_in(
    t: TurnV,
    calls: Seq<CallV>,
    results: Seq<Seq<char>>,
    images: Seq<Seq<Seq<char>>>,
    n: nat,
) -> TurnV
    decreases n,
{
    if n == 0 {
        t
    } else {
        with_result(
            results_in(t, calls, results, images, (n - 1) as nat),
            calls[n - 1],
            results[n - 1],
            images[n - 1],
        )
    }
}

/// Once a reply with calls is on the wire and its results are in, the wire has
/// the assistant's message and behind it, for every call in turn, a tool
/// message. What that one has under `tool_call_id` is what the assistant's
/// message has under `id` in the entry for that call, and its content is the
/// result. `at` tells where the tool messages stand.
pub proof fn results_answer_the_calls_before_them(
    t: TurnV,
    r: ReplyV,
    results: Seq<Seq<char>>,
    images: Seq<Seq<Seq<char>>>,
    n: nat,
) -> (at: Seq<int>)
    requires
        n <= r.tool_calls.len(),
        results.len() == r.tool_calls.len(),
        images.len() == r.tool_calls.len(),
    ensures
        at.len() == n,
        ({
            let wire = results_in(t.said(calling_message(r)), r.tool_calls, results, images, n).wire;
            let asked = wire[t.wire.len() as int];
            &&& wire.len() > t.wire.len()
            &&& asked.text_at("role"@) == Some("assistant"@)
            &&& asked.elements_at("tool_calls"@) is Some
            &&& asked.elements_at("tool_calls"@).unwrap().len() == r.tool_calls.len()
            &&& forall|i: int|
                0 <= i < n ==> {
                    let m = wire[#[trigger] at[i]];
                    let entry = asked.elements_at("tool_calls"@).unwrap()[i];
                    &&& t.wire.len() < at[i] < wire.len()
                    &&& m.text_at("role"@) == Some("tool"@)
                    &&& m.text_at("tool_call_id"@) is Some
                    &&& m.text_at("tool_call_id"@) == entry.text_at("id"@)
                    &&& m.text_at("content"@) == Some(results[i])
                }
            &&& forall|i: int, j: int|
                0 <= i < j < n ==> #[trigger] at[i] < #[trigger] at[j]
            &&& (forall|i: int| 0 <= i < n ==> (#[trigger] images[i]).len() == 0) ==> wire.len()
                == t.wire.len() + 1 + n && forall|i: int|
                0 <= i < n ==> #[trigger] at[i] == t.wire.len() + 1 + i
        }),
    decreases n,
{
    let start = t.said(calling_message(r));
    let now = results_in(start, r.tool_calls, results, images, n);
    if r.tool_calls.len() > 0 {
        calls_go_on_the_wire_in_order(r, 0);
    } else {
        broadcast use {found_after_push, nothing_in_nothing};

        lemma_keys();
    }
    if n == 0 {
        Seq::empty()
    } else {
        let k = (n - 1) as nat;
        let before = results_in(start, r.tool_calls, results, images, k);
        let most = results_answer_the_calls_before_them(t, r, results, images, k);
        a_result_answers_its_call(before, r.tool_calls[n - 1], results[n - 1], images[n - 1]);
        calls_go_on_the_wire_in_order(r, n - 1);
        let at = most.push(before.wire.len() as int);
        let asked = before.wire[t.wire.len() as int];
        lemma_no_image(asked);
        assert(now.wire[t.wire.len() as int] == asked);
        assert(asked == calling_message(r)) by {
            lemma_asked_stays(t, r, results, images, k);
        }
        assert forall|i: int| 0 <= i < n implies {
            let m = now.wire[#[trigger] at[i]];
            let entry = asked.elements_at("tool_calls"@).unwrap()[i];
            &&& t.wire.len() < at[i] < now.wire.len()
            &&& m.text_at("role"@) == Some("tool"@)
            &&& m.text_at("tool_call_id"@) is Some
            &&& m.text_at("tool_call_id"@) == entry.text_at("id"@)
            &&& m.text_at("content"@) == Some(results[i])
        } by {
            if i < n - 1 {
                assert(most[i] == at[i]);
                lemma_no_image(before.wire[most[i]]);
                assert(now.wire[at[i]] == before.wire[at[i]]);
            }
        }
        assert forall|i: int, j: int| 0 <= i < j < n implies #[trigger] at[i] < #[trigger] at[j] by {
            assert(at[i] == most[i]);
            if j < n - 1 {
                assert(at[j] == most[j]);
            }
        }
        at
    }
}

proof fn lemma_asked_stays(
    t: TurnV,
    r: ReplyV,
    results: Seq<Seq<char>>,
    images: Seq<Seq<Seq<char>>>,
    n: nat,
)
    requires
        n <= r.tool_calls.len(),
        results.len() == r.tool_calls.len(),
        images.len() == r.tool_calls.len(),
    ensures
        ({
            let wire = results_in(t.said(calling_message(r)), r.tool_calls, results, images, n).wire;
            wire.len() > t.wire.len() && wire[t.wire.len() as int] == calling_message(r)
        }),
    decreases n,
{
    if n > 0 {
        let k = (n - 1) as nat;
        let before = results_in(t.said(calling_message(r)), r.tool_calls, results, images, k);
        lemma_asked_stays(t, r, results, images, k);
        a_result_answers_its_call(before, r.tool_calls[n - 1], results[n - 1], images[n - 1]);
        calls_go_on_the_wire_in_order(r, n - 1);
        lemma_no_image(calling_message(r));
    }
}

/// A turn opens with the system prompt, then has every message of the history
/// in its place, with its role and its content, and nothing else but the kick
/// when one is due.
pub proof fn a_turn_opens_with_the_history(
    system: Seq<char>,
    history: Seq<MessageV>,
    plan: Option<Seq<(Seq<char>, PlanStepStatus)>>,
    max_tool_rounds: int,
    kick: bool,
    i: int,
)
    requires
        0 <= i < history.len(),
    ensures
        ({
            let wire = started(system, history, plan, max_tool_rounds, kick).wire;
            &&& wire.len() == history.len() + if kick { 2nat } else { 1nat }
            &&& wire[0].text_at("role"@) == Some("system"@)
            &&& wire[0].text_at("content"@) == Some(system)
            &&& wire[i + 1].text_at("role"@) == Some(history[i].role)
            &&& wire[i + 1].get("content"@) == Some(history[i].content)
            &&& kick ==> wire.last().text_at("role"@) == Some("user"@)
        }),
{
    a_message_has_a_role_and_a_content("system"@, JsonV::Str(system));
    a_message_has_a_role_and_a_content(history[i].role, history[i].content);
    a_message_has_a_role_and_a_content(
        "user"@,
        JsonV::Str(crate::steering::PROMISED_WORK_KICK@),
    );
    assert(opening(system, history)[i + 1] == crate::json::message(
        history[i].role,
        history[i].content,
    ));
}

/// What the assistant said last is the text of its message behind which it has
/// no other; none when it has said nothing.
pub proof fn the_last_reply_is_the_last_one(history: Seq<MessageV>, i: int)
    requires
        forall|j: int|
            0 <= i < j < history.len() || (i < 0 && 0 <= j < history.len())
                ==> (#[trigger] history[j]).role != "assistant"@,
        0 <= i < history.len() ==> history[i].role == "assistant"@,
        i < history.len(),
    ensures
        0 <= i ==> last_reply(history) == Some(history[i].text),
        i < 0 ==> last_reply(history) is None,
    decreases history.len(),
{
    if history.len() > 0 && i != history.len() - 1 {
        let head = history.drop_last();
        assert(history[history.len() - 1].role != "assistant"@);
        assert forall|j: int|
            0 <= i < j < head.len() || (i < 0 && 0 <= j < head.len()) implies (
        #[trigger] head[j]).role != "assistant"@ by {
            assert(head[j] == history[j]);
        }
        the_last_reply_is_the_last_one(head, i);
    }
}

/// What the user sent during a turn joins the wire behind what was there, in
/// order, each as a message of the user's with its own content.
pub proof fn messages_join_in_order(
    wire: Seq<JsonV>,
    pending: Seq<(Seq<char>, JsonV)>,
    n: nat,
)
    requires
        n <= pending.len(),
    ensures
        wire_with(wire, pending, n).len() == wire.len() + n,
        forall|k: int| 0 <= k < wire.len() ==> #[trigger] wire_with(wire, pending, n)[k] == wire[k],
        forall|i: int|
            0 <= i < n ==> {
                let m = #[trigger] wire_with(wire, pending, n)[wire.len() + i];
                m.text_at("role"@) == Some("user"@) && m.get("content"@) == Some(pending[i].1)
            },
    decreases n,
{
    if n > 0 {
        messages_join_in_order(wire, pending, (n - 1) as nat);
        a_message_has_a_role_and_a_content("user"@, pending[n - 1].1);
        let before = wire_with(wire, pending, (n - 1) as nat);
        let now = wire_with(wire, pending, n);
        assert forall|k: int| 0 <= k < wire.len() implies #[trigger] now[k] == wire[k] by {
            assert(now[k] == before[k]);
        }
        assert forall|i: int| 0 <= i < n implies {
            let m = #[trigger] now[wire.len() + i];
            m.text_at("role"@) == Some("user"@) && m.get("content"@) == Some(pending[i].1)
        } by {
            if i < n - 1 {
                assert(now[wire.len() + i] == before[wire.len() + i]);
            }
        }
    }
}

/// Each message the user sent is shown once and kept once, in order, with the
/// text that was typed.
pub proof fn messages_are_shown_and_kept(pending: Seq<(Seq<char>, JsonV)>, n: nat)
    requires
        n <= pending.len(),
    ensures
        injected_effects(pending, n).len() == 2 * n,
        forall|i: int|
            0 <= i < n ==> #[trigger] injected_effects(pending, n)[2 * i] == EffectV::Emit(
                injected_event(pending[i].0),
            ) && injected_effects(pending, n)[2 * i + 1] == EffectV::User(pending[i].0),
    decreases n,
{
    if n > 0 {
        messages_are_shown_and_kept(pending, (n - 1) as nat);
        let before = injected_effects(pending, (n - 1) as nat);
        let now = injected_effects(pending, n);
        assert forall|i: int| 0 <= i < n implies #[trigger] now[2 * i] == EffectV::Emit(
            injected_event(pending[i].0),
        ) && now[2 * i + 1] == EffectV::User(pending[i].0) by {
            if i < n - 1 {
                assert(now[2 * i] == before[2 * i]);
                assert(now[2 * i + 1] == before[2 * i + 1]);
            }
        }
    }
}

/// An answer goes on the wire only when messages came meanwhile: then it stands
/// behind what was there as the assistant's, and the messages follow it in
/// order, each as it was typed. Without any the turn ends as it was.
pub proof fn an_answer_makes_way_for_what_was_typed(
    t: TurnV,
    text: Seq<char>,
    typed: Seq<Seq<char>>,
)
    ensures
        typed.len() == 0 ==> answered(t, text, typed).wire == t.wire && answered(
            t,
            text,
            typed,
        ).phase == crate::turn::Phase::Ended,
        typed.len() > 0 ==> {
            let wire = answered(t, text, typed).wire;
            let m = wire[t.wire.len() as int];
            &&& answered(t, text, typed).phase == crate::turn::Phase::Ready
            &&& wire.len() == t.wire.len() + 1 + typed.len()
            &&& forall|k: int| 0 <= k < t.wire.len() ==> #[trigger] wire[k] == t.wire[k]
            &&& m.text_at("role"@) == Some("assistant"@)
            &&& m.text_at("content"@) == Some(text)
            &&& forall|i: int|
                0 <= i < typed.len() ==> (#[trigger] wire[t.wire.len() + 1 + i]).text_at("role"@)
                    == Some("user"@) && wire[t.wire.len() + 1 + i].text_at("content"@) == Some(
                    typed[i],
                )
        },
{
    a_message_has_a_role_and_a_content("assistant"@, JsonV::Str(text));
    if typed.len() > 0 {
        let pending = as_typed(typed);
        let said = t.wire.push(crate::json::message("assistant"@, JsonV::Str(text)));
        messages_join_in_order(said, pending, pending.len());
        let wire = answered(t, text, typed).wire;
        assert(wire[t.wire.len() as int] == said[t.wire.len() as int]);
        assert forall|k: int| 0 <= k < t.wire.len() implies #[trigger] wire[k] == t.wire[k] by {
            assert(wire[k] == said[k]);
        }
        assert forall|i: int| 0 <= i < typed.len() implies (#[trigger] wire[t.wire.len() + 1
            + i]).text_at("role"@) == Some("user"@) && wire[t.wire.len() + 1 + i].text_at(
            "content"@,
        ) == Some(typed[i]) by {
            assert(wire[said.len() + i].get("content"@) == Some(pending[i].1));
        }
    }
}

/// The reply that answers is kept with its text, its sources and the tokens it
/// cost, and its sources are shown before that.
pub proof fn an_answer_is_kept(
    r: ReplyV,
    text: Seq<char>,
    info: RoundInfo,
    typed: Seq<Seq<char>>,
)
    ensures
        ({
            let all = answer_effects(r, text, info, typed);
            let at: int = if r.annotations.len() > 0 { 1 } else { 0 };
            &&& all.len() == at + if typed.len() == 0 { 1nat } else { 2 + 2 * typed.len() }
            &&& r.annotations.len() > 0 ==> all[0] == EffectV::Emit(citations_event(r.annotations))
            &&& all[at] matches EffectV::Assistant(a) && a.content == Some(text) && a.annotations
                == r.annotations && a.usage == info.usage && a.tool_calls.len() == 0
            &&& typed.len() > 0 ==> all[at + 1] == shown(text, info.streamed)
            &&& forall|i: int|
                0 <= i < typed.len() ==> #[trigger] all[at + 3 + 2 * i] == EffectV::User(typed[i])
        }),
{
    let pending = as_typed(typed);
    messages_are_shown_and_kept(pending, pending.len());
    let all = answer_effects(r, text, info, typed);
    let at: int = if r.annotations.len() > 0 { 1 } else { 0 };
    assert forall|i: int| 0 <= i < typed.len() implies #[trigger] all[at + 3 + 2 * i]
        == EffectV::User(typed[i]) by {
        let told = injected_effects(pending, pending.len());
        assert(told[2 * i] == EffectV::Emit(injected_event(pending[i].0)));
        assert(all[at + 3 + 2 * i] == told[2 * i + 1]);
    }
}

/// The events of a turn carry what they are about: a call its id, name and
/// arguments; a result the id and the name of its call, the result, and whether
/// it is an error; a message what was typed; a text itself, unless it was
/// streamed already.
pub proof fn events_say_what_happened(
    c: CallV,
    result: Seq<char>,
    images: u64,
    text: Seq<char>,
)
    ensures
        call_event(c).text_at("type"@) == Some("tool_call"@),
        call_event(c).text_at("id"@) == Some(c.id),
        call_event(c).text_at("name"@) == Some(c.name),
        call_event(c).text_at("arguments"@) == Some(c.arguments),
        result_event(c, result, images).text_at("type"@) == Some("tool_result"@),
        result_event(c, result, images).text_at("id"@) == Some(c.id),
        result_event(c, result, images).text_at("name"@) == Some(c.name),
        result_event(c, result, images).text_at("result"@) == Some(result),
        result_event(c, result, images).boolean_at("error"@) == Some(
            crate::rounds::is_error(result),
        ),
        result_event(c, result, images).unsigned_at("images"@) == Some(images),
        injected_event(text).text_at("type"@) == Some("injected"@),
        injected_event(text).text_at("content"@) == Some(text),
        shown(text, false) matches EffectV::Emit(e) && e.text_at("type"@) == Some("text"@)
            && e.text_at("content"@) == Some(text),
        shown(text, true) matches EffectV::Emit(e) && e.text_at("type"@) == Some("token"@)
            && e.text_at("content"@) == Some("\n\n"@),
{
    broadcast use {found_after_push, nothing_in_nothing};

    lemma_keys();
}

/// The sources are listed in order, each with its address and its title.
pub proof fn sources_are_listed_in_order(v: Seq<(Seq<char>, Option<Seq<char>>)>, i: int)
    requires
        0 <= i < v.len(),
    ensures
        citations_event(v).text_at("type"@) == Some("citations"@),
        citations_event(v).elements_at("sources"@) is Some,
        citations_event(v).elements_at("sources"@).unwrap().len() == v.len(),
        citations_event(v).elements_at("sources"@).unwrap()[i].text_at("url"@) == Some(v[i].0),
        citations_event(v).elements_at("sources"@).unwrap()[i].text_at("title"@) == v[i].1,
{
    broadcast use {found_after_push, nothing_in_nothing};

    lemma_keys();
}

/// Of a reply's calls exactly those that are not internal are shown, in order.
pub proof fn calls_are_shown_in_order(v: Seq<CallV>, internal: Seq<bool>, n: nat) -> (from: Seq<
    int,
>)
    requires
        n <= v.len(),
        internal.len() == v.len(),
    ensures
        from.len() == call_events(v, internal, n).len(),
        forall|i: int|
            0 <= i < from.len() ==> 0 <= #[trigger] from[i] < n && !internal[from[i]]
                && call_events(v, internal, n)[i] == EffectV::Emit(call_event(v[from[i]])),
        forall|i: int, j: int| 0 <= i < j < from.len() ==> #[trigger] from[i] < #[trigger] from[j],
        forall|k: int| 0 <= k < n && !#[trigger] internal[k] ==> from.contains(k),
    decreases n,
{
    if n == 0 {
        Seq::empty()
    } else {
        let most = calls_are_shown_in_order(v, internal, (n - 1) as nat);
        let from = if internal[n - 1] { most } else { most.push(n - 1) };
        assert forall|k: int| 0 <= k < n && !#[trigger] internal[k] implies from.contains(k) by {
            if k < n - 1 {
                let j = choose|j: int| 0 <= j < most.len() && most[j] == k;
                assert(from[j] == k);
            } else {
                assert(from[from.len() - 1] == k);
            }
        }
        from
    }
}

/// A reply with calls is kept whole before any of them is shown.
pub proof fn a_reply_with_calls_is_kept(r: ReplyV, info: RoundInfo, internal: Seq<bool>)
    ensures
        tools_effects(r, info, internal).len() > 0,
        tools_effects(r, info, internal)[0] matches EffectV::Assistant(a) && a.content == r.content
            && a.tool_calls == r.tool_calls && a.annotations == r.annotations && a.usage
            == info.usage,
        forall|i: int|
            0 < i < tools_effects(r, info, internal).len() ==> #[trigger] tools_effects(
                r,
                info,
                internal,
            )[i] is Emit,
{
    let n = r.tool_calls.len();
    lemma_call_events_emit(r.tool_calls, internal, n);
    let all = tools_effects(r, info, internal);
    let told = call_events(r.tool_calls, internal, n);
    assert forall|i: int| 0 < i < all.len() implies #[trigger] all[i] is Emit by {
        let first = all.len() - told.len();
        if i >= first {
            assert(all[i] == told[i - first]);
        }
    }
}

proof fn lemma_call_events_emit(v: Seq<CallV>, internal: Seq<bool>, n: nat)
    ensures
        forall|i: int|
            0 <= i < call_events(v, internal, n).len() ==> #[trigger] call_events(
                v,
                internal,
                n,
            )[i] is Emit,
    decreases n,
{
    if n > 0 && n <= v.len() {
        lemma_call_events_emit(v, internal, (n - 1) as nat);
    }
}

/// The transcript has a result under the id of its call: the result itself, or
/// for an internal call, of which nothing is shown, a word in its place.
pub proof fn a_result_is_kept_under_its_call(
    c: CallV,
    result: Seq<char>,
    images: u64,
    internal: bool,
)
    ensures
        !internal ==> {
            let all = result_effects(c, result, images, internal);
            all.len() == 2 && all[0] == EffectV::Emit(result_event(c, result, images)) && all[1]
                == EffectV::Tool(c.id, result)
        },
        internal ==> {
            let all = result_effects(c, result, images, internal);
            all.len() == 1 && (all[0] matches EffectV::Tool(id, text) && id == c.id && text
                == crate::turn::INTERNAL_RESULT@)
        },
{
}

/// A steering message rides the wire as the user's and is kept as the system's,
/// with the same words.
pub proof fn steering_rides_a_user_turn(t: TurnV, content: Seq<char>)
    ensures
        t.steered(content).wire.len() == t.wire.len() + 1,
        t.steered(content).wire.drop_last() == t.wire,
        t.steered(content).wire.last().text_at("role"@) == Some("user"@),
        t.steered(content).wire.last().text_at("content"@) == Some(content),
        steer_effect(content) == seq![EffectV::System(content)],
{
    a_message_has_a_role_and_a_content("user"@, JsonV::Str(content));
    assert(t.steered(content).wire.drop_last() =~= t.wire);
}

/// Thinking that was not streamed is shown with its text; thinking that was is
/// only counted.
pub proof fn thinking_is_shown_once(r: ReplyV, info: RoundInfo)
    ensures
        info.streamed_reasoning ==> {
            let all = reasoning_effects(r, info);
            all.len() == 1 && (all[0] matches EffectV::Emit(e) && e.text_at("type"@) == Some(
                "reasoning_done"@,
            ) && e.get("content"@) is None && e.unsigned_at("duration_ms"@) == Some(
                info.duration_ms,
            ))
        },
        !info.streamed_reasoning && r.thoughts.len() == 1 && r.thoughts[0].len() > 0 ==> {
            let all = reasoning_effects(r, info);
            all.len() == 1 && (all[0] matches EffectV::Emit(e) && e.text_at("type"@) == Some(
                "reasoning"@,
            ) && e.text_at("content"@) == Some(r.thoughts[0]) && e.unsigned_at("duration_ms"@)
                == Some(info.duration_ms))
        },
        !info.streamed_reasoning && r.thoughts.len() == 0 ==> reasoning_effects(r, info).len() == 0,
{
    broadcast use {found_after_push, nothing_in_nothing};

    lemma_keys();
}

/// An output that fits goes back whole; of a longer one as much of its front as
/// fits, with a mark that the rest is missing.
pub proof fn outputs_go_back_whole(output: Seq<char>)
    ensures
        utf8_len(output) <= MAX_TOOL_RESULT_CHARS ==> result_of(output) == output,
        utf8_len(output) > MAX_TOOL_RESULT_CHARS ==> exists|n: int|
            0 <= n < output.len() && utf8_len(output.take(n)) <= MAX_TOOL_RESULT_CHARS && utf8_len(
                output.take(n + 1),
            ) > MAX_TOOL_RESULT_CHARS && result_of(output) == #[trigger] output.take(n)
                + "\n... [truncated]"@,
{
    truncated_keeps_a_fitting_prefix(output, MAX_TOOL_RESULT_CHARS as int);
    if utf8_len(output) > MAX_TOOL_RESULT_CHARS {
        let n = choose|n: int|
            0 <= n <= output.len() && utf8_len(output.take(n)) <= MAX_TOOL_RESULT_CHARS && (n
                < output.len() ==> utf8_len(output.take(n + 1)) > MAX_TOOL_RESULT_CHARS)
                && result_of(output) == #[trigger] output.take(n) + "\n... [truncated]"@;
        assert(output.take(output.len() as int) =~= output);
        assert(n < output.len());
    }
}

/// A piece that arrives is shown as it is: text as text, and thinking with the
/// count of all thinking so far.
pub proof fn pieces_are_shown_as_they_arrive(delta: Seq<char>, chars: nat, n: u64)
    requires
        4 * n >= chars,
        4 * n < chars + 4,
    ensures
        token_value(delta).text_at("type"@) == Some("token"@),
        token_value(delta).text_at("content"@) == Some(delta),
        thinking_value(delta, chars as int).text_at("type"@) == Some("reasoning_delta"@),
        thinking_value(delta, chars as int).text_at("content"@) == Some(delta),
        thinking_value(delta, chars as int).unsigned_at("tokens"@) == Some(n),
{
    broadcast use {found_after_push, nothing_in_nothing};

    lemma_keys();
}

} // verus!
