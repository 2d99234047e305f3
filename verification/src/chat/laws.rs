//! What holds of every conversation: how it is opened, folded, named and carried
//! on.

use vstd::prelude::*;

use crate::chat::args::{one_shot, resume_of, ArgsV, ResumeV};
use crate::chat::goal::{
    carried_on, compacted_event, summary_of, turn_counted, verdict_event, verdict_told,
    wire_messages, GoalLoop, GoalStep, Judgment, SUMMARY_LEAD,
};
use crate::chat::history::{
    asked, bad_role, due_for_a_name, folded, folded_head, is_role, naming_request, naming_text,
    naming_turn, opener_of, plain_messages, prompt_of, skill_ask, skill_spelled, split_at,
    summary_request, title_of, transcript_text, turn_spelled, user_turns,
};
use crate::chat::run::{permission, route_of, setup_step, Route, SetupStep};
use crate::json::{found_after_push, nothing_in_nothing, JsonV};
use crate::message::MessageV;
use crate::text::affix::{
    after_prefix, holds, is_space, lemma_holds_between, lemma_holds_wider, opens, trimmed,
    trimmed_end, trimmed_start,
};
use crate::text::cut::truncated;
use crate::text::pieces::{first_of, lemma_first_of, lemma_word_end, lines_of};
use crate::tools::approval::Mode;

verus! {

proof fn lemma_keys()
    ensures
        "role"@ != "content"@,
        "type"@ != "verdict"@,
        "type"@ != "reason"@,
        "type"@ != "turn"@,
        "type"@ != "final"@,
        "type"@ != "summary"@,
        "type"@ != "folded"@,
        "type"@ != "messages"@,
        "verdict"@ != "reason"@,
        "verdict"@ != "turn"@,
        "verdict"@ != "final"@,
        "reason"@ != "turn"@,
        "reason"@ != "final"@,
        "turn"@ != "final"@,
        "summary"@ != "folded"@,
        "summary"@ != "messages"@,
        "folded"@ != "messages"@,
        "user"@ != "assistant"@,
        "user"@ != "system"@,
        "assistant"@ != "system"@,
{
    reveal_strlit("role");
    reveal_strlit("content");
    reveal_strlit("type");
    reveal_strlit("verdict");
    reveal_strlit("reason");
    reveal_strlit("turn");
    reveal_strlit("final");
    reveal_strlit("summary");
    reveal_strlit("folded");
    reveal_strlit("messages");
    reveal_strlit("user");
    reveal_strlit("assistant");
    reveal_strlit("system");
    assert("role"@.len() == 4 && "content"@.len() == 7 && "type"@.len() == 4);
    assert("verdict"@.len() == 7 && "reason"@.len() == 6 && "turn"@.len() == 4);
    assert("final"@.len() == 5 && "summary"@.len() == 7 && "folded"@.len() == 6);
    assert("messages"@.len() == 8 && "user"@.len() == 4 && "assistant"@.len() == 9);
    assert("system"@.len() == 6);
    assert("type"@[1] != "turn"@[1]);
}

/// A verdict on the goal is told with its reason, the turn it came after and
/// whether it is the last.
pub proof fn a_verdict_tells_its_reason(
    verdict: Seq<char>,
    reason: Seq<char>,
    turn: u64,
    last: bool,
)
    ensures
        ({
            let e = verdict_event(verdict, reason, turn, last);
            &&& e.text_at("type"@) == Some("goal_verdict"@)
            &&& e.text_at("verdict"@) == Some(verdict)
            &&& e.text_at("reason"@) == Some(reason)
            &&& e.unsigned_at("turn"@) == Some(turn)
            &&& e.boolean_at("final"@) == Some(last)
        }),
{
    broadcast use {found_after_push, nothing_in_nothing};

    lemma_keys();
}

/// Messages go on the wire in order, each with its role and its content.
pub proof fn messages_keep_role_and_content(v: Seq<MessageV>, i: int)
    requires
        0 <= i < v.len(),
    ensures
        wire_messages(v).elements() is Some,
        wire_messages(v).elements().unwrap().len() == v.len(),
        wire_messages(v).elements().unwrap()[i].text_at("role"@) == Some(v[i].role),
        wire_messages(v).elements().unwrap()[i].get("content"@) == Some(v[i].content),
{
    broadcast use {found_after_push, nothing_in_nothing};

    lemma_keys();
}

/// A folded conversation is told with its summary, its messages and how many of
/// the old ones went into the summary.
pub proof fn folding_is_told(history: Seq<MessageV>, summary: Seq<char>)
    requires
        history.len() < u64::MAX,
    ensures
        ({
            let e = compacted_event(history.len() as int, folded(history, summary));
            &&& e.text_at("summary"@) == Some(summary)
            &&& e.unsigned_at("folded"@) == Some(split_at(history.len() as int) as u64)
            &&& e.get("messages"@) == Some(wire_messages(folded(history, summary)))
        }),
{
    broadcast use {found_after_push, nothing_in_nothing};

    lemma_keys();
    crate::chat::history::folding_keeps_the_tail(history, summary);
}

/// A conversation that goes on keeps what it had, or what it was folded to; the
/// reply and then the steering follow, the one as the assistant's, the other as
/// the user's.
pub proof fn a_goal_carries_the_conversation_on(
    history: Seq<MessageV>,
    compacted: Option<Seq<MessageV>>,
    reply: Seq<char>,
    steering: Seq<char>,
)
    ensures
        ({
            let now = carried_on(history, compacted, reply, steering);
            let n = now.len() as int;
            &&& n >= 2
            &&& now[n - 2].role == "assistant"@ && now[n - 2].text == reply
            &&& now[n - 1].role == "user"@ && now[n - 1].text == steering
            &&& now[n - 2].content == JsonV::Str(reply) && now[n - 1].content == JsonV::Str(
                steering,
            )
            &&& compacted is None ==> now.take(n - 2) == history
            &&& compacted matches Some(c) ==> now.take(n - 2) == c
        }),
{
    let now = carried_on(history, compacted, reply, steering);
    let base = if compacted is Some { compacted.unwrap() } else { history };
    assert(now.take(now.len() - 2) =~= base);
}

/// A fold replaces the front of a conversation by one message with the summary,
/// and leaves the last messages as they were.
pub proof fn a_fold_keeps_the_last_messages(history: Seq<MessageV>, summary: Seq<char>)
    ensures
        folded(history, summary)[0].role == "assistant"@,
        folded(history, summary)[0].text == SUMMARY_LEAD@ + summary,
        history.len() > 6 ==> folded(history, summary).len() == 7 && folded(
            history,
            summary,
        ).drop_first() == history.skip(history.len() - 6),
        history.len() <= 6 ==> folded(history, summary).drop_first() == history,
{
    assert(folded(history, summary).drop_first() =~= history.skip(split_at(history.len() as int)));
    if history.len() <= 6 {
        assert(history.skip(0) =~= history);
    }
}

/// What is summarised is everything that a fold takes away: each such message
/// stands in the request with its role and its text.
pub proof fn a_summary_reads_what_is_folded_away(history: Seq<MessageV>, i: int)
    requires
        0 <= i < history.len(),
        i < history.len() - 6 || history.len() <= 6,
    ensures
        summary_request(history).len() == 2,
        summary_request(history)[0].role == "system"@,
        summary_request(history)[1].role == "user"@,
        holds(
            summary_request(history)[1].text,
            history[i].role + ": "@ + history[i].text + "\n\n"@,
        ),
{
    let head = folded_head(history);
    assert(head[i] == history[i]);
    lemma_transcript_holds(head, i);
}

proof fn lemma_transcript_holds(v: Seq<MessageV>, i: int)
    requires
        0 <= i < v.len(),
    ensures
        holds(transcript_text(v), v[i].role + ": "@ + v[i].text + "\n\n"@),
    decreases v.len(),
{
    let before = transcript_text(v.drop_last());
    let row = v.last().role + ": "@ + v.last().text + "\n\n"@;
    let want = v[i].role + ": "@ + v[i].text + "\n\n"@;
    if i == v.len() - 1 {
        assert(transcript_text(v) =~= before + row + Seq::empty());
        lemma_holds_between(before, row, Seq::empty());
    } else {
        lemma_transcript_holds(v.drop_last(), i);
        assert(v.drop_last()[i] == v[i]);
        assert(transcript_text(v) =~= Seq::empty() + before + row);
        lemma_holds_wider(Seq::empty(), before, row, want);
    }
}

/// A prompt becomes one message of the user's, with the prompt as its text.
pub proof fn a_prompt_is_asked(prompt: Seq<char>)
    ensures
        asked(prompt).len() == 1,
        asked(prompt)[0].role == "user"@,
        asked(prompt)[0].text == prompt,
        asked(prompt)[0].content == JsonV::Str(prompt),
{
}

/// The prompt of a run is what was typed without the blanks around it; a blank
/// one is none.
pub proof fn blank_prompts_are_none(a: ArgsV)
    ensures
        prompt_of(a) matches Some(p) ==> p.len() > 0 && a.prompt is Some && p == trimmed(
            a.prompt.unwrap(),
        ),
        prompt_of(a) is None <==> a.prompt is None || trimmed(a.prompt.unwrap()).len() == 0,
{
}

/// A list of messages is refused for the first role that is none of the three;
/// a list of known roles is taken, message for message.
pub proof fn unknown_roles_are_refused(v: Seq<(Seq<char>, Seq<char>)>, i: int)
    requires
        0 <= i <= v.len(),
        forall|k: int|
            0 <= k < i ==> (#[trigger] v[k]).0 == "user"@ || v[k].0 == "assistant"@ || v[k].0
                == "system"@,
        i < v.len() ==> v[i].0 != "user"@ && v[i].0 != "assistant"@ && v[i].0 != "system"@,
    ensures
        i < v.len() ==> bad_role(v) == Some(v[i].0),
        i == v.len() ==> bad_role(v) is None,
        plain_messages(v).len() == v.len(),
        forall|k: int|
            0 <= k < v.len() ==> (#[trigger] plain_messages(v)[k]).role == v[k].0
                && plain_messages(v)[k].text == v[k].1,
    decreases v.len(),
{
    if i > 0 {
        let t = v.drop_first();
        assert(is_role(v[0].0));
        assert forall|k: int| 0 <= k < i - 1 implies (#[trigger] t[k]).0 == "user"@ || t[k].0
            == "assistant"@ || t[k].0 == "system"@ by {
            assert(t[k] == v[k + 1]);
        }
        unknown_roles_are_refused(t, i - 1);
    }
}

/// A skill is asked for by a slash and its name; what follows the name is what
/// it is asked to do.
pub proof fn a_slash_asks_for_a_skill(name: Seq<char>, rest: Seq<char>)
    requires
        forall|i: int| 0 <= i < name.len() ==> !is_space(#[trigger] name[i]),
    ensures
        skill_ask("/"@ + name + " "@ + rest) == Some((name, trimmed_start(rest))),
        skill_ask("/"@ + name) == Some((name, Seq::<char>::empty())),
{
    reveal_strlit("/");
    reveal_strlit(" ");
    let text = "/"@ + name + " "@ + rest;
    let tail = name + " "@ + rest;
    assert(text.take(1) =~= "/"@);
    assert(text.skip(1) =~= tail);
    assert(after_prefix(text, "/"@) == Some(tail));
    assert(is_space(' '));
    assert forall|k: int| 0 <= k < name.len() implies !is_space(#[trigger] tail[k]) by {
        assert(tail[k] == name[k]);
    }
    assert(tail[name.len() as int] == ' ');
    lemma_word_end(tail, name.len() as int);
    assert(tail.take(name.len() as int) =~= name);
    assert(tail.skip((name.len() + 1) as int) =~= rest);
    let alone = "/"@ + name;
    assert(alone.take(1) =~= "/"@);
    assert(alone.skip(1) =~= name);
    lemma_word_end(name, name.len() as int);
}

/// A skill that is not there leaves the text; only the user's turns are spelled
/// out, and only those that open with a slash.
pub proof fn other_turns_stay(m: MessageV, skill: Option<Seq<char>>)
    ensures
        skill_spelled(m.text, None) == m.text,
        m.role != "user"@ || !opens(m.text, "/"@) ==> turn_spelled(m, skill) == m,
        turn_spelled(m, skill).role == m.role,
        skill is Some && skill_ask(m.text) is Some ==> skill_spelled(m.text, skill) == trimmed_end(
            "Use the \""@ + skill.unwrap() + "\" skill: "@ + skill_ask(m.text).unwrap().1,
        ),
{
}

/// A session's opener is the first thing the user said.
pub proof fn the_opener_is_the_first_turn(v: Seq<MessageV>, i: int)
    requires
        0 <= i <= v.len(),
        forall|k: int| 0 <= k < i ==> (#[trigger] v[k]).role != "user"@,
        i < v.len() ==> v[i].role == "user"@,
    ensures
        i < v.len() ==> opener_of(v) == Some(v[i].text),
        i == v.len() ==> opener_of(v) is None,
    decreases i,
{
    if i > 0 {
        assert(v[0].role != "user"@);
        let t = v.drop_first();
        assert forall|k: int| 0 <= k < i - 1 implies (#[trigger] t[k]).role != "user"@ by {
            assert(t[k] == v[k + 1]);
        }
        the_opener_is_the_first_turn(t, i - 1);
    }
}

/// Every turn of the user's counts, and no other.
pub proof fn only_the_user_takes_turns(v: Seq<MessageV>, m: MessageV)
    ensures
        user_turns(v.push(m)) == user_turns(v) + if m.role == "user"@ { 1nat } else { 0nat },
        user_turns(Seq::empty()) == 0,
{
    assert(v.push(m).drop_last() =~= v);
}

/// A session is named after its first turn when that tells what it is about, and
/// after its second otherwise; once it has a name it keeps it, and a sub-agent's
/// has none.
pub proof fn a_session_is_named_once(
    v: Seq<MessageV>,
    sub_agent: bool,
    recorded: bool,
    titled: bool,
)
    ensures
        naming_turn(v) == 1 || naming_turn(v) == 2,
        sub_agent ==> !due_for_a_name(v, sub_agent, recorded, titled),
        recorded && titled ==> !due_for_a_name(v, sub_agent, recorded, titled),
        user_turns(v) < naming_turn(v) ==> !due_for_a_name(v, sub_agent, recorded, titled),
        !sub_agent && recorded && !titled && user_turns(v) >= naming_turn(v) ==> due_for_a_name(
            v,
            sub_agent,
            recorded,
            titled,
        ),
        !sub_agent && !recorded ==> (due_for_a_name(v, sub_agent, recorded, titled) <==> user_turns(
            v,
        ) == naming_turn(v)),
{
}

/// A name is asked for with what was said on both sides: each turn stands in the
/// request with its role, cut to its size.
pub proof fn a_name_is_asked_of_what_was_said(v: Seq<MessageV>, i: int)
    requires
        0 <= i < v.len(),
    ensures
        naming_request(v).len() == 2,
        naming_request(v)[0].role == "system"@,
        naming_request(v)[1].role == "user"@,
        v[i].role == "user"@ ==> holds(
            naming_request(v)[1].text,
            "user"@ + ": "@ + truncated(trimmed(v[i].text), 2000) + "\n\n"@,
        ),
        v[i].role == "assistant"@ ==> holds(
            naming_request(v)[1].text,
            "assistant"@ + ": "@ + truncated(trimmed(v[i].text), 500) + "\n\n"@,
        ),
    decreases v.len(),
{
    lemma_keys();
    let before = naming_text(v.drop_last());
    let m = v.last();
    let row = if m.role == "user"@ {
        m.role + ": "@ + truncated(trimmed(m.text), 2000) + "\n\n"@
    } else if m.role == "assistant"@ {
        m.role + ": "@ + truncated(trimmed(m.text), 500) + "\n\n"@
    } else {
        Seq::empty()
    };
    assert(naming_text(v) =~= before + row + Seq::empty());
    if i == v.len() - 1 {
        lemma_holds_between(before, row, Seq::empty());
    } else {
        a_name_is_asked_of_what_was_said(v.drop_last(), i);
        assert(v.drop_last()[i] == v[i]);
        assert(naming_text(v) =~= Seq::empty() + before + row);
        if v[i].role == "user"@ {
            lemma_holds_wider(
                Seq::empty(),
                before,
                row,
                "user"@ + ": "@ + truncated(trimmed(v[i].text), 2000) + "\n\n"@,
            );
        }
        if v[i].role == "assistant"@ {
            lemma_holds_wider(
                Seq::empty(),
                before,
                row,
                "assistant"@ + ": "@ + truncated(trimmed(v[i].text), 500) + "\n\n"@,
            );
        }
    }
}

/// What a run may do: the mode that was asked for comes before the configured
/// one; edits take a wish, the right, and someone to ask where every edit is
/// confirmed.
pub proof fn a_run_may_do_what_it_was_allowed(
    a: ArgsV,
    configured: Mode,
    can_edit: bool,
    interactive: bool,
)
    ensures
        ({
            let p = permission(a, configured, can_edit, interactive);
            let wish = a.permission_mode is Some || interactive || a.allow_edits;
            &&& a.permission_mode matches Some(m) ==> p.mode == m
            &&& a.permission_mode is None ==> p.mode == configured
            &&& p.yolo <==> p.mode == Mode::Yolo
            &&& p.allow_edits ==> can_edit && wish
            &&& can_edit && wish && (p.mode != Mode::Manual || interactive || a.stream
                || a.no_tools) ==> p.allow_edits
            &&& p.read_only <==> can_edit && wish && !p.allow_edits
        }),
{
}

/// A run takes the way its arguments say: folding comes first, then the screen,
/// then the stream, then the bare answer.
pub proof fn runs_go_their_way(a: ArgsV, interactive: bool)
    ensures
        a.compact <==> route_of(a, interactive) == Route::Compact,
        !a.compact && interactive <==> route_of(a, interactive) == Route::Interactive,
        !a.compact && !interactive && resume_of(a) != ResumeV::Pick ==> {
            &&& a.stream <==> route_of(a, interactive) == Route::Stream
            &&& !a.stream && a.no_tools <==> route_of(a, interactive) == Route::Plain
            &&& !a.stream && !a.no_tools <==> route_of(a, interactive) == Route::Agent
        },
        !a.compact && !interactive && resume_of(a) == ResumeV::Pick ==> route_of(a, interactive)
            == Route::NeedsTerminal,
{
}

/// A session that is named by its id is the one resumed, however it was named;
/// without an id one is picked where that was asked for, and else the latest
/// goes on only where that was.
pub proof fn a_session_is_resumed_by_its_id(a: ArgsV, id: Seq<char>)
    ensures
        a.resume == Some(Some(id)) ==> resume_of(a) == ResumeV::Id(id),
        a.session == Some(id) && (a.resume is None || a.resume == Some(None::<Seq<char>>))
            ==> resume_of(a) == ResumeV::Id(id),
        a.session is None && a.resume == Some(None::<Seq<char>>) ==> resume_of(a) == ResumeV::Pick,
        a.session is None && a.resume is None ==> (resume_of(a) == ResumeV::Latest
            <==> a.continue_session),
        a.session is None && a.resume is None && !a.continue_session ==> resume_of(a)
            == ResumeV::New,
{
}

/// A run that only prints, streams or answers is no conversation on a screen.
pub proof fn printing_runs_once(a: ArgsV, json: bool)
    ensures
        one_shot(a, json) <==> (json || a.print || a.stream || a.no_tools || a.messages_json
            is Some),
{
}

/// Setting up is offered only where something is missing, and on a screen only
/// where someone sits at it.
pub proof fn setup_is_offered_where_it_helps(
    stream: bool,
    missing: bool,
    attended: bool,
    json: bool,
)
    ensures
        setup_step(stream, missing, attended, json) == SetupStep::Emit <==> missing && stream,
        setup_step(stream, missing, attended, json) == SetupStep::Onboard <==> missing && !stream
            && attended && !json,
{
}

/// The summary of a fold is read back without its lead.
pub proof fn a_summary_is_read_back(summary: Seq<char>, rest: Seq<MessageV>)
    ensures
        summary_of(
            seq![crate::message::plain_message("assistant"@, SUMMARY_LEAD@ + summary)] + rest,
        ) == summary,
{
    let raw = SUMMARY_LEAD@ + summary;
    assert(raw.take(SUMMARY_LEAD@.len() as int) =~= SUMMARY_LEAD@);
    assert(raw.skip(SUMMARY_LEAD@.len() as int) =~= summary);
}

/// A name that is one line, of fitting length, with nothing around it that names
/// are stripped of, is taken as it is.
pub proof fn a_clean_name_stays(t: Seq<char>)
    requires
        0 < t.len() <= 60,
        trimmed(t) == t,
        !t.contains('\n'),
        !"#"@.contains(t[0]),
        !"\"'`"@.contains(t[0]),
        !"\"'`"@.contains(t.last()),
        !"."@.contains(t.last()),
    ensures
        title_of(t) == Some(t),
{
    assert forall|k: int| 0 <= k < t.len() implies #[trigger] t[k] != '\n' by {}
    lemma_first_of(t, '\n', t.len() as int);
    assert(first_of(t, '\n') == t.len());
    assert(lines_of(t) =~= seq![t]);
}

/// A goal is judged after every turn until its tries are used up, and then given
/// up, once and for good; without a goal one turn is enough.
pub proof fn a_goal_is_tried_so_often(was: GoalLoop, now: GoalLoop, s: GoalStep)
    requires
        turn_counted(was, now, s),
        was.turns < u64::MAX,
        was.turns < usize::MAX,
    ensures
        now.turns == was.turns + 1,
        now.max_turns == was.max_turns && now.has_goal == was.has_goal,
        s is Finish <==> !was.has_goal,
        s is Judge <==> was.has_goal && was.turns + 1 < was.max_turns,
        s is GiveUp <==> was.has_goal && was.turns + 1 >= was.max_turns,
        s matches GoalStep::GiveUp(e) ==> e@.boolean_at("final"@) == Some(true) && e@.unsigned_at(
            "turn"@,
        ) == Some((was.turns + 1) as u64),
{
    match s {
        GoalStep::GiveUp(e) => {
            a_verdict_tells_its_reason(
                "not_yet"@,
                "stopped after "@ + crate::text::number::dec(was.max_turns as nat)
                    + " tries without reaching it"@,
                now.turns as u64,
                true,
            );
        },
        _ => {},
    }
}

/// Only a goal that is not reached yet goes on; a judge that fails ends the run
/// with the failure, and any other verdict is told in the judge's own words.
pub proof fn only_not_yet_goes_on(g: GoalLoop, judgment: Judgment, over: bool, event: JsonV)
    requires
        verdict_told(g, judgment, over, event),
    ensures
        over <==> !(judgment is NotYet),
        event.boolean_at("final"@) == Some(over),
        event.unsigned_at("turn"@) == Some(g.turns as u64),
        judgment matches Judgment::NotYet { word, reason } ==> event.text_at("verdict"@) == Some(
            word@,
        ) && event.text_at("reason"@) == Some(reason@),
        judgment matches Judgment::Settled { word, reason } ==> event.text_at("verdict"@) == Some(
            word@,
        ) && event.text_at("reason"@) == Some(reason@),
        judgment matches Judgment::Failed(e) ==> event.text_at("verdict"@) == Some("not_yet"@)
            && holds(event.text_at("reason"@).unwrap(), e@),
{
    match judgment {
        Judgment::Failed(e) => {
            let why = "couldn't check progress: "@ + e@;
            a_verdict_tells_its_reason("not_yet"@, why, g.turns as u64, true);
            assert(why =~= "couldn't check progress: "@ + e@ + Seq::empty());
            lemma_holds_between("couldn't check progress: "@, e@, Seq::empty());
        },
        Judgment::NotYet { word, reason } => {
            a_verdict_tells_its_reason(word@, reason@, g.turns as u64, false);
        },
        Judgment::Settled { word, reason } => {
            a_verdict_tells_its_reason(word@, reason@, g.turns as u64, true);
        },
    }
}

} // verus!
