use aster::json::Json;
use aster::message::{ChatMessage, Effect, ToolCall};
use aster::plan::{plan_snapshot, PlanState};
use aster::rounds::{NoProgress, RoundCall, RoundVerdict};
use aster::steering::{
    announces_pending_work, awaits_an_answer, budget_notice, is_tool_unsupported, ModelFailure,
    DANGLING_INTENT_CORRECTION, DEGENERATE_CORRECTION, EMPTY_CORRECTION, PROMISED_WORK_KICK,
};
use aster::turn::steps::final_reply;
use aster::turn::{
    Advice, CloseStep, FailureStep, Injected, Phase, Reply, ReplyStep, RoundInfo, Turn,
};

fn fresh(rounds: usize) -> Turn {
    let history = vec![ChatMessage::plain("user", "do it")];
    Turn::start("system", &history, plan_snapshot(&PlanState::new()), rounds).0
}

fn info() -> RoundInfo {
    RoundInfo {
        streamed: false,
        streamed_reasoning: false,
        reasoning_chars: 0,
        duration_ms: 1,
        usage: None,
    }
}

fn says(text: &str) -> Reply {
    Reply {
        content: Some(text.to_string()),
        tool_calls: Vec::new(),
        annotations: Vec::new(),
        reasoning_details: Vec::new(),
        thoughts: Vec::new(),
    }
}

fn call(name: &str, arguments: &str) -> ToolCall {
    ToolCall {
        id: "c1".to_string(),
        name: name.to_string(),
        arguments: arguments.to_string(),
        extra_content: None,
    }
}

fn last_text(t: &Turn) -> String {
    t.wire[t.wire.len() - 1].str_at("content").unwrap_or("").to_string()
}

fn plan() -> aster::plan::PlanSnapshot {
    plan_snapshot(&PlanState::new())
}

#[test]
fn a_turn_opens_with_the_system_prompt_and_the_history() {
    let t = fresh(3);
    assert_eq!(t.wire.len(), 2);
    assert_eq!(t.wire[0].str_at("role"), Some("system"));
    assert_eq!(t.wire[1].str_at("content"), Some("do it"));
    assert_eq!(t.round_cap, 3);
}

#[test]
fn a_promise_left_open_is_kicked() {
    let history = vec![
        ChatMessage::plain("user", "fix it"),
        ChatMessage::plain("assistant", "Right. I'll now read the file."),
        ChatMessage::plain("user", "go"),
    ];
    let (t, effects) = Turn::start("s", &history, plan(), 3);
    assert_eq!(last_text(&t), PROMISED_WORK_KICK);
    assert!(matches!(&effects[0], Effect::System(s) if s == PROMISED_WORK_KICK));
}

#[test]
fn rounds_stop_at_the_cap() {
    let mut t = fresh(2);
    for _ in 0..2 {
        assert!(t.open_round(plan()));
        let (step, _) = t.take_reply(&says(""), info());
        assert_eq!(step, ReplyStep::Again);
    }
    assert!(!t.open_round(plan()));
    assert_eq!(t.phase, Phase::Ended);
}

#[test]
fn an_unfinished_plan_that_moved_extends_the_cap() {
    let mut t = fresh(1);
    let mut p = PlanState::new();
    assert!(t.open_round(plan_snapshot(&p)));
    t.take_reply(&says(""), info());
    let steps = vec![("one".to_string(), Some("in_progress".to_string()))];
    p.update_plan(&steps).expect("a plan");
    assert!(t.open_round(plan_snapshot(&p)));
    assert_eq!(t.extensions, 1);
    assert_eq!(t.round_cap, 2);
    t.take_reply(&says(""), info());
    assert!(!t.open_round(plan_snapshot(&p)));
}

#[test]
fn silence_is_asked_again_twice_and_then_forced() {
    let mut t = fresh(10);
    for _ in 0..2 {
        t.open_round(plan());
        let (step, effects) = t.take_reply(&says("  "), info());
        assert_eq!(step, ReplyStep::Again);
        assert_eq!(last_text(&t), EMPTY_CORRECTION);
        assert!(matches!(&effects[0], Effect::System(s) if s == EMPTY_CORRECTION));
    }
    t.open_round(plan());
    let (step, _) = t.take_reply(&says(""), info());
    assert_eq!(step, ReplyStep::ForceAnswer);
    let effects = t.force_answer();
    assert_eq!(effects.len(), 1);
}

#[test]
fn the_third_promise_stands() {
    let promise = "Right. I'll now read the file.";
    assert!(announces_pending_work(promise));
    let mut t = fresh(10);
    for _ in 0..2 {
        t.open_round(plan());
        let (step, _) = t.take_reply(&says(promise), info());
        assert_eq!(step, ReplyStep::Again);
        assert_eq!(last_text(&t), DANGLING_INTENT_CORRECTION);
    }
    t.open_round(plan());
    let (step, _) = t.take_reply(&says(promise), info());
    assert_eq!(step, ReplyStep::Answer);
}

#[test]
fn an_answer_ends_the_turn_unless_something_was_typed() {
    let mut t = fresh(5);
    t.open_round(plan());
    let reply = says("done.");
    assert_eq!(t.take_reply(&reply, info()).0, ReplyStep::Answer);
    let (over, effects) = t.answer(&reply, "done.", info(), &Vec::new());
    assert!(over);
    assert!(matches!(&effects[0], Effect::Assistant(r) if r.content.as_deref() == Some("done.")));

    let mut t = fresh(5);
    t.open_round(plan());
    t.take_reply(&reply, info());
    let typed = vec!["first".to_string(), "more".to_string()];
    let (over, _) = t.answer(&reply, "done.", info(), &typed);
    assert!(!over);
    assert_eq!(last_text(&t), "more");
    assert_eq!(t.phase, Phase::Ready);
}

#[test]
fn a_degenerate_reply_is_steered_twice() {
    let failure = ModelFailure { degenerate: true, text: "repeats".to_string() };
    let mut t = fresh(10);
    for _ in 0..2 {
        t.open_round(plan());
        assert_eq!(t.model_failed(&failure).0, FailureStep::Again);
        assert_eq!(last_text(&t), DEGENERATE_CORRECTION);
    }
    t.open_round(plan());
    assert_eq!(t.model_failed(&failure).0, FailureStep::Fail);
}

#[test]
fn a_model_without_tools_is_asked_plainly_in_the_first_round() {
    let failure = ModelFailure {
        degenerate: false,
        text: "No endpoints found that support tool use".to_string(),
    };
    assert!(is_tool_unsupported(&failure));
    let mut t = fresh(10);
    t.open_round(plan());
    assert_eq!(t.model_failed(&failure).0, FailureStep::PlainChat);
}

#[test]
fn advice_steers_or_stops() {
    let mut t = fresh(3);
    t.open_round(plan());
    assert_eq!(t.take_advice(Advice::Nothing).len(), 0);
    assert_eq!(t.take_advice(Advice::Retry).len(), 1);
    assert!(last_text(&t).contains("not working"));
    t.take_advice(Advice::Stop);
    assert_eq!(t.phase, Phase::Ended);
}

#[test]
fn the_budget_is_told_once_at_half() {
    let mut t = fresh(4);
    let mut told: usize = 0;
    for _ in 0..4 {
        t.open_round(plan());
        if !t.tell_budget().is_empty() {
            told += 1;
            assert_eq!(last_text(&t), budget_notice(2, 4));
            assert_eq!(t.round, 3);
        }
        let calls = vec![call("edit_file", "{}")];
        let reply = Reply { tool_calls: calls, ..says("") };
        assert_eq!(t.take_reply(&reply, info()).0, ReplyStep::Tools);
        t.open_tools(&reply, info(), &vec![false]);
        let (done, _) = t.tool_result(&reply.tool_calls[0], "ok", &Vec::new(), false);
        t.close_round(&vec![done], &vec![false]);
    }
    assert_eq!(told, 1);
}

#[test]
fn repeated_calls_are_corrected_and_then_fail() {
    let mut t = fresh(20);
    let mut steps = Vec::new();
    for _ in 0..8 {
        if !t.open_round(plan()) {
            break;
        }
        let reply = Reply { tool_calls: vec![call("read_file", "{\"path\":\"a\"}")], ..says("") };
        t.take_reply(&reply, info());
        t.open_tools(&reply, info(), &vec![false]);
        let (done, _) = t.tool_result(&reply.tool_calls[0], "same", &Vec::new(), false);
        let (step, _) = t.close_round(&vec![done], &vec![false]);
        steps.push(step);
        if step != CloseStep::Next {
            break;
        }
    }
    assert_eq!(steps.last(), Some(&CloseStep::Fail));
    assert!(steps.len() > 3);
}

#[test]
fn three_identical_rounds_are_corrected_and_three_more_end_the_turn() {
    let mut p = NoProgress::new();
    let verdicts: Vec<RoundVerdict> = (0..6).map(|_| p.feed(7, false, true)).collect();
    assert_eq!(
        verdicts,
        vec![
            RoundVerdict::Continue,
            RoundVerdict::Continue,
            RoundVerdict::Correct,
            RoundVerdict::Continue,
            RoundVerdict::Continue,
            RoundVerdict::Abort,
        ]
    );
}

#[test]
fn progress_resets_the_streaks() {
    let mut p = NoProgress::new();
    assert_eq!(p.feed(1, false, true), RoundVerdict::Continue);
    assert_eq!(p.feed(1, false, true), RoundVerdict::Continue);
    assert_eq!(p.feed(2, false, true), RoundVerdict::Continue);
    assert_eq!(p.feed(1, false, true), RoundVerdict::Continue);
}

#[test]
fn internal_results_are_kept_out_of_the_transcript() {
    let mut t = fresh(3);
    t.open_round(plan());
    let reply = Reply { tool_calls: vec![call("read_skill", "{}")], ..says("") };
    t.take_reply(&reply, info());
    t.open_tools(&reply, info(), &vec![true]);
    let (_, effects) = t.tool_result(&reply.tool_calls[0], "secret", &Vec::new(), true);
    assert_eq!(effects.len(), 1);
    assert!(matches!(&effects[0], Effect::Tool(id, text) if id == "c1" && text != "secret"));
    assert_eq!(last_text(&t), "secret");
}

#[test]
fn pictures_of_earlier_calls_are_retired() {
    let mut t = fresh(5);
    for n in 0..2 {
        t.open_round(plan());
        let reply = Reply { tool_calls: vec![call("shot", &format!("{{\"n\":{n}}}"))], ..says("") };
        t.take_reply(&reply, info());
        t.open_tools(&reply, info(), &vec![false]);
        let images = vec![format!("data:{n}")];
        let (done, _) = t.tool_result(&reply.tool_calls[0], "ok", &images, false);
        t.close_round(&vec![done], &vec![false]);
    }
    let shown: usize = t
        .wire
        .iter()
        .filter_map(|m| m.array_at("content"))
        .flatten()
        .filter(|p| p.str_at("type") == Some("image_url"))
        .count();
    assert!(shown <= 2);
    assert!(shown >= 1);
}

#[test]
fn a_silent_turn_still_says_something() {
    let (text, _) = final_reply(&None);
    assert!(text.contains("The model returned nothing"));
    let (text, _) = final_reply(&Some("hi".to_string()));
    assert_eq!(text, "hi");
}

#[test]
fn questions_are_not_promises() {
    assert!(awaits_an_answer("Shall I go on?"));
    assert!(!announces_pending_work("All tests pass."));
}

#[test]
fn a_round_signature_depends_on_the_calls() {
    let one = vec![RoundCall {
        name: "a".to_string(),
        arguments: "1".to_string(),
        result: "r".to_string(),
    }];
    let two = vec![RoundCall {
        name: "a".to_string(),
        arguments: "2".to_string(),
        result: "r".to_string(),
    }];
    assert_eq!(aster::rounds::round_signature(&one), aster::rounds::round_signature(&one));
    assert_ne!(aster::rounds::round_signature(&one), aster::rounds::round_signature(&two));
}

#[test]
fn what_is_typed_during_a_turn_joins_it() {
    let mut t = fresh(3);
    t.open_round(plan());
    let pending = vec![Injected { content: "also this".to_string(), wire: Json::text("also this") }];
    let effects = t.let_in(&pending);
    assert_eq!(effects.len(), 2);
    assert!(matches!(&effects[1], Effect::User(s) if s == "also this"));
    assert_eq!(last_text(&t), "also this");
    let shorter: Vec<Json> = t.wire.iter().take(1).map(Json::copy).collect();
    t.evicted(shorter);
    assert_eq!(t.wire.len(), 1);
}

#[test]
fn a_turn_is_warned_once_and_then_ended() {
    let mut p = NoProgress::new();
    let said: Vec<RoundVerdict> = (0..40u64).map(|i| p.feed(i, false, false)).collect();
    let nudges: Vec<usize> = (0..40).filter(|i| matches!(said[*i], RoundVerdict::Nudge(10))).collect();
    assert_eq!(nudges, vec![9]);
    let wraps: Vec<usize> = (0..40).filter(|i| said[*i] == RoundVerdict::Wrap).collect();
    assert_eq!(wraps, vec![19, 29, 39]);
    let mut p = NoProgress::new();
    let said: Vec<RoundVerdict> = (0..9).map(|_| p.feed(7, true, true)).collect();
    let corrections = said.iter().filter(|v| **v == RoundVerdict::Correct).count();
    assert_eq!(corrections, 1);
    assert_eq!(said[2], RoundVerdict::Correct);
    assert_eq!(said[5], RoundVerdict::Abort);
}
