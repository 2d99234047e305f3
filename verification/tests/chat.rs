use aster::chat::args::{resume_args, ChatArgs, EffortArgs, Resume};
use aster::chat::goal::{carry_on, emit_compacted, goal_set, GoalLoop, GoalStep, Judgment};
use aster::chat::history::{
    asked_skill, can_compact, clean_title, compact_if_needed, compact_now, expand_skill,
    expand_skill_asks, name_session, no_session, opener_names_session, piped_messages,
    prompt_messages, read_history, recorded_turn, resolve_headless_session, run_compact, summarize,
    title_context, turns_before_naming, wire_messages, SessionPlan, Source, COMPACT_KEEP_TAIL,
};
use aster::chat::prompt::{
    android_note, environment_note, git_snapshot, language_note, package_manager_note,
    package_scripts, sub_agent_prompt, task_runner_note, Device, GitState, Surroundings,
    TaskRunners,
};
use aster::chat::run::{
    ask_needs_front_end, done_event, edited_line, error_event, on_missing_client, permissions,
    resume_line, run, run_json, run_mode, setup_event, stdin_line, InputLine, Route, SetupStep,
};
use aster::json::{Fields, Json};
use aster::json_text::canonical_json;
use aster::message::ChatMessage;
use aster::tools::approval::Mode;

fn no_args() -> ChatArgs {
    ChatArgs {
        prompt: None,
        continue_session: false,
        resume: None,
        session: None,
        messages_json: None,
        model: None,
        allow_edits: false,
        permission_mode: None,
        stream: false,
        no_tools: false,
        no_mcp: false,
        compact: false,
        tui: false,
        print: false,
        effort: EffortArgs { effort: None },
    }
}

fn talk(n: usize) -> Vec<ChatMessage> {
    (0..n).map(|i| ChatMessage::plain(if i % 2 == 0 { "user" } else { "assistant" }, &format!("m{i}"))).collect()
}

#[test]
fn resuming_by_id_resumes_that_session() {
    let args = resume_args("abc");
    assert!(matches!(args.resume_mode(), Resume::Id(id) if id == "abc"));
    assert!(matches!(no_args().resume_mode(), Resume::New));
    let latest = ChatArgs { continue_session: true, ..no_args() };
    assert!(matches!(latest.resume_mode(), Resume::Latest));
    let pick = ChatArgs { resume: Some(None), ..no_args() };
    assert!(matches!(pick.resume_mode(), Resume::Pick));
}

#[test]
fn a_chat_is_interactive_only_in_a_terminal() {
    assert!(no_args().is_interactive(false, true, true));
    assert!(!no_args().is_interactive(true, true, true));
    assert!(!no_args().is_interactive(false, false, true));
}

#[test]
fn messages_come_from_where_the_flags_say() {
    let prompt = ChatArgs { prompt: Some("hi".to_string()), ..no_args() };
    assert!(matches!(read_history(&prompt, true), Source::Prompt(p) if p == "hi"));
    assert!(matches!(read_history(&no_args(), false), Source::Piped));
    assert!(matches!(read_history(&no_args(), true), Source::Nothing));
    let file = ChatArgs { messages_json: Some("f.json".to_string()), ..no_args() };
    assert!(matches!(read_history(&file, true), Source::File(p) if p == "f.json"));
    assert_eq!(prompt_messages("hi", false).map(|v| v.len()), Ok(1));
    assert!(piped_messages("  ").is_err());
    assert!(wire_messages(&Vec::new()).is_err());
}

#[test]
fn skills_are_asked_for_with_a_slash() {
    assert_eq!(asked_skill("/deploy to  prod"), Some(("deploy".to_string(), "to  prod".to_string())));
    assert_eq!(asked_skill("deploy"), None);
    let found = Some("deploy".to_string());
    assert_eq!(expand_skill("/deploy now", &found), "Use the \"deploy\" skill: now");
    assert_eq!(expand_skill("/deploy", &found), "Use the \"deploy\" skill:");
    assert_eq!(expand_skill("/deploy now", &None), "/deploy now");
    let turns = vec![ChatMessage::plain("user", "/deploy x"), ChatMessage::plain("assistant", "/deploy x")];
    let out = expand_skill_asks(&turns, &vec![found.clone(), found]);
    assert_eq!(out[0].text, "Use the \"deploy\" skill: x");
    assert_eq!(out[1].text, "/deploy x");
}

#[test]
fn a_session_is_recorded_only_when_asked_for() {
    assert!(matches!(resolve_headless_session(&no_args(), true), SessionPlan::Ephemeral));
    let named = ChatArgs { session: Some("s".to_string()), ..no_args() };
    assert!(matches!(resolve_headless_session(&named, true), SessionPlan::Continue(id) if id == "s"));
    assert!(matches!(resolve_headless_session(&named, false), SessionPlan::Ephemeral));
    let wire = ChatArgs { messages_json: Some("-".to_string()), ..named };
    assert!(matches!(resolve_headless_session(&wire, true), SessionPlan::Record(id) if id == "s"));
    assert!(matches!(resolve_headless_session(&resume_args("i"), true), SessionPlan::Resume(id) if id == "i"));
    assert_eq!(no_session("x"), "no session \"x\" for this repo");
    assert_eq!(recorded_turn(&talk(1)), Some("m0".to_string()));
    assert_eq!(recorded_turn(&talk(2)), None);
}

#[test]
fn folding_keeps_the_last_messages() {
    let history = talk(10);
    assert!(can_compact(&history));
    assert!(can_compact(&talk(1)));
    assert!(!can_compact(&Vec::new()));
    assert!(compact_if_needed(&history, 100, 10));
    assert!(!compact_if_needed(&history, 5, 10));
    let (folded, count) = compact_now(&history, "sum");
    assert_eq!(folded.len(), COMPACT_KEEP_TAIL + 1);
    assert_eq!(count, 10 - COMPACT_KEEP_TAIL);
    assert_eq!(folded[folded.len() - 1].text, "m9");
    let event = emit_compacted(history.len(), &folded);
    assert_eq!(event.str_at("summary"), Some("sum"));
    assert_eq!(event.u64_at("folded"), Some(4));
    let json = run_compact("sum", count, &folded);
    assert_eq!(json.bool_at("ok"), Some(true));
    assert_eq!(json.array_at("messages").map(|v| v.len()), Some(7));
    assert!(summarize(&history).is_ok());
}

#[test]
fn titles_are_cleaned() {
    assert_eq!(clean_title("# \"Fix the build.\"\nmore"), Some("Fix the build".to_string()));
    assert_eq!(clean_title("Fix the build."), Some("Fix the build".to_string()));
    assert_eq!(clean_title("  "), None);
    assert_eq!(clean_title(&"x".repeat(61)), None);
    assert!(!opener_names_session("hi!"));
    assert!(opener_names_session("fix the failing build"));
    assert_eq!(turns_before_naming(&vec![ChatMessage::plain("user", "fix the failing build")]), 1);
    assert_eq!(title_context(&talk(2)), "user: m0\n\nassistant: m1\n\n");
    assert!(name_session(&talk(1), true, true, false).is_none());
}

#[test]
fn a_goal_is_given_up_after_its_tries() {
    let mut g = GoalLoop::new(true, 2);
    assert!(matches!(g.turn_done(), GoalStep::Judge));
    let (over, event) = g.judged(&Judgment::NotYet { word: "not_yet".to_string(), reason: "r".to_string() });
    assert!(!over);
    assert_eq!(event.str_at("reason"), Some("r"));
    let (over, _) = g.judged(&Judgment::Settled { word: "met".to_string(), reason: "r".to_string() });
    assert!(over);
    let (over, event) = g.judged(&Judgment::Failed("e".to_string()));
    assert!(over);
    assert_eq!(event.str_at("reason"), Some("couldn't check progress: e"));
    let mut plain = GoalLoop::new(false, 2);
    assert!(matches!(plain.turn_done(), GoalStep::Finish));
    assert!(canonical_json(&goal_set("c", 2)).contains("\"c\""));
    let mut history = talk(1);
    carry_on(&mut history, None, "reply", "steer");
    assert_eq!(history.len(), 3);
    assert_eq!(history[1].text, "reply");
    assert_eq!(history[2].text, "steer");
}

#[test]
fn a_run_that_cannot_ask_turns_read_only() {
    assert!(ask_needs_front_end(Mode::Manual, true, false));
    assert!(!ask_needs_front_end(Mode::Manual, true, true));
    let args = ChatArgs { permission_mode: Some(Mode::Yolo), ..no_args() };
    assert_eq!(run_mode(&args, Mode::Manual), Mode::Yolo);
    let p = permissions(&args, Mode::Manual, true, false);
    assert!(p.yolo);
    let args = ChatArgs { allow_edits: true, ..no_args() };
    let p = permissions(&args, Mode::Manual, true, false);
    assert!(p.read_only);
    assert!(!p.allow_edits);
}

#[test]
fn a_run_takes_the_route_of_its_flags() {
    assert!(matches!(run(&no_args(), true), Route::Interactive));
    assert!(matches!(run(&ChatArgs { compact: true, ..no_args() }, true), Route::Compact));
    assert!(matches!(run(&ChatArgs { stream: true, ..no_args() }, false), Route::Stream));
    assert!(matches!(run(&ChatArgs { no_tools: true, ..no_args() }, false), Route::Plain));
    assert!(matches!(run(&no_args(), false), Route::Agent));
    assert!(matches!(run(&ChatArgs { resume: Some(None), ..no_args() }, false), Route::NeedsTerminal));
}

#[test]
fn a_missing_key_is_said_where_it_can_be() {
    assert!(matches!(on_missing_client(true, true, false, false), SetupStep::Emit));
    assert!(matches!(on_missing_client(false, true, true, false), SetupStep::Onboard));
    assert!(matches!(on_missing_client(false, true, false, false), SetupStep::Fail));
    assert!(matches!(on_missing_client(true, false, true, false), SetupStep::Fail));
    let e = setup_event("t", Json::Null);
    assert!(e.str_at("type").is_some());
}

#[test]
fn results_are_events() {
    let edits = vec!["a.rs".to_string()];
    let usage = Fields::new().json();
    let j = run_json("r", &edits, usage, &None);
    assert_eq!(j.str_at("reply"), Some("r"));
    let j = done_event("r", &edits, Fields::new().json(), &Some("t".to_string()), 9);
    assert_eq!(j.str_at("type"), Some("done"));
    assert_eq!(error_event("e").str_at("type"), Some("error"));
    assert!(edited_line("a.rs").contains("a.rs"));
    assert!(resume_line("id").contains("id"));
}

#[test]
fn typed_lines_are_messages_or_replies() {
    assert!(matches!(stdin_line("{\"message\":\"m\"}"), InputLine::Message(m) if m == "m"));
    assert!(matches!(stdin_line("{\"allow\":true}"), InputLine::Reply(_)));
    assert!(matches!(stdin_line("nonsense"), InputLine::Nothing));
}

#[test]
fn the_language_is_pinned_or_follows() {
    assert!(language_note(Some("French")).contains("Reply in French, whatever language the user writes in."));
    assert!(language_note(None).contains("Reply in the language the user writes in."));
    let p = sub_agent_prompt("body", &None, &Some("env".to_string()), None);
    assert!(p.starts_with("body\n\nenv\n\n## Language\n"));
}

#[test]
fn the_repository_is_described() {
    let g = GitState {
        branch: "main".to_string(),
        head: Some("origin/trunk".to_string()),
        status: Some(String::new()),
        log: Some("a b".to_string()),
    };
    assert_eq!(
        git_snapshot(&g),
        "- Git branch: main (default branch: trunk)\n- Working tree clean at session start\n- Recent commits:\n  a b\n"
    );
    let files = vec![
        ("yarn.lock".to_string(), "web".to_string()),
        ("bun.lock".to_string(), ".".to_string()),
        ("x".to_string(), ".".to_string()),
    ];
    assert_eq!(
        package_manager_note(&files),
        Some(
            "- JavaScript packages in . use `bun`; run scripts and one-off tools with it, not npm/npx.\n\
             - JavaScript packages in web use `yarn`; run scripts and one-off tools with it, not npm/npx.\n\
             - Run package commands from the directory that owns the lockfile."
                .to_string()
        )
    );
    assert_eq!(package_manager_note(&Vec::new()), None);
    let t = TaskRunners { just: None, make: true, task: false, scripts: Some(vec!["test".to_string()]) };
    assert_eq!(
        task_runner_note(&t),
        Some(
            "- Makefile present: run targets with `make <name>`.\n- package.json scripts: test. Prefer these over hand-rolled equivalents.\n"
                .to_string()
        )
    );
    assert_eq!(
        package_scripts("{\"scripts\":{\"b\":\"x\",\"a\":\"y\"}}"),
        Some(vec!["a".to_string(), "b".to_string()])
    );
    assert_eq!(package_scripts("nonsense"), None);
    let s = Surroundings {
        project: None,
        os: "linux".to_string(),
        arch: "x86_64".to_string(),
        date: "2024-02-03".to_string(),
        device: None,
        git: None,
        packages: None,
        runners: None,
    };
    assert_eq!(
        environment_note(&s),
        "## Environment\n- Platform: linux (x86_64)\n- Today's date: 2024-02-03\n"
    );
    let d = Device { model: Some("P".to_string()), release: None, sdk: None, asterctl: false };
    assert!(android_note(&d).contains("P"));
}
