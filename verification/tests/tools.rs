use aster::json::{Fields, Json};
use aster::json_text::read_json;
use aster::message::ToolCall;
use aster::swarm::{
    agent_activity, agent_status, agent_task_batch, batch_text, cap_reports, dispatch_agent_tool,
    queued_text, AgentPlan, AgentTask, TaskReport, TaskState,
};
use aster::tools::approval::{
    ask_user, ast_edit, authorize_batch, authorize_bridge, authorize_credentials, authorize_edit,
    authorize_exec, authorize_outside_read, configured_credentials, edited_text, exit_plan_mode,
    note_all_edited, note_edited, parse_approval, parse_question, plan_answered, plan_mode_hint, plan_preview,
    question_answered, Answer, Decision, Gate, Mode, Place, PlanGate, QuestionStep,
    RewriteStep,
};
use aster::tools::command::{
    argv, command_coaching, first_error_line, is_bare, missing_binary, raw_argv, render_command,
    render_timeout, run_opts, sandbox_denial, CommandOutput, Machine, RunOpts,
};
use aster::tools::defs::{agent_tool_schema, tool_defs};
use aster::tools::files::{
    looks_like_path, missing_path, path_shaped_query_hint, read_numbered, resolve_in_repo,
    search_files, widened, Found, Reach, ReadGate, Reads,
};
use aster::tools::flow::{
    answered, cached_read, command_ran, described_tool, edit_file, guard_command, look_step,
    run_raw, Found as EditFound, Look, LookStep, Ran, Sight,
};
use aster::tools::lookup::{
    explore, explore_report, internal_call, is_repeat_lookup, parallel_reads, repeat_pointer,
    Lookups,
};
use aster::tools::memory::{
    forget, memory_context, read_skill, recall_list, remember, remember_reply, remembered, Memory,
    SkillState,
    SkillStep,
};
use aster::tools::offer::{round_tools, tool_names};
use aster::tools::plan::{dir_named, plan_call, read_only_call, ToolPlan};
use aster::tools::schema::tool_name;

fn json(text: &str) -> Json {
    read_json(text).expect("json")
}

fn machine() -> Machine {
    Machine { bash: true, python: true, python3: true, me: None }
}

fn opts() -> RunOpts {
    RunOpts { turbo: false, yolo: false, timeout_secs: 60 }
}

fn output(stdout: &str, stderr: &str, code: i32) -> CommandOutput {
    CommandOutput {
        stdout: stdout.to_string(),
        stderr: stderr.to_string(),
        exit_code: Some(code),
        timed_out: false,
    }
}

#[test]
fn every_offered_tool_has_a_name() {
    let defs = tool_defs(true, true);
    let names = tool_names(true, true);
    assert_eq!(defs.len(), names.len());
    for (d, n) in defs.iter().zip(names.iter()) {
        assert_eq!(tool_name(d), Some(n.as_str()));
    }
    assert!(names.contains(&"edit_file".to_string()));
    assert!(!tool_names(false, true).contains(&"edit_file".to_string()));
    assert!(tool_name(&agent_tool_schema()).is_some());
}

#[test]
fn a_sub_agent_sees_only_its_tools() {
    let allowed = Some(vec!["read_file".to_string()]);
    let tools = round_tools(true, false, &allowed, true, &None, false);
    assert_eq!(tools.len(), 1);
    assert_eq!(tool_name(&tools[0]), Some("read_file"));
}

#[test]
fn no_edit_is_planned_without_permission() {
    let args = "{\"path\":\"a\",\"search\":\"x\",\"replace\":\"y\"}";
    let plan = plan_call("edit_file", args, false, true, &machine(), opts());
    assert!(matches!(plan, ToolPlan::Say(_)));
    let plan = plan_call("edit_file", args, true, true, &machine(), opts());
    assert!(!matches!(plan, ToolPlan::Say(_)));
}

#[test]
fn lookups_only_look() {
    assert!(read_only_call("read_file", "{\"path\":\"a\"}").is_some());
    assert!(read_only_call("edit_file", "{\"path\":\"a\"}").is_none());
}

#[test]
fn unreadable_arguments_are_said() {
    let plan = plan_call("read_file", "nonsense", true, true, &machine(), opts());
    assert!(matches!(plan, ToolPlan::Say(_)));
}

#[test]
fn a_command_is_taken_apart() {
    let a = json("{\"command\":\"ls\",\"args\":[\"-l\",\"x y\"]}");
    let (binary, tail) = raw_argv(&a, true).expect("argv");
    assert_eq!(binary, "ls");
    assert_eq!(tail, vec!["-l".to_string(), "x y".to_string()]);
    assert!(raw_argv(&json("{}"), true).is_none());
    let a = json("{\"command\":\"ls | wc -l\"}");
    let (binary, tail) = argv(&a, &machine()).expect("argv");
    assert_eq!(binary, "bash");
    assert_eq!(tail[tail.len() - 1], "ls | wc -l");
}

#[test]
fn a_missing_python_is_our_own() {
    let m = Machine { bash: true, python: false, python3: false, me: Some("/bin/aster".to_string()) };
    let a = json("{\"command\":\"python3\",\"args\":[\"x.py\"]}");
    let (binary, tail) = argv(&a, &m).expect("argv");
    assert_eq!(binary, "/bin/aster");
    assert_eq!(tail, vec!["python".to_string(), "x.py".to_string()]);
}

#[test]
fn options_of_a_call_only_widen_the_timeout_they_name() {
    let o = run_opts(&json("{}"), opts());
    assert_eq!(o.timeout_secs, 60);
    assert!(!o.yolo);
}

#[test]
fn output_is_rendered_with_its_exit_code() {
    let text = render_command("ls", &output("a\n", "", 0), opts());
    assert!(text.contains("a"));
    let text = render_command("ls", &output("", "boom", 2), opts());
    assert!(text.contains("boom"));
    assert!(text.contains('2'));
    let mut late = output("part", "", 0);
    late.timed_out = true;
    assert!(render_timeout(&late, 60).contains("60"));
}

#[test]
fn a_sandbox_denial_is_told_from_a_failure() {
    assert!(sandbox_denial(&output("", "Sandbox denied: write", 1)));
    assert!(sandbox_denial(&output("LANDLOCK", "", 1)));
    assert!(!sandbox_denial(&output("", "Operation not permitted", 1)));
    assert!(!sandbox_denial(&output("", "sandbox denied", 0)));
}

#[test]
fn errors_are_pointed_at() {
    assert_eq!(first_error_line("ok\nerror: bad thing\nmore"), Some("error: bad thing".to_string()));
    assert_eq!(first_error_line("fine"), None);
    assert!(missing_binary("python").contains("python"));
    assert!(is_bare("ls"));
    assert!(!is_bare("./ls"));
    let _ = command_coaching("cargo", &output("", "error: x", 101), true);
}

#[test]
fn windows_of_a_file_are_numbered() {
    let text = read_numbered("a\nb\nc\n", Some(2), Some(3)).expect("a window");
    assert!(text.contains("2"));
    assert!(text.contains("b"));
    assert!(text.contains("c"));
    assert!(!text.contains('a'));
}

#[test]
fn a_read_is_unchanged_only_with_the_same_time() {
    let mut reads = Reads::new();
    assert!(!reads.unchanged("p", None, None, Some(1)));
    reads.note("p", None, None, Some(1));
    assert!(reads.unchanged("p", None, None, Some(1)));
    assert!(!reads.unchanged("p", None, None, Some(2)));
    assert!(!reads.unchanged("p", Some(1), None, Some(1)));
    reads.note("q", None, None, None);
    assert!(!reads.unchanged("q", None, None, None));
}

#[test]
fn a_query_that_reads_like_a_path_gets_a_hint() {
    assert!(looks_like_path("src/lib.rs"));
    assert!(looks_like_path("lib.rs"));
    assert!(!looks_like_path("two words.rs x"));
    assert!(!looks_like_path(".."));
    let near = vec!["src/lib.rs".to_string()];
    assert!(path_shaped_query_hint("lib.rs", &near).is_some());
    assert!(path_shaped_query_hint("word", &near).is_none());
    assert!(missing_path("lib.rs", &near).contains("src/lib.rs"));
    assert!(widened("d", "hits").contains("hits"));
}

#[test]
fn denied_hits_are_left_out() {
    let near: Vec<String> = Vec::new();
    match search_files(&vec![false, true, false], "q", &near) {
        Found::Hits(v) => assert_eq!(v, vec![0, 2]),
        Found::Hint(_) => panic!("expected hits"),
    }
    let near = vec!["src/a.rs".to_string()];
    assert!(matches!(search_files(&vec![true], "a.rs", &near), Found::Hint(_)));
    assert!(matches!(search_files(&vec![true], "word", &near), Found::Hits(v) if v.is_empty()));
}

#[test]
fn reads_are_let_through_by_place() {
    assert!(matches!(resolve_in_repo(&Reach::InRepo(None), false), ReadGate::Go));
    let denied = Reach::InRepo(Some("no".to_string()));
    assert!(matches!(resolve_in_repo(&denied, true), ReadGate::Refuse(r) if r == "no"));
    assert!(matches!(resolve_in_repo(&Reach::Outside, false), ReadGate::Grants));
    assert!(matches!(resolve_in_repo(&Reach::Outside, true), ReadGate::Go));
    let lost = Reach::Unresolved("gone".to_string());
    assert!(matches!(resolve_in_repo(&lost, true), ReadGate::Refuse(r) if r == "gone"));
    assert_eq!(dir_named(Some(" d ")), Some("d".to_string()));
    assert_eq!(dir_named(Some("  ")), None);
    assert_eq!(dir_named(None), None);
}

#[test]
fn the_same_lookup_twice_is_pointed_back() {
    let mut seen = Lookups::new();
    assert!(!is_repeat_lookup(&mut seen, "search_files", "{\"a\":1,\"b\":2}"));
    assert!(is_repeat_lookup(&mut seen, "search_files", "{\"b\": 2, \"a\": 1}"));
    assert!(!is_repeat_lookup(&mut seen, "edit_file", "{}"));
    assert!(!is_repeat_lookup(&mut seen, "search_files", "{\"a\":1,\"b\":2}"));
    assert!(repeat_pointer("search_files").contains("search_files"));
}

#[test]
fn lookups_of_one_round_run_side_by_side() {
    let call = |name: &str| ToolCall {
        id: "i".to_string(),
        name: name.to_string(),
        arguments: "{}".to_string(),
        extra_content: None,
    };
    assert_eq!(parallel_reads(&vec![call("read_file"), call("edit_file"), call("read_file")]), vec![0, 2]);
    assert!(parallel_reads(&vec![call("read_file"), call("edit_file")]).is_empty());
}

#[test]
fn exploring_needs_steps() {
    assert!(explore(&json("{}")).is_err());
    let steps = explore(&json("{\"steps\":[{\"tool\":\"read_file\",\"args\":{\"path\":\"a\"}}]}"));
    let steps = match steps {
        Ok(v) => v,
        Err(e) => panic!("{e}"),
    };
    assert_eq!(steps.len(), 1);
    assert_eq!(steps[0].tool, "read_file");
    let text = explore_report(&vec![("l".to_string(), "r".to_string())]);
    assert!(text.contains("l"));
    assert!(text.contains("r"));
    assert!(!internal_call(&Vec::new(), "read_file", "{}"));
}

#[test]
fn approvals_are_read_from_replies() {
    assert_eq!(parse_approval(&json("{\"allow\":true}")), Answer::Yes);
    assert_eq!(parse_approval(&json("{}")), Answer::No);
    assert_eq!(parse_approval(&json("{\"allow\":true,\"always\":true}")), Answer::Always);
    assert_eq!(parse_approval(&json("{\"always\":true}")), Answer::No);
    assert!(parse_question(&json("{}")).is_none());
    assert_eq!(parse_question(&json("{\"choice\":\"x\"}")), Some("x".to_string()));
    assert!(question_answered(&None).len() > 0);
    assert!(matches!(ask_user(false, "h", &Vec::new()), QuestionStep::Say(_)));
}

#[test]
fn plans_are_approved_or_stay() {
    let mut gate = PlanGate { allow_edits: false, approved: false };
    let (mode, _) = plan_answered(&mut gate, Answer::No);
    assert_eq!(mode, Some(Mode::Plan));
    assert!(!gate.allow_edits);
    let (mode, text) = plan_answered(&mut gate, Answer::Yes);
    assert_eq!(mode, Some(Mode::Edit));
    assert!(gate.allow_edits);
    assert_eq!(text, "plan approved; edit mode is now active");
    assert!(plan_preview("").is_err());
    let fresh = PlanGate { allow_edits: false, approved: false };
    let _ = exit_plan_mode(fresh, Some("# plan"));
}

#[test]
fn the_policy_decides_before_a_command() {
    assert!(matches!(authorize_exec("ls", &Decision::Allow, true), Gate::Go));
    let denied = Decision::Deny("mode is `plan`".to_string());
    match authorize_exec("ls", &denied, true) {
        Gate::Refuse(r) => assert!(r.contains("exit_plan_mode")),
        _ => panic!("expected a refusal"),
    }
    assert_eq!(plan_mode_hint("mode is `plan`", false), "mode is `plan`");
    match authorize_exec("rm", &Decision::Prompt("rm -r".to_string()), true) {
        Gate::Ask { preview, refusal } => {
            assert_eq!(preview, "rm -r");
            assert!(refusal.contains("`rm`"));
        }
        _ => panic!("expected a question"),
    }
    assert!(matches!(authorize_bridge("s/t", "{}", &Decision::Allow, true), Gate::Go));
    assert!(matches!(authorize_credentials(true, false, "gh", "~/.x"), Gate::Go));
    assert!(matches!(authorize_outside_read(true, "/etc"), Gate::Go));
    assert!(matches!(authorize_outside_read(false, "/etc"), Gate::Ask { .. }));
    let both = vec![Decision::Allow, Decision::Deny("x".to_string())];
    assert!(matches!(authorize_batch(&both, "p", true), Gate::Refuse(_)));
}

#[test]
fn edits_outside_ask_unless_all_is_allowed() {
    assert!(matches!(authorize_edit(true, "p", "b", &Place::Outside, true, true), Gate::Go));
    match authorize_edit(true, "p", "b", &Place::Outside, false, true) {
        Gate::Ask { preview, .. } => assert_eq!(preview, "create p (outside the repo):\nb"),
        _ => panic!("expected a question"),
    }
    let place = Place::InRepo(Decision::Allow);
    assert!(matches!(authorize_edit(false, "p", "b", &place, false, false), Gate::Go));
    let mut edited = vec!["a".to_string()];
    note_edited(&mut edited, "a");
    note_edited(&mut edited, "b");
    assert_eq!(edited, vec!["a".to_string(), "b".to_string()]);
    assert!(edited_text(true, "p", "b", &None, &None).starts_with("created p"));
}

#[test]
fn credentials_are_granted_by_command() {
    let configured = vec!["gh : ~/.config/gh".to_string(), "malformed".to_string()];
    let granted = vec!["aws\t/home/u/.aws".to_string()];
    assert_eq!(
        configured_credentials(&configured, &granted),
        vec![
            ("gh".to_string(), "~/.config/gh".to_string()),
            ("aws".to_string(), "/home/u/.aws".to_string()),
        ]
    );
}

#[test]
fn memory_answers_for_itself() {
    assert!(matches!(remember(None, "a fact"), Memory::Project(n) if n.contains("a fact")));
    assert!(matches!(remember(Some("T"), "a fact"), Memory::Block(_)));
    assert!(remembered("T", &Vec::new()).contains("T"));
    let blocks = vec![("Build".to_string(), "use make".to_string())];
    assert!(recall_list(&blocks, Some("BUILD")).contains("Build"));
    assert!(!recall_list(&blocks, Some("zzz")).contains("use make"));
    assert!(forget("x", true).is_ok());
    assert!(forget("x", false).is_err());
    assert!(matches!(read_skill("s", SkillState::OnDemand), SkillStep::Load));
    assert!(matches!(read_skill("s", SkillState::Always), SkillStep::Say(_)));
    assert!(matches!(read_skill("s", SkillState::Missing), SkillStep::Fail(_)));
    assert_eq!(memory_context(" \n"), None);
    assert_eq!(memory_context("m"), Some("m".to_string()));
}

#[test]
fn agents_are_capped_per_call() {
    let args = "{\"tasks\":[{\"agent\":\"a\",\"task\":\"1\"},{\"agent\":\"b\",\"task\":\"2\"}]}";
    match dispatch_agent_tool(args, 1) {
        AgentPlan::Run { tasks, over_cap, .. } => {
            assert_eq!(tasks.len(), 1);
            assert_eq!(tasks[0].agent, "a");
            assert_eq!(over_cap, 1);
        }
        _ => panic!("expected tasks"),
    }
    assert!(matches!(dispatch_agent_tool("nonsense", 1), AgentPlan::Say(_)));
    assert!(agent_task_batch(&json("{}")).is_none());
    assert!(queued_text(2, "id").contains("id"));
    assert!(batch_text("r", 1, 1).contains("r"));
}

#[test]
fn fields_keep_their_order() {
    let j = Fields::new().text("b", "1").text("a", "2").json();
    assert_eq!(j.as_object().map(|v| v[0].0.clone()), Some("b".to_string()));
}

fn sight(there: bool, reach: Reach, granted: bool) -> Sight {
    Sight { there, reach, granted }
}

#[test]
fn a_look_is_opened_asked_for_or_widened() {
    let near = vec!["src/a.rs".to_string()];
    let file = Look::File { image: false };
    let inside = sight(true, Reach::InRepo(None), false);
    let outside = sight(true, Reach::Outside, false);
    let gone = sight(false, Reach::InRepo(None), false);
    assert!(matches!(look_step(file, Some("a"), &inside, &near, "a", false, false), LookStep::Open));
    let image = Look::File { image: true };
    assert!(matches!(look_step(image, Some("a"), &inside, &near, "a", false, false), LookStep::Image));
    assert!(matches!(look_step(image, Some("a"), &inside, &near, "a", false, true), LookStep::Alone));
    assert!(matches!(look_step(file, Some("a"), &outside, &near, "/a", false, true), LookStep::Alone));
    match look_step(file, Some("a"), &outside, &near, "/a", false, false) {
        LookStep::Ask { preview, .. } => assert_eq!(preview, "read outside the repository:\n  /a"),
        _ => panic!("expected a question"),
    }
    assert!(matches!(look_step(file, Some("a"), &outside, &near, "/a", true, false), LookStep::Open));
    match look_step(Look::List, Some("d"), &gone, &near, "d", false, false) {
        LookStep::Say(t) => assert!(t.starts_with("note: d does not exist.")),
        _ => panic!("expected a note"),
    }
    assert!(matches!(
        look_step(Look::Search, Some("d"), &gone, &near, "d", false, false),
        LookStep::Widen(d) if d == "d"
    ));
    assert!(matches!(look_step(Look::List, None, &gone, &near, "", false, false), LookStep::Root));
    let denied = sight(true, Reach::InRepo(Some("no".to_string())), false);
    assert!(matches!(
        look_step(file, Some("a"), &denied, &near, "a", true, false),
        LookStep::Fail(e) if e == "no"
    ));
    assert_eq!(answered(Answer::No, "r"), Err("r".to_string()));
    assert_eq!(answered(Answer::Always, "r"), Ok(true));
}

#[test]
fn a_second_read_of_an_unchanged_file_is_pointed_back() {
    let mut reads = Reads::new();
    let text = Ok("one\n".to_string());
    let first = cached_read(&mut reads, "p", None, None, Some(1), &text).expect("a read");
    assert!(first.contains("one"));
    let again = cached_read(&mut reads, "p", None, None, Some(1), &text).expect("a read");
    assert_eq!(again, "[unchanged since you read it earlier in this turn — scroll up for p]");
    let later = cached_read(&mut reads, "p", None, None, Some(2), &text).expect("a read");
    assert_eq!(later, first);
    assert!(cached_read(&mut reads, "q", None, None, Some(1), &Err("e".to_string())).is_err());
}

#[test]
fn an_edit_is_guarded_before_it_is_written() {
    let place = Place::InRepo(Decision::Allow);
    let new = EditFound::New { there: false, misplaced: None };
    match edit_file("p", "text", "b", &new, &place, false, true) {
        Ok((text, Gate::Go)) => assert_eq!(text, "text"),
        _ => panic!("expected the text"),
    }
    let there = EditFound::New { there: true, misplaced: None };
    assert_eq!(
        edit_file("p", "t", "b", &there, &place, false, true).err(),
        Some("p already exists; put the text to replace in `search`".to_string())
    );
    let wrong = EditFound::New { there: false, misplaced: Some("hint".to_string()) };
    assert_eq!(edit_file("p", "t", "b", &wrong, &place, false, true).err(), Some("hint".to_string()));
    let lost = EditFound::Applied(Err("no match".to_string()));
    assert_eq!(edit_file("p", "t", "b", &lost, &place, false, true).err(), Some("no match".to_string()));
}

#[test]
fn a_command_is_found_guarded_and_offered_again() {
    assert!(matches!(guard_command("ls", true, &Decision::Allow, true), Gate::Go));
    assert!(matches!(guard_command("./x", false, &Decision::Allow, true), Gate::Go));
    match guard_command("pip", false, &Decision::Allow, true) {
        Gate::Refuse(text) => assert!(text.starts_with("there is no `pip` on this machine's PATH.")),
        _ => panic!("expected a refusal"),
    }
    assert!(run_raw(opts()).sandboxed);
    assert!(!run_raw(RunOpts { turbo: true, ..opts() }).network);
    let denied = output("", "landlock", 1);
    assert!(matches!(command_ran("ls", &denied, opts(), false), Ran::Offer(_)));
    assert!(matches!(command_ran("ls", &denied, opts(), true), Ran::Shown(_)));
    let all = RunOpts { yolo: true, ..opts() };
    assert!(matches!(command_ran("ls", &denied, all, false), Ran::Shown(_)));
    match command_ran("ls", &output("a", "", 0), opts(), false) {
        Ran::Shown(text) => assert_eq!(text, "stdout:\na\nexit code: 0"),
        Ran::Offer(_) => panic!("it came out well"),
    }
    assert_eq!(described_tool("s/t", None, Json::Null).str_at("id"), Some("s/t"));
}

#[test]
fn reports_share_the_room_for_a_result() {
    let report = |text: String| TaskReport {
        agent: "a".to_string(),
        task: "t".to_string(),
        report: Some(text),
        error: None,
    };
    let mut reports = vec![report("x".repeat(20_000)), report("short".to_string())];
    cap_reports(&mut reports);
    assert_eq!(reports[1].report.as_deref(), Some("short"));
    let first = reports[0].report.clone().unwrap_or_default();
    assert!(first.starts_with(&"x".repeat(12_000)));
    assert!(!first.starts_with(&"x".repeat(12_001)));
    let task = AgentTask { agent: "a".to_string(), task: "t".to_string() };
    let e = agent_status("c", &task, TaskState::Failed, 1, 2, &None, &Some("no".to_string()));
    assert_eq!(e.str_at("status"), Some("error"));
    assert_eq!(e.str_at("error"), Some("no"));
    assert_eq!(e.u64_at("total"), Some(2));
    assert_eq!(agent_activity("c", "a", "t", "l").str_at("line"), Some("l"));
}

#[test]
fn a_rewrite_without_matches_says_so() {
    assert!(matches!(ast_edit(&Vec::new(), "p", true),
        RewriteStep::Say(t) if t == "no matches; nothing changed"));
    assert!(matches!(ast_edit(&vec![Decision::Allow], "p", true), RewriteStep::Write(Gate::Go)));
    let denied = vec![Decision::Allow, Decision::Deny("locked".to_string())];
    assert!(matches!(ast_edit(&denied, "p", true),
        RewriteStep::Write(Gate::Refuse(t)) if t.contains("locked")));
    let mut edited = vec!["a".to_string()];
    note_all_edited(&mut edited, &vec!["b".to_string(), "a".to_string(), "b".to_string()]);
    assert_eq!(edited, vec!["a".to_string(), "b".to_string()]);
}

#[test]
fn a_stored_fact_is_answered() {
    let line = remember(None, "a fact");
    assert_eq!(remember_reply(&line, &Vec::new()), "remembered in project memory");
    let block = remember(Some(" T "), "a fact");
    assert_eq!(remember_reply(&block, &Vec::new()), "remembered under \"T\"");
}
