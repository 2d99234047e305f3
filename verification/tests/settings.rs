use aster::json::Json;
use aster::settings::filter::{filter_diff, PathFilter};
use aster::settings::limits::{Limits, LimitsEnv, SwarmEnv, SwarmLimits};
use aster::settings::yaml::{
    persist_mom_enabled, persist_user_review, pins, project_config, with_key, without_key,
    writable_config, write_review, yaml_scalar, Write,
};
use aster::settings::{
    add_server, either, merge_mcp, merge_permissions, merge_schedules, pick, union, Agent, Agents,
    Experimental, Mcp, Mom, Permissions, Providers, Review, Schedule, Settings, Ui,
};
use aster::tools::approval::Mode;

fn list(v: &[&str]) -> Vec<String> {
    v.iter().map(|s| s.to_string()).collect()
}

fn review() -> Review {
    Review {
        model: None,
        base_url: None,
        hypothesis_model: None,
        verify_model: None,
        min_confidence: None,
        max_diff_bytes: None,
        analyzers: Vec::new(),
        astgrep_rules: None,
        focus_areas: Vec::new(),
        effort: None,
        web_search: None,
        included: Vec::new(),
        excluded: Vec::new(),
    }
}

fn agent() -> Agent {
    Agent {
        max_tool_rounds: None,
        command_timeout_secs: None,
        compact_budget_chars: None,
        max_output_tokens: None,
        language: None,
        learn: None,
    }
}

#[test]
fn the_project_overlays_the_user() {
    assert_eq!(either(Some(1), Some(2)), Some(1));
    assert_eq!(either(None, Some(2)), Some(2));
    assert_eq!(pick(list(&["g"]), list(&["p"])), list(&["p"]));
    assert_eq!(pick(list(&["g"]), list(&[])), list(&["g"]));
    assert_eq!(union(list(&["a", "b"]), &list(&["b", "c"])), list(&["a", "b", "c"]));
    let user = Review { model: Some("u".to_string()), base_url: Some("x".to_string()), ..review() };
    let project = Review { model: Some("p".to_string()), ..review() };
    let r = user.overlaid_with(project);
    assert_eq!(r.model, Some("p".to_string()));
    assert_eq!(r.base_url, Some("x".to_string()));
}

#[test]
fn permissions_are_joined() {
    let p = |deny: &[&str]| Permissions {
        mode: Mode::Edit,
        allow: Vec::new(),
        ask: Vec::new(),
        deny: list(deny),
        additional_directories: Vec::new(),
        allow_credentials: Vec::new(),
        use_default_rules: true,
    };
    let r = merge_permissions(p(&["a"]), p(&["b", "a"]), Mode::Manual);
    assert_eq!(r.deny, list(&["a", "b"]));
    assert_eq!(r.mode, Mode::Manual);
}

#[test]
fn project_servers_win() {
    let m = |name: &str, v: u64| Mcp {
        servers: vec![(name.to_string(), Json::Number(v))],
        allow: Vec::new(),
        deny: Vec::new(),
    };
    let mut r = merge_mcp(m("a", 1), m("a", 2));
    assert_eq!(r.servers.len(), 1);
    assert_eq!(r.servers[0].1.as_u64(), Some(2));
    add_server(&mut r, "b", Json::Number(3));
    assert_eq!(r.servers.len(), 2);
    let s = |n: &str| Schedule { name: n.to_string(), definition: Json::Null };
    assert_eq!(merge_schedules(vec![s("a")], vec![s("b")]).len(), 2);
}

fn settings(model: Option<&str>, server: &str, value: u64) -> Settings {
    Settings {
        review: Review { model: model.map(str::to_string), ..review() },
        permissions: Permissions {
            mode: Mode::Manual,
            allow: Vec::new(),
            ask: Vec::new(),
            deny: Vec::new(),
            additional_directories: Vec::new(),
            allow_credentials: Vec::new(),
            use_default_rules: true,
        },
        mcp: Mcp {
            servers: vec![(server.to_string(), Json::Number(value))],
            allow: Vec::new(),
            deny: Vec::new(),
        },
        agent: agent(),
        agents: Agents {
            collector_model: None,
            max_concurrent: None,
            max_per_turn: None,
            agent_timeout_secs: None,
        },
        ui: Ui { welcome: None, theme: None },
        mom: Mom { enabled: None, manifest: None },
        providers: Providers { catalog_url: None },
        experimental: Experimental { jev: None },
        schedules: Vec::new(),
    }
}

#[test]
fn shared_servers_are_added_behind_the_configured_ones() {
    let shared = vec![("a".to_string(), Json::Number(9)), ("c".to_string(), Json::Number(3))];
    let r = Settings::load(
        Some(settings(Some("g"), "a", 1)),
        Some(settings(None, "b", 2)),
        settings(None, "z", 0),
        Mode::Plan,
        &shared,
    );
    assert_eq!(r.review.model, Some("g".to_string()));
    assert_eq!(r.permissions.mode, Mode::Plan);
    let names: Vec<(String, Option<u64>)> =
        r.mcp.servers.iter().map(|(n, v)| (n.clone(), v.as_u64())).collect();
    assert_eq!(
        names,
        vec![
            ("a".to_string(), Some(1)),
            ("b".to_string(), Some(2)),
            ("c".to_string(), Some(3)),
        ]
    );
    let none = Settings::load(None, None, settings(None, "z", 0), Mode::Plan, &Vec::new());
    assert_eq!(none.mcp.servers[0].0, "z");
    assert_eq!(none.permissions.mode, Mode::Manual);
}

#[test]
fn limits_come_from_the_shell_then_the_file_then_the_defaults() {
    let none = LimitsEnv { max_tool_rounds: None, command_timeout: None, compact_budget: None, language: None };
    let l = Limits::resolve(&agent(), &none, false);
    assert_eq!(l.max_tool_rounds, 60);
    assert_eq!(l.command_timeout_secs, 300);
    let file = Agent { max_tool_rounds: Some(5), ..agent() };
    assert_eq!(Limits::resolve(&file, &none, false).max_tool_rounds, 5);
    let env = LimitsEnv { max_tool_rounds: Some("7".to_string()), ..none };
    assert_eq!(Limits::resolve(&file, &env, false).max_tool_rounds, 7);
    assert_eq!(Limits::defaults(true).max_tool_rounds, 200);
    let agents = Agents { collector_model: None, max_concurrent: None, max_per_turn: None, agent_timeout_secs: None };
    let env = SwarmEnv { max_concurrent: None, max_per_turn: None, agent_timeout: None, collector_model: None };
    assert_eq!(SwarmLimits::resolve(&agents, &env, false).max_per_turn, 24);
}

#[test]
fn a_key_is_set_in_place() {
    let text = "# top\nreview:\n  model: a # keep\n  focus_areas:\n    - x\nother: 1\n";
    let out = with_key(text, "review", "model", "\"b\"");
    assert!(out.contains("model: \"b\""));
    assert!(out.contains("# top\n"));
    assert!(out.contains("    - x\nother: 1\n"));
    assert!(pins(&out, "review", "model"));
    assert!(!pins(&out, "review", "base_url"));
    let gone = without_key(&out, "review", "model").expect("it was there");
    assert!(!pins(&gone, "review", "model"));
    assert_eq!(without_key("a: 1\n", "review", "model"), None);
}

#[test]
fn taking_a_key_out_undoes_setting_it() {
    let text = "# top\nreview:\n    model: a\n\nother: 1\n";
    let set = with_key(text, "review", "base_url", "\"u\"");
    assert_eq!(set, "# top\nreview:\n    model: a\n\n    base_url: \"u\"\nother: 1\n");
    assert_eq!(without_key(&set, "review", "base_url").as_deref(), Some(text));
    let added = with_key("other: 1\n", "review", "model", "m");
    assert_eq!(added, "other: 1\nreview:\n  model: m\n");
    assert_eq!(without_key(&added, "review", "model").as_deref(), Some("other: 1\n"));
}

#[test]
fn a_missing_section_is_added() {
    let out = write_review("other: 1\n", &vec![("model".to_string(), "m".to_string())]);
    assert!(out.starts_with("other: 1\n"));
    assert!(pins(&out, "review", "model"));
    assert_eq!(yaml_scalar("@cf/a\"b\\"), "\"@cf/a\\\"b\\\\\"");
}

#[test]
fn a_choice_is_saved_where_it_is_pinned_too() {
    let user = Write { path: "u".to_string(), text: String::new() };
    let project = Some(Write { path: "p".to_string(), text: "review:\n  model: x\n".to_string() });
    let choices = vec![("model".to_string(), "m".to_string())];
    let (saved, writes) = persist_user_review(&user, &project, &choices);
    assert_eq!(saved.path, "u");
    assert_eq!(saved.also, Some("p".to_string()));
    assert_eq!(writes.len(), 2);
    let plain = Some(Write { path: "p".to_string(), text: "a: 1\n".to_string() });
    let (saved, writes) = persist_user_review(&user, &plain, &choices);
    assert_eq!(saved.also, None);
    assert_eq!(writes.len(), 1);
    let (_, writes) = persist_mom_enabled(&user, &None, true);
    assert!(writes[0].text.contains("enabled: true"));
}

#[test]
fn configurations_are_looked_for_by_name() {
    assert_eq!(project_config((false, true, true)), Some("aster.yml"));
    assert_eq!(project_config((false, false, false)), None);
    assert_eq!(writable_config(&None, "u"), "u");
    assert_eq!(writable_config(&Some("p".to_string()), "u"), "p");
}

#[test]
fn exclusion_wins() {
    let f = match PathFilter::new(&list(&["src/**"]), &list(&["**/gen.rs"])) {
        Ok(f) => f,
        Err(e) => panic!("{e}"),
    };
    assert!(f.allows("src/a/lib.rs"));
    assert!(!f.allows("src/a/gen.rs"));
    assert!(!f.allows("docs/a.md"));
    let all = match PathFilter::new(&list(&[]), &list(&[])) {
        Ok(f) => f,
        Err(e) => panic!("{e}"),
    };
    assert!(all.allows("anything"));
    assert!(PathFilter::new(&list(&["a{"]), &list(&[])).is_err());
}

#[test]
fn a_diff_is_filtered_by_file() {
    let f = match PathFilter::new(&list(&[]), &list(&["b.rs"])) {
        Ok(f) => f,
        Err(e) => panic!("{e}"),
    };
    let diff = "diff --git a/a.rs b/a.rs\n+one\ndiff --git a/b.rs b/b.rs\n+two\n";
    let kept = filter_diff(diff, &f);
    assert!(kept.contains("+one"));
    assert!(!kept.contains("+two"));
}

#[test]
fn a_set_line_keeps_its_ending() {
    let text = "review:\r\n  model: a\r\nui:\r\n  theme: dark\r\n";
    assert_eq!(
        with_key(text, "review", "model", "b"),
        "review:\r\n  model: b\r\nui:\r\n  theme: dark\r\n"
    );
}

#[test]
fn a_comment_ends_no_section() {
    let text = "review:\n# chosen by CI\n  model: x\n";
    assert!(pins(text, "review", "model"));
    assert_eq!(
        with_key(text, "review", "model", "y"),
        "review:\n# chosen by CI\n  model: y\n"
    );
    let deep = "review:\n      # deep\n  model: x\n";
    assert!(pins(deep, "review", "model"));
    let gone = without_key(text, "review", "model").expect("it was there");
    assert_eq!(gone, "# chosen by CI\n");
}

#[test]
fn a_new_key_stands_before_the_next_heading() {
    let text = "review:\n  model: x\n# the look\nui:\n  theme: dark\n";
    assert_eq!(
        with_key(text, "review", "base_url", "u"),
        "review:\n  model: x\n  base_url: u\n# the look\nui:\n  theme: dark\n"
    );
}

#[test]
fn a_comment_inside_a_value_goes_with_it() {
    let text = "review:\n  focus:\n    - a\n# between\n    - b\n  model: x\n";
    assert_eq!(with_key(text, "review", "focus", "[]"), "review:\n  focus: []\n  model: x\n");
}

#[test]
fn a_header_may_have_a_comment() {
    assert!(pins("review: # mine\n  model: x\n", "review", "model"));
    assert!(!pins("review: x # mine\n  model: x\n", "review", "model"));
    assert!(!pins("reviews:\n  model: x\n", "review", "model"));
}

#[test]
fn a_quoted_key_is_the_key() {
    for line in ["  \"model\": x\n", "  'model': x\n"] {
        let text = format!("review:\n{line}");
        assert!(pins(&text, "review", "model"));
        assert_eq!(with_key(&text, "review", "model", "y"), "review:\n  model: y\n");
    }
}

#[test]
fn a_bare_dash_belongs_to_the_list() {
    let text = "review:\n  focus:\n  -\n    name: a\n  - b\n  model: x\n";
    assert_eq!(with_key(text, "review", "focus", "[]"), "review:\n  focus: []\n  model: x\n");
}

#[test]
fn the_last_setting_of_a_key_wins() {
    for text in ["", "ui: 1", "review:\n  focus: 1\n# end\nui: 1\n", "review:\n  model: [\n    a ]\n"] {
        let once = with_key(text, "review", "model", "a");
        assert_eq!(with_key(&once, "review", "model", "a"), once);
        assert_eq!(with_key(&once, "review", "model", "b"), with_key(text, "review", "model", "b"));
    }
}

#[test]
fn a_diff_path_may_hold_spaces() {
    let f = match PathFilter::new(&list(&[]), &list(&[])) {
        Ok(f) => f,
        Err(_) => panic!("no globs"),
    };
    let diff = "diff --git a/target/my file.txt b/target/my file.txt\n+x\n";
    assert_eq!(filter_diff(diff, &f), "");
    let moved = "diff --git a/src/a.rs b/target/a.rs\n+x\n";
    assert_eq!(filter_diff(moved, &f), "");
}
