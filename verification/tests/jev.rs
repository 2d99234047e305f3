use aster::jev::{advise, asks_before, env_on, resolve, snapshot, LoopAction};
use aster::json::{Fields, Json};
use aster::settings::Experimental;
use aster::turn::Advice;

fn said(role: &str, content: &str) -> Json {
    Fields::new().text("role", role).text("content", content).json()
}

#[test]
fn snapshot_keeps_the_last_entries_bounded() {
    let wire: Vec<Json> = (0..10).map(|i| said("assistant", &format!("round {i}"))).collect();
    let snap = snapshot(&wire);
    assert!(snap.contains("round 9"));
    assert!(!snap.contains("round 3"));
    let long = "x".repeat(2000);
    let wire = vec![said("user", &long)];
    assert!(snapshot(&wire).chars().count() < 600);
}

#[test]
fn a_short_message_is_shown_whole_and_a_long_one_is_cut() {
    let wire = vec![said("user", "  hi  ")];
    assert_eq!(snapshot(&wire), "user: hi");
    let wire = vec![said("user", &"y".repeat(600))];
    let shown = snapshot(&wire);
    assert_eq!(shown, format!("user: {}…", "y".repeat(511)));
}

#[test]
fn the_advisor_is_not_asked_before_the_first_round() {
    assert!(!asks_before(true, 0));
    assert!(asks_before(true, 1));
    assert!(!asks_before(false, 1));
}

#[test]
fn the_advisor_needs_a_switch_and_a_key() {
    let on = Experimental { jev: Some(true) };
    let off = Experimental { jev: None };
    let key = Some(" k ".to_string());
    assert_eq!(resolve(&None, &on, &key), Some("k".to_string()));
    assert_eq!(resolve(&None, &off, &key), None);
    assert_eq!(resolve(&Some("1".to_string()), &off, &key), Some("k".to_string()));
    assert_eq!(resolve(&None, &on, &Some("  ".to_string())), None);
    assert_eq!(resolve(&None, &on, &None), None);
    assert!(!env_on(&None));
}

#[test]
fn advice_follows_the_answer() {
    assert_eq!(advise(Some(LoopAction::Stop)), Advice::Stop);
    assert_eq!(advise(Some(LoopAction::Retry)), Advice::Retry);
    assert_eq!(advise(Some(LoopAction::AskUser)), Advice::AskUser);
    assert_eq!(advise(Some(LoopAction::Continue)), Advice::Nothing);
    assert_eq!(advise(None), Advice::Nothing);
}

#[test]
fn plain_text_is_cut_at_the_last_column() {
    let shown = |n: usize| snapshot(&vec![said("u", &"z".repeat(n))]);
    assert_eq!(shown(511), format!("u: {}", "z".repeat(511)));
    assert_eq!(shown(512), format!("u: {}…", "z".repeat(511)));
    assert_eq!(shown(513), format!("u: {}…", "z".repeat(511)));
}
