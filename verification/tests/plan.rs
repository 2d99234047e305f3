use aster::plan::{plan_snapshot, plan_unfinished, same_snapshot, Draft, PlanState, PlanStepStatus};

fn step(label: &str, status: &str) -> (String, Option<String>) {
    (label.to_string(), Some(status.to_string()))
}

#[test]
fn a_plan_counts_its_steps() {
    let mut p = PlanState::new();
    let text = p.update_plan(&vec![step("a", "done"), step("b", "in_progress"), step("c", "pending")]);
    assert!(text.is_ok());
    assert_eq!(p.count(PlanStepStatus::Done), 1);
    assert_eq!(p.count(PlanStepStatus::Pending), 1);
    let shown = p.render();
    assert!(shown.contains("a"));
    assert!(plan_unfinished(&plan_snapshot(&p)));
}

#[test]
fn an_unknown_status_is_refused_and_the_plan_stays() {
    let mut p = PlanState::new();
    p.update_plan(&vec![step("a", "done")]).expect("a plan");
    let before = plan_snapshot(&p);
    assert!(p.update_plan(&vec![step("a", "perhaps")]).is_err());
    assert!(same_snapshot(&before, &plan_snapshot(&p)));
    assert!(!plan_unfinished(&before));
}

#[test]
fn a_passage_is_replaced_where_it_stands_once() {
    let mut p = PlanState::new();
    assert_eq!(p.write_plan(None, None, Some("x")), Draft::Nothing);
    assert_eq!(p.write_plan(Some("one two one"), None, None), Draft::Written);
    assert_eq!(p.write_plan(None, Some("one"), Some("x")), Draft::Ambiguous);
    assert_eq!(p.write_plan(None, Some("three"), Some("x")), Draft::Missing);
    assert_eq!(p.document, "one two one");
    assert_eq!(p.write_plan(None, Some("two"), Some("2")), Draft::Written);
    assert_eq!(p.document, "one 2 one");
    assert_eq!(p.write_plan(None, Some("2 one"), None), Draft::Written);
    assert_eq!(p.document, "one ");
}
