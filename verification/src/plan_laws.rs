//! What holds of every plan.

use vstd::prelude::*;

use crate::plan::{
    count_of, glyph_of, parsed_status, parsed_steps, plan_update, rendered, snapshot_of, status_of,
    step_rows, tally, unfinished, PlanStepStatus,
};
use crate::text::affix::{
    holds, lemma_holds_between, lemma_holds_through, lemma_holds_wider, opens, trimmed,
};
use crate::text::number::dec;
use crate::text::pieces::{joined, lemma_joined_holds};

verus! {

/// A plan is taken exactly when every step has a label and a known status; then
/// it has as many steps, each with its own label and its own status, and a step
/// without a status is pending.
pub proof fn steps_are_taken_as_written(v: Seq<(Seq<char>, Option<Seq<char>>)>)
    ensures
        parsed_steps(v) is Ok <==> forall|i: int|
            0 <= i < v.len() ==> trimmed((#[trigger] v[i]).0).len() > 0 && (v[i].1 is None
                || status_of(v[i].1.unwrap()) is Some),
        parsed_steps(v) matches Ok(done) ==> done.len() == v.len() && forall|i: int|
            0 <= i < v.len() ==> (#[trigger] done[i]).0 == trimmed(v[i].0) && (v[i].1 is None
                ==> done[i].1 == PlanStepStatus::Pending) && (v[i].1 is Some ==> status_of(
                v[i].1.unwrap(),
            ) == Some(done[i].1)),
    decreases v.len(),
{
    if v.len() > 0 {
        let head = v.drop_last();
        let n = v.len() - 1;
        steps_are_taken_as_written(head);
        assert(v.last() == v[n]);
        assert(status_of("pending"@) == Some(PlanStepStatus::Pending));
        if parsed_steps(v) is Ok {
            let done = parsed_steps(v)->Ok_0;
            let most = parsed_steps(head)->Ok_0;
            assert forall|i: int| 0 <= i < v.len() implies trimmed((#[trigger] v[i]).0).len() > 0
                && (v[i].1 is None || status_of(v[i].1.unwrap()) is Some) by {
                if i < n {
                    assert(head[i] == v[i]);
                }
            }
            assert forall|i: int| 0 <= i < v.len() implies (#[trigger] done[i]).0 == trimmed(v[i].0)
                && (v[i].1 is None ==> done[i].1 == PlanStepStatus::Pending) && (v[i].1 is Some
                ==> status_of(v[i].1.unwrap()) == Some(done[i].1)) by {
                if i < n {
                    assert(head[i] == v[i]);
                    assert(done[i] == most[i]);
                }
            }
        }
        if forall|i: int|
            0 <= i < v.len() ==> trimmed((#[trigger] v[i]).0).len() > 0 && (v[i].1 is None
                || status_of(v[i].1.unwrap()) is Some) {
            assert forall|i: int| 0 <= i < head.len() implies trimmed((#[trigger] head[i]).0).len()
                > 0 && (head[i].1 is None || status_of(head[i].1.unwrap()) is Some) by {
                assert(head[i] == v[i]);
            }
            assert(trimmed(v[n].0).len() > 0);
        }
    }
}

/// An update without steps is refused; any other is the steps it has.
pub proof fn an_empty_update_is_refused(v: Seq<(Seq<char>, Option<Seq<char>>)>)
    ensures
        v.len() == 0 ==> plan_update(v) is Err,
        v.len() > 0 ==> plan_update(v) == parsed_steps(v),
{
}

/// The words for a status are told apart, and an unknown one is quoted back.
pub proof fn statuses_are_words(word: Seq<char>)
    ensures
        status_of("pending"@) == Some(PlanStepStatus::Pending),
        status_of("in_progress"@) == Some(PlanStepStatus::InProgress),
        status_of("done"@) == Some(PlanStepStatus::Done),
        status_of("skipped"@) == Some(PlanStepStatus::Skipped),
        status_of("blocked"@) == Some(PlanStepStatus::Blocked),
        status_of(word) is None ==> parsed_status(Some(word)) is Err && holds(
            parsed_status(Some(word))->Err_0,
            word,
        ),
{
    reveal_strlit("pending");
    reveal_strlit("in_progress");
    reveal_strlit("done");
    reveal_strlit("skipped");
    reveal_strlit("blocked");
    assert("pending"@.len() == 7 && "in_progress"@.len() == 11 && "done"@.len() == 4);
    assert("skipped"@.len() == 7 && "blocked"@.len() == 7);
    assert("pending"@[0] == 'p' && "skipped"@[0] == 's' && "blocked"@[0] == 'b');
    lemma_holds_between(
        "unknown step status `"@,
        word,
        "`; use pending, in_progress, done, skipped, or blocked"@,
    );
}

/// Every step counts under its own status, and under that one only.
pub proof fn steps_are_counted_once(v: Seq<(Seq<char>, PlanStepStatus)>)
    ensures
        count_of(v, PlanStepStatus::Pending) + count_of(v, PlanStepStatus::InProgress) + count_of(
            v,
            PlanStepStatus::Done,
        ) + count_of(v, PlanStepStatus::Skipped) + count_of(v, PlanStepStatus::Blocked) == v.len(),
    decreases v.len(),
{
    if v.len() > 0 {
        steps_are_counted_once(v.drop_last());
    }
}

/// One more step adds one to the count of its status alone.
pub proof fn a_step_counts_under_its_status(
    v: Seq<(Seq<char>, PlanStepStatus)>,
    label: Seq<char>,
    status: PlanStepStatus,
    want: PlanStepStatus,
)
    ensures
        count_of(v.push((label, status)), want) == count_of(v, want) + if status == want {
            1nat
        } else {
            0nat
        },
{
    assert(v.push((label, status)).drop_last() =~= v);
}

/// A shown plan has a row for every step, with its sign and its label, and opens
/// with how many there are.
pub proof fn every_step_is_shown(v: Seq<(Seq<char>, PlanStepStatus)>, i: int)
    requires
        0 <= i < v.len(),
    ensures
        opens(rendered(v), dec(v.len())),
        holds(rendered(v), "  "@ + glyph_of(v[i].1) + " "@ + v[i].0),
{
    let rows = step_rows(v);
    let body = joined(rows, "\n"@);
    lemma_joined_holds(rows, "\n"@, i);
    let text = rendered(v);
    let front = text.take(text.len() - body.len());
    assert(text =~= front + body + Seq::empty());
    lemma_holds_wider(front, body, Seq::empty(), rows[i]);
    assert(text.take(dec(v.len()).len() as int) =~= dec(v.len()));
}

/// A shown plan tells how many steps are done and how many are open, and of the
/// other kinds those that it has.
pub proof fn the_tally_is_shown(v: Seq<(Seq<char>, PlanStepStatus)>)
    ensures
        holds(rendered(v), dec(count_of(v, PlanStepStatus::Done)) + " done"@),
        holds(rendered(v), dec(count_of(v, PlanStepStatus::Pending)) + " open"@),
        count_of(v, PlanStepStatus::InProgress) > 0 ==> holds(
            rendered(v),
            dec(count_of(v, PlanStepStatus::InProgress)) + " in progress"@,
        ),
        count_of(v, PlanStepStatus::Blocked) > 0 ==> holds(
            rendered(v),
            dec(count_of(v, PlanStepStatus::Blocked)) + " blocked"@,
        ),
        count_of(v, PlanStepStatus::Skipped) > 0 ==> holds(
            rendered(v),
            dec(count_of(v, PlanStepStatus::Skipped)) + " skipped"@,
        ),
{
    let parts = tally(v);
    let mid = joined(parts, ", "@);
    let text = rendered(v);
    let front = dec(v.len()) + (if v.len() == 1 { " task ("@ } else { " tasks ("@ });
    let back = ")\n"@ + joined(step_rows(v), "\n"@);
    assert(text =~= front + mid + back);
    lemma_holds_between(front, mid, back);
    let under_way = count_of(v, PlanStepStatus::InProgress) > 0;
    let blocked = count_of(v, PlanStepStatus::Blocked) > 0;
    let k: int = if under_way { 2 } else { 1 };
    lemma_part(v, text, mid, 0);
    if under_way {
        lemma_part(v, text, mid, 1);
    }
    lemma_part(v, text, mid, k);
    if blocked {
        lemma_part(v, text, mid, k + 1);
    }
    if count_of(v, PlanStepStatus::Skipped) > 0 {
        lemma_part(v, text, mid, parts.len() - 1);
    }
}

proof fn lemma_part(
    v: Seq<(Seq<char>, PlanStepStatus)>,
    text: Seq<char>,
    mid: Seq<char>,
    i: int,
)
    requires
        0 <= i < tally(v).len(),
        mid == joined(tally(v), ", "@),
        holds(text, mid),
    ensures
        holds(text, tally(v)[i]),
{
    lemma_joined_holds(tally(v), ", "@, i);
    lemma_holds_through(text, mid, tally(v)[i]);
}

/// A plan has work left exactly while a step is pending or under way.
pub proof fn work_left_is_pending_or_under_way(v: Seq<(Seq<char>, PlanStepStatus)>)
    ensures
        unfinished(snapshot_of(v)) <==> count_of(v, PlanStepStatus::Pending) + count_of(
            v,
            PlanStepStatus::InProgress,
        ) > 0,
        v.len() == 0 ==> snapshot_of(v) is None,
        v.len() > 0 ==> snapshot_of(v) == Some(v),
    decreases v.len(),
{
    if v.len() > 0 {
        let head = v.drop_last();
        let n = v.len() - 1;
        work_left_is_pending_or_under_way(head);
        if unfinished(snapshot_of(head)) {
            let i = choose|i: int|
                0 <= i < head.len() && ((#[trigger] head[i]).1 == PlanStepStatus::Pending
                    || head[i].1 == PlanStepStatus::InProgress);
            assert(v[i] == head[i]);
        }
        if unfinished(snapshot_of(v)) && !unfinished(snapshot_of(head)) {
            let i = choose|i: int|
                0 <= i < v.len() && ((#[trigger] v[i]).1 == PlanStepStatus::Pending || v[i].1
                    == PlanStepStatus::InProgress);
            if i < n {
                assert(head[i] == v[i]);
                assert(head.len() > 0);
            }
        }
        assert(v[n] == v.last());
    }
}

} // verus!
