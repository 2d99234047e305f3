//! Handing tasks to sub-agents.

use vstd::prelude::*;

use crate::json::{found_after_push, items, nothing_in_nothing, Fields, Json, JsonV};
use crate::json_text::{arguments_of, parse_arguments};
use crate::text::affix::{holds, lemma_holds_between, opens};
use crate::text::cut::{truncate, truncated};
use crate::text::number::{dec, decimal_usize};
use crate::text::{cat2, cat4, cat5, opt};
use crate::turn::MAX_TOOL_RESULT_CHARS;

verus! {

/// One task for a named agent.
pub struct AgentTask {
    pub agent: String,
    pub task: String,
}

/// The models of the tasks: agent and task.
pub open spec fn tasks_view(v: Seq<AgentTask>) -> Seq<(Seq<char>, Seq<char>)> {
    Seq::new(v.len(), |i: int| (v[i].agent@, v[i].task@))
}

/// The entries of a call: its list of tasks, or the call itself where it names
/// one task directly.
pub open spec fn batch_of(a: JsonV) -> Option<Seq<JsonV>> {
    match a.elements_at("tasks"@) {
        Some(v) => Some(v),
        None => if a.get("agent"@) is Some && a.get("task"@) is Some {
            Some(Seq::empty().push(a))
        } else {
            None
        },
    }
}

/// The entries of a call.
pub fn agent_task_batch(a: &Json) -> (r: Option<Vec<Json>>)
    ensures
        r is Some <==> batch_of(a@) is Some,
        r is Some ==> batch_of(a@) == Some(items(r.unwrap()@)),
{
    match a.array_at("tasks") {
        Some(v) => Some(crate::json::copy_items(v)),
        None => {
            if a.get("agent").is_some() && a.get("task").is_some() {
                let mut out: Vec<Json> = Vec::new();
                out.push(a.copy());
                assert(items(out@) =~= Seq::empty().push(a@));
                Some(out)
            } else {
                None
            }
        },
    }
}

/// The entries that name both an agent and a task.
pub open spec fn valid_tasks(v: Seq<JsonV>) -> Seq<(Seq<char>, Seq<char>)>
    decreases v.len(),
{
    if v.len() == 0 {
        Seq::empty()
    } else {
        match (v.last().text_at("agent"@), v.last().text_at("task"@)) {
            (Some(agent), Some(task)) => valid_tasks(v.drop_last()).push((agent, task)),
            _ => valid_tasks(v.drop_last()),
        }
    }
}

/// The first `max` entries.
pub open spec fn within_cap(v: Seq<JsonV>, max: int) -> Seq<JsonV> {
    if v.len() <= max {
        v
    } else {
        v.take(max)
    }
}

/// How many entries are beyond the cap.
pub open spec fn beyond_cap(v: Seq<JsonV>, max: int) -> int {
    if v.len() <= max {
        0
    } else {
        v.len() - max
    }
}

/// What is to be done about a call of `agent`.
pub enum AgentPlan {
    /// Answer with a text.
    Say(String),
    /// Report on the background work.
    Status,
    /// Run the tasks; `over_cap` more were beyond the cap.
    Run { tasks: Vec<AgentTask>, background: bool, over_cap: usize },
}

/// True when the plan answers with exactly this text.
pub open spec fn answers(p: AgentPlan, text: Seq<char>) -> bool {
    p matches AgentPlan::Say(s) && s@ == text
}

/// What a call of `agent` with the arguments `a` comes to.
pub open spec fn agent_plan(p: AgentPlan, a: JsonV, max: int) -> bool {
    match batch_of(a) {
        None => answers(p, "error: agent tool requires a `tasks` array"@),
        Some(v) => {
            let wanted = valid_tasks(within_cap(v, max));
            if wanted.len() == 0 {
                answers(
                    p,
                    "error: agent tool needs at least one valid task with `agent` and `task` fields"@,
                )
            } else if a.boolean_at("check"@) == Some(true) {
                p is Status
            } else {
                p matches AgentPlan::Run { tasks, background, over_cap } && tasks_view(tasks@)
                    == wanted && background == (a.boolean_at("background"@) == Some(true))
                    && over_cap == beyond_cap(v, max)
            }
        },
    }
}

/// What a call of `agent` with parsed arguments comes to.
pub fn plan_agents(a: &Json, max_per_turn: usize) -> (r: AgentPlan)
    ensures
        agent_plan(r, a@, max_per_turn as int),
{
    let batch = match agent_task_batch(a) {
        Some(v) => v,
        None => return AgentPlan::Say("error: agent tool requires a `tasks` array".to_owned()),
    };
    let ghost all = items(batch@);
    let stop: usize = if batch.len() <= max_per_turn { batch.len() } else { max_per_turn };
    let mut tasks: Vec<AgentTask> = Vec::new();
    let mut i: usize = 0;
    assert(tasks_view(tasks@) =~= valid_tasks(all.take(0)));
    while i < stop
        invariant
            i <= stop <= batch@.len(),
            all == items(batch@),
            tasks_view(tasks@) == valid_tasks(all.take(i as int)),
        decreases stop - i,
    {
        proof {
            assert(all.take(i + 1).drop_last() =~= all.take(i as int));
            assert(all.take(i + 1).last() == batch@[i as int]@);
        }
        let ghost had = tasks_view(tasks@);
        match (batch[i].str_at("agent"), batch[i].str_at("task")) {
            (Some(agent), Some(task)) => {
                let one = AgentTask { agent: agent.to_owned(), task: task.to_owned() };
                tasks.push(one);
                assert(tasks_view(tasks@) =~= had.push((one.agent@, one.task@)));
            },
            _ => {},
        }
        i += 1;
    }
    assert(all.take(all.len() as int) =~= all);
    assert(tasks_view(tasks@).len() == tasks@.len());
    if tasks.len() == 0 {
        return AgentPlan::Say(
            "error: agent tool needs at least one valid task with `agent` and `task` fields".to_owned(),
        );
    }
    let check = match a.bool_at("check") {
        Some(b) => b,
        None => false,
    };
    if check {
        return AgentPlan::Status;
    }
    let background = match a.bool_at("background") {
        Some(b) => b,
        None => false,
    };
    AgentPlan::Run { tasks, background, over_cap: batch.len() - stop }
}

/// What a call of `agent` with raw arguments comes to.
pub fn dispatch_agent_tool(arguments: &str, max_per_turn: usize) -> (r: AgentPlan)
    ensures
        match arguments_of(arguments@) {
            Ok(a) => agent_plan(r, a, max_per_turn as int),
            Err(e) => answers(r, "error: agent arguments were not valid JSON: "@ + e),
        },
{
    match parse_arguments(arguments) {
        Ok(a) => plan_agents(&a, max_per_turn),
        Err(e) => AgentPlan::Say(
            cat2("error: agent arguments were not valid JSON: ", e.as_str()),
        ),
    }
}

proof fn lemma_valid_tasks_len(v: Seq<JsonV>)
    ensures
        valid_tasks(v).len() <= v.len(),
    decreases v.len(),
{
    if v.len() > 0 {
        lemma_valid_tasks_len(v.drop_last());
    }
}

/// A call never runs more tasks than the cap, and every entry is within the cap
/// or counted as beyond it.
pub proof fn calls_respect_the_cap(p: AgentPlan, a: JsonV, max: nat)
    requires
        agent_plan(p, a, max as int),
        p is Run,
    ensures
        p->tasks@.len() <= max,
        within_cap(batch_of(a).unwrap(), max as int).len() + p->over_cap == batch_of(
            a,
        ).unwrap().len(),
{
    let v = batch_of(a).unwrap();
    lemma_valid_tasks_len(within_cap(v, max as int));
    assert(tasks_view(p->tasks@).len() == p->tasks@.len());
}

/// Where every entry within the cap has a text under `agent` and a text under
/// `task`, as many tasks run as there are such entries, and each is given the
/// agent and the task of its own entry.
pub proof fn every_entry_becomes_its_own_task(p: AgentPlan, a: JsonV, v: Seq<JsonV>, max: nat)
    requires
        agent_plan(p, a, max as int),
        a.elements_at("tasks"@) == Some(v),
        a.boolean_at("check"@) != Some(true),
        0 < v.len(),
        0 < max,
        forall|i: int|
            0 <= i < v.len() && i < max ==> (#[trigger] v[i]).text_at("agent"@) is Some
                && v[i].text_at("task"@) is Some,
    ensures
        p matches AgentPlan::Run { tasks, background, over_cap } && {
            &&& tasks@.len() == if v.len() <= max { v.len() } else { max }
            &&& forall|i: int|
                0 <= i < tasks@.len() ==> Some((#[trigger] tasks@[i]).agent@) == v[i].text_at(
                    "agent"@,
                ) && Some(tasks@[i].task@) == v[i].text_at("task"@)
            &&& over_cap == v.len() - tasks@.len()
            &&& background <==> a.boolean_at("background"@) == Some(true)
        },
{
    let w = within_cap(v, max as int);
    assert forall|i: int| 0 <= i < w.len() implies (#[trigger] w[i]).text_at("agent"@) is Some
        && w[i].text_at("task"@) is Some by {
        assert(w[i] == v[i]);
    }
    lemma_valid_tasks_all(w);
    match p {
        AgentPlan::Run { tasks, background, over_cap } => {
            assert(tasks_view(tasks@).len() == w.len());
            assert forall|i: int| 0 <= i < tasks@.len() implies Some((#[trigger] tasks@[i]).agent@)
                == v[i].text_at("agent"@) && Some(tasks@[i].task@) == v[i].text_at("task"@) by {
                assert(w[i] == v[i]);
                assert(tasks_view(tasks@)[i] == (tasks@[i].agent@, tasks@[i].task@));
            }
        },
        _ => {},
    }
}

/// A call that names one agent and one task, with no list, runs that one task.
pub proof fn a_call_without_a_list_is_one_task(
    p: AgentPlan,
    a: JsonV,
    max: nat,
    agent: Seq<char>,
    task: Seq<char>,
)
    requires
        agent_plan(p, a, max as int),
        a.elements_at("tasks"@) is None,
        a.text_at("agent"@) == Some(agent),
        a.text_at("task"@) == Some(task),
        a.boolean_at("check"@) != Some(true),
        0 < max,
    ensures
        p matches AgentPlan::Run { tasks, background, over_cap } && tasks@.len() == 1
            && tasks@[0].agent@ == agent && tasks@[0].task@ == task && over_cap == 0 && (background
            <==> a.boolean_at("background"@) == Some(true)),
{
    let w = Seq::empty().push(a);
    assert(within_cap(w, max as int) == w);
    lemma_valid_tasks_all(w);
    match p {
        AgentPlan::Run { tasks, background, over_cap } => {
            assert(tasks_view(tasks@)[0] == (tasks@[0].agent@, tasks@[0].task@));
            assert(w[0] == a);
        },
        _ => {},
    }
}

/// Every task that runs is that of an entry within the cap, no two of one
/// entry, and in the order of the entries.
pub proof fn tasks_come_from_entries_in_order(
    p: AgentPlan,
    a: JsonV,
    v: Seq<JsonV>,
    max: nat,
) -> (from: Seq<int>)
    requires
        agent_plan(p, a, max as int),
        a.elements_at("tasks"@) == Some(v),
    ensures
        p matches AgentPlan::Run { tasks, background, over_cap } ==> {
            &&& from.len() == tasks@.len()
            &&& forall|i: int|
                0 <= i < from.len() ==> 0 <= #[trigger] from[i] < v.len() && from[i] < max
                    && v[from[i]].text_at("agent"@) == Some(tasks@[i].agent@)
                    && v[from[i]].text_at("task"@) == Some(tasks@[i].task@)
            &&& forall|i: int, j: int|
                0 <= i < j < from.len() ==> #[trigger] from[i] < #[trigger] from[j]
        },
{
    let w = within_cap(v, max as int);
    let from = lemma_valid_tasks_from(w);
    match p {
        AgentPlan::Run { tasks, background, over_cap } => {
            assert(tasks_view(tasks@).len() == tasks@.len());
            assert forall|i: int| 0 <= i < from.len() implies 0 <= #[trigger] from[i] < v.len()
                && from[i] < max && v[from[i]].text_at("agent"@) == Some(tasks@[i].agent@)
                && v[from[i]].text_at("task"@) == Some(tasks@[i].task@) by {
                assert(tasks_view(tasks@)[i] == (tasks@[i].agent@, tasks@[i].task@));
                assert(w[from[i]] == v[from[i]]);
            }
        },
        _ => {},
    }
    from
}

proof fn lemma_valid_tasks_from(v: Seq<JsonV>) -> (from: Seq<int>)
    ensures
        from.len() == valid_tasks(v).len(),
        forall|i: int|
            0 <= i < from.len() ==> 0 <= #[trigger] from[i] < v.len() && v[from[i]].text_at(
                "agent"@,
            ) == Some(valid_tasks(v)[i].0) && v[from[i]].text_at("task"@) == Some(
                valid_tasks(v)[i].1,
            ),
        forall|i: int, j: int|
            0 <= i < j < from.len() ==> #[trigger] from[i] < #[trigger] from[j],
    decreases v.len(),
{
    if v.len() == 0 {
        Seq::empty()
    } else {
        let head = v.drop_last();
        let most = lemma_valid_tasks_from(head);
        assert forall|i: int| 0 <= i < most.len() implies v[#[trigger] most[i]] == head[most[i]] by {}
        match (v.last().text_at("agent"@), v.last().text_at("task"@)) {
            (Some(agent), Some(task)) => most.push(v.len() - 1),
            _ => most,
        }
    }
}

proof fn lemma_valid_tasks_all(v: Seq<JsonV>)
    requires
        forall|i: int|
            0 <= i < v.len() ==> (#[trigger] v[i]).text_at("agent"@) is Some && v[i].text_at(
                "task"@,
            ) is Some,
    ensures
        valid_tasks(v).len() == v.len(),
        forall|i: int|
            0 <= i < v.len() ==> Some((#[trigger] valid_tasks(v)[i]).0) == v[i].text_at("agent"@)
                && Some(valid_tasks(v)[i].1) == v[i].text_at("task"@),
    decreases v.len(),
{
    if v.len() > 0 {
        let head = v.drop_last();
        assert forall|i: int| 0 <= i < head.len() implies (#[trigger] head[i]).text_at(
            "agent"@,
        ) is Some && head[i].text_at("task"@) is Some by {
            assert(head[i] == v[i]);
        }
        lemma_valid_tasks_all(head);
        assert(v.last() == v[v.len() - 1]);
    }
}

/// What is said once tasks were queued.
pub fn queued_text(count: usize, id: &str) -> (r: String)
    ensures
        r@ == "Queued "@ + dec(count as nat) + " task(s) as background batch "@ + id@
            + ". They run while you keep working; \
                 each agent's report arrives automatically between rounds. Use the agent tool with \
                 `check: true` to see progress."@,
{
    cat5(
        "Queued ",
        decimal_usize(count).as_str(),
        " task(s) as background batch ",
        id,
        ". They run while you keep working; \
                 each agent's report arrives automatically between rounds. Use the agent tool with \
                 `check: true` to see progress.",
    )
}

/// How far a task has come.
#[derive(Clone, Copy, PartialEq, Eq, Structural, Debug)]
pub enum TaskState {
    Running,
    Done,
    Failed,
}

/// The word for how far a task has come.
pub open spec fn state_word(s: TaskState) -> Seq<char> {
    match s {
        TaskState::Running => "running"@,
        TaskState::Done => "done"@,
        TaskState::Failed => "error"@,
    }
}

/// The event that reports on a task.
pub open spec fn status_event(
    call_id: Seq<char>,
    agent: Seq<char>,
    task: Seq<char>,
    state: TaskState,
    done: u64,
    total: u64,
    report: Option<Seq<char>>,
    error: Option<Seq<char>>,
) -> JsonV {
    let base = Seq::empty().push(("type"@, JsonV::Str("agent_status"@))).push(
        ("call_id"@, JsonV::Str(call_id)),
    ).push(("agent"@, JsonV::Str(agent))).push(("task"@, JsonV::Str(task))).push(
        ("status"@, JsonV::Str(state_word(state))),
    ).push(("done"@, JsonV::Number(done))).push(("total"@, JsonV::Number(total)));
    let a = match report {
        Some(r) => base.push(("report"@, JsonV::Str(r))),
        None => base,
    };
    JsonV::Obj(
        match error {
            Some(e) => a.push(("error"@, JsonV::Str(e))),
            None => a,
        },
    )
}

/// The event that reports on a task.
pub fn agent_status(
    call_id: &str,
    task: &AgentTask,
    state: TaskState,
    done: u64,
    total: u64,
    report: &Option<String>,
    error: &Option<String>,
) -> (r: Json)
    ensures
        r@ == status_event(
            call_id@,
            task.agent@,
            task.task@,
            state,
            done,
            total,
            opt(*report),
            opt(*error),
        ),
{
    let word = match state {
        TaskState::Running => "running",
        TaskState::Done => "done",
        TaskState::Failed => "error",
    };
    let base = Fields::new().text("type", "agent_status").text("call_id", call_id).text(
        "agent",
        task.agent.as_str(),
    ).text("task", task.task.as_str()).text("status", word).with("done", Json::Number(done)).with(
        "total",
        Json::Number(total),
    );
    let a = match report {
        Some(r) => base.text("report", r.as_str()),
        None => base,
    };
    match error {
        Some(e) => a.text("error", e.as_str()).json(),
        None => a.json(),
    }
}

/// The event for a line of what a sub-agent does.
pub open spec fn activity_event(
    call_id: Seq<char>,
    agent: Seq<char>,
    task: Seq<char>,
    line: Seq<char>,
) -> JsonV {
    JsonV::Obj(
        Seq::empty().push(("type"@, JsonV::Str("agent_activity"@))).push(
            ("call_id"@, JsonV::Str(call_id)),
        ).push(("agent"@, JsonV::Str(agent))).push(("task"@, JsonV::Str(task))).push(
            ("line"@, JsonV::Str(line)),
        ),
    )
}

/// What a sub-agent does is told with its call, its agent, its task and the line.
pub proof fn activity_tells_the_task(
    call_id: Seq<char>,
    agent: Seq<char>,
    task: Seq<char>,
    line: Seq<char>,
)
    ensures
        activity_event(call_id, agent, task, line).text_at("call_id"@) == Some(call_id),
        activity_event(call_id, agent, task, line).text_at("agent"@) == Some(agent),
        activity_event(call_id, agent, task, line).text_at("task"@) == Some(task),
        activity_event(call_id, agent, task, line).text_at("line"@) == Some(line),
{
    broadcast use {found_after_push, nothing_in_nothing};

    lemma_status_keys();
    reveal_strlit("line");
    assert("line"@.len() == 4 && "line"@[0] == 'l' && "task"@[0] == 't' && "type"@[0] == 't') by {
        reveal_strlit("task");
        reveal_strlit("type");
    }
}

/// The event that shows what an agent is doing.
pub fn agent_activity(call_id: &str, agent: &str, task: &str, line: &str) -> (r: Json)
    ensures
        r@ == JsonV::Obj(
            Seq::empty().push(("type"@, JsonV::Str("agent_activity"@))).push(
                ("call_id"@, JsonV::Str(call_id@)),
            ).push(("agent"@, JsonV::Str(agent@))).push(("task"@, JsonV::Str(task@))).push(
                ("line"@, JsonV::Str(line@)),
            ),
        ),
        r@ == activity_event(call_id@, agent@, task@, line@),
{
    Fields::new().text("type", "agent_activity").text("call_id", call_id).text(
        "agent",
        agent,
    ).text("task", task).text("line", line).json()
}

/// What one agent came back with.
pub struct TaskReport {
    pub agent: String,
    pub task: String,
    pub report: Option<String>,
    pub error: Option<String>,
}

/// The share of the result that each of `count` reports gets, in bytes.
pub open spec fn report_share(count: int) -> int {
    MAX_TOOL_RESULT_CHARS as int / (if count < 1 {
        1
    } else {
        count
    })
}

/// Cut each report to its share.
pub fn cap_reports(reports: &mut Vec<TaskReport>)
    ensures
        final(reports)@.len() == old(reports)@.len(),
        forall|i: int|
            0 <= i < old(reports)@.len() ==> {
                let was = #[trigger] old(reports)@[i];
                let is = final(reports)@[i];
                &&& is.agent == was.agent
                &&& is.task == was.task
                &&& is.error == was.error
                &&& opt(is.report) == match was.report {
                    Some(text) => Some(
                        truncated(text@, report_share(old(reports)@.len() as int)),
                    ),
                    None => None,
                }
            },
{
    let count: usize = if reports.len() < 1 { 1 } else { reports.len() };
    let share: usize = MAX_TOOL_RESULT_CHARS / count;
    let ghost start = reports@;
    let mut out: Vec<TaskReport> = Vec::new();
    while reports.len() > 0
        invariant
            reports@.len() + out@.len() == start.len(),
            reports@ == start.take(reports@.len() as int),
            share == report_share(start.len() as int),
            forall|k: int|
                0 <= k < out@.len() ==> {
                    let was = start[start.len() - 1 - k];
                    let is = #[trigger] out@[k];
                    &&& is.agent == was.agent
                    &&& is.task == was.task
                    &&& is.error == was.error
                    &&& opt(is.report) == match was.report {
                        Some(text) => Some(truncated(text@, share as int)),
                        None => None,
                    }
                },
        decreases reports@.len(),
    {
        let ghost n = reports@.len();
        match reports.pop() {
            Some(r) => {
                assert(r == start[n - 1]);
                assert(reports@ =~= start.take(n - 1));
                let report = match &r.report {
                    Some(text) => Some(truncate(text.as_str(), share)),
                    None => None,
                };
                out.push(TaskReport { agent: r.agent, task: r.task, report, error: r.error });
            },
            None => {},
        }
    }
    while out.len() > 0
        invariant
            reports@.len() + out@.len() == start.len(),
            share == report_share(start.len() as int),
            forall|k: int|
                0 <= k < out@.len() ==> {
                    let was = start[start.len() - 1 - k];
                    let is = #[trigger] out@[k];
                    &&& is.agent == was.agent
                    &&& is.task == was.task
                    &&& is.error == was.error
                    &&& opt(is.report) == match was.report {
                        Some(text) => Some(truncated(text@, share as int)),
                        None => None,
                    }
                },
            forall|k: int|
                0 <= k < reports@.len() ==> {
                    let was = start[k];
                    let is = #[trigger] reports@[k];
                    &&& is.agent == was.agent
                    &&& is.task == was.task
                    &&& is.error == was.error
                    &&& opt(is.report) == match was.report {
                        Some(text) => Some(truncated(text@, share as int)),
                        None => None,
                    }
                },
        decreases out@.len(),
    {
        let ghost n = out@.len();
        let ghost before = out@;
        match out.pop() {
            Some(r) => {
                assert(r == before[n - 1]);
                reports.push(r);
            },
            None => {},
        }
    }
}

/// What a batch answers, given its reports as text.
pub open spec fn batch_result(reports: Seq<char>, over_cap: int, max: nat) -> Seq<char> {
    if over_cap > 0 {
        reports + ("\n\n("@ + dec(over_cap as nat) + " task(s) beyond the per-call cap of "@ + dec(
            max,
        ) + " were NOT run. \
            They are not lost: re-send them in your next `agent` call, in waves of at most \
            "@)
            + dec(max) + ", until the whole batch has run.)"@
    } else {
        reports
    }
}

/// What a batch answers, given its reports as text.
pub fn batch_text(reports: &str, over_cap: usize, max_per_turn: usize) -> (r: String)
    ensures
        r@ == batch_result(reports@, over_cap as int, max_per_turn as nat),
{
    if over_cap == 0 {
        return reports.to_owned();
    }
    let max = decimal_usize(max_per_turn);
    let note = cat5(
        "\n\n(",
        decimal_usize(over_cap).as_str(),
        " task(s) beyond the per-call cap of ",
        max.as_str(),
        " were NOT run. \
            They are not lost: re-send them in your next `agent` call, in waves of at most \
            ",
    );
    cat4(reports, note.as_str(), max.as_str(), ", until the whole batch has run.)")
}

/// The state of a task is told with its call, its agent, its task and how far the
/// batch is.
pub proof fn a_status_tells_the_task(
    call_id: Seq<char>,
    agent: Seq<char>,
    task: Seq<char>,
    state: TaskState,
    done: u64,
    total: u64,
    report: Option<Seq<char>>,
    error: Option<Seq<char>>,
)
    ensures
        ({
            let e = status_event(call_id, agent, task, state, done, total, report, error);
            &&& e.text_at("type"@) == Some("agent_status"@)
            &&& e.text_at("call_id"@) == Some(call_id)
            &&& e.text_at("agent"@) == Some(agent)
            &&& e.text_at("task"@) == Some(task)
            &&& e.text_at("status"@) == Some(state_word(state))
        }),
{
    broadcast use {found_after_push, nothing_in_nothing};

    lemma_status_keys();
}

/// The state of a task is told with the report it has or the error it met.
pub proof fn a_status_tells_the_outcome(
    call_id: Seq<char>,
    agent: Seq<char>,
    task: Seq<char>,
    state: TaskState,
    done: u64,
    total: u64,
    report: Option<Seq<char>>,
    error: Option<Seq<char>>,
)
    ensures
        ({
            let e = status_event(call_id, agent, task, state, done, total, report, error);
            &&& e.unsigned_at("done"@) == Some(done)
            &&& e.unsigned_at("total"@) == Some(total)
            &&& e.text_at("report"@) == report
            &&& e.text_at("error"@) == error
        }),
{
    broadcast use {found_after_push, nothing_in_nothing};

    lemma_status_keys();
}

proof fn lemma_status_keys()
    ensures
        "type"@.len() == 4 && "type"@[1] == 'y',
        "call_id"@.len() == 7,
        "agent"@.len() == 5 && "agent"@[0] == 'a',
        "task"@.len() == 4 && "task"@[1] == 'a',
        "status"@.len() == 6 && "status"@[0] == 's',
        "done"@.len() == 4 && "done"@[1] == 'o',
        "total"@.len() == 5 && "total"@[0] == 't',
        "report"@.len() == 6 && "report"@[0] == 'r',
        "error"@.len() == 5 && "error"@[0] == 'e',
{
    reveal_strlit("type");
    reveal_strlit("call_id");
    reveal_strlit("agent");
    reveal_strlit("task");
    reveal_strlit("status");
    reveal_strlit("done");
    reveal_strlit("total");
    reveal_strlit("report");
    reveal_strlit("error");
}

/// The shares of all reports together are no more than one result may be.
pub proof fn shares_fit_one_result(count: nat)
    requires
        count > 0,
    ensures
        report_share(count as int) * count <= MAX_TOOL_RESULT_CHARS,
        MAX_TOOL_RESULT_CHARS < (report_share(count as int) + 1) * count,
{
    let n = count as int;
    let max = MAX_TOOL_RESULT_CHARS as int;
    assert((max / n) * n <= max && max < (max / n + 1) * n) by (nonlinear_arith)
        requires
            n > 0,
            max >= 0,
    ;
}

/// What a batch answers opens with its reports, and tells of every task that was
/// beyond the cap.
pub proof fn a_batch_answers_with_its_reports(reports: Seq<char>, over_cap: nat, max: nat)
    ensures
        opens(batch_result(reports, over_cap as int, max), reports),
        over_cap == 0 ==> batch_result(reports, over_cap as int, max) == reports,
        over_cap > 0 ==> holds(
            batch_result(reports, over_cap as int, max),
            "("@ + dec(over_cap) + " task(s) beyond the per-call cap of "@ + dec(max),
        ),
{
    let text = batch_result(reports, over_cap as int, max);
    assert(text.take(reports.len() as int) =~= reports);
    if over_cap > 0 {
        reveal_strlit("\n\n(");
        reveal_strlit("\n\n");
        reveal_strlit("(");
        assert("\n\n("@ =~= "\n\n"@ + "("@);
        let front = reports + "\n\n"@;
        let mid = "("@ + dec(over_cap) + " task(s) beyond the per-call cap of "@ + dec(max);
        let rest = text.skip((front + mid).len() as int);
        assert(text =~= front + mid + rest);
        lemma_holds_between(front, mid, rest);
    }
}

/// A call without tasks is answered with what it lacks, a check with how the work
/// stands, and nothing else is answered without running.
pub proof fn only_a_call_with_tasks_runs(p: AgentPlan, a: JsonV, max: nat)
    requires
        agent_plan(p, a, max as int),
    ensures
        a.elements_at("tasks"@) is None && (a.get("agent"@) is None || a.get("task"@) is None)
            ==> p is Say,
        a.elements_at("tasks"@) matches Some(v) ==> (v.len() == 0 ==> p is Say),
        p is Status ==> a.boolean_at("check"@) == Some(true),
        p is Run ==> a.boolean_at("check"@) != Some(true),
        p matches AgentPlan::Run { tasks, background, over_cap } ==> tasks@.len() > 0,
{
    match p {
        AgentPlan::Run { tasks, background, over_cap } => {
            assert(tasks_view(tasks@).len() == tasks@.len());
        },
        _ => {},
    }
}

} // verus!
