//! The task runtime: the state machine that schedules task steps.
//!
//! It keeps every task and the event log in memory. Persisting them,
//! sending step messages to agents and running read-only workspace tools are
//! done by the caller, which hands the results back through the methods
//! below.
use vstd::prelude::*;
use crate::json::{Json, JsonValue, jv, jv_fields, object, push_field, jstr};
use crate::task::{
    EventView, StepStatus, StepView, Task, TaskEvent, TaskEventKind, TaskStatus, TaskStep, TaskView,
    is_done, is_terminal, opt_ref_str, step_views, task_status_is_terminal,
};
use crate::text::{concat2, decimal, decimal_string, own, push_str, str_eq};

verus! {

broadcast use vstd::std_specs::vec::group_vec_axioms;

/// A step handed to an agent.
#[derive(Debug)]
pub struct StepDispatch {
    pub task_id: String,
    pub step_id: String,
    pub agent_name: String,
    pub instruction: String,
    pub context: JsonValue,
}

/// Result of a retry.
#[derive(Debug)]
pub struct RetryTaskResult {
    pub task: Task,
    pub dispatches: Vec<StepDispatch>,
    pub needs_planner: bool,
}

/// Result of skipping a step.
#[derive(Debug)]
pub struct SkipStepResult {
    pub task: Task,
    pub dispatches: Vec<StepDispatch>,
}

/// All tasks and the event log.
#[derive(Debug)]
pub struct TaskRuntime {
    pub tasks: Vec<Task>,
    pub events: Vec<TaskEvent>,
}

/// The models of a list of tasks.
pub open spec fn task_views(v: Seq<Task>) -> Seq<TaskView> {
    v.map_values(|t: Task| t@)
}

/// The models of a list of events.
pub open spec fn event_views(v: Seq<TaskEvent>) -> Seq<EventView> {
    v.map_values(|e: TaskEvent| e@)
}

/// Whether no two tasks share an id.
pub open spec fn unique_ids(ts: Seq<TaskView>) -> bool {
    forall|i: int, j: int| 0 <= i < ts.len() && 0 <= j < ts.len() && i != j ==> ts[i].id != ts[j].id
}

/// Whether some task has id `id`.
pub open spec fn has_task(ts: Seq<TaskView>, id: Seq<char>) -> bool {
    exists|i: int| 0 <= i < ts.len() && ts[i].id == id
}

/// The position of the task with id `id` (meaningful when `has_task`).
pub open spec fn task_index(ts: Seq<TaskView>, id: Seq<char>) -> int {
    choose|i: int| 0 <= i < ts.len() && ts[i].id == id
}

/// The task with id `id`, if there is one.
pub open spec fn lookup_task(ts: Seq<TaskView>, id: Seq<char>) -> Option<TaskView> {
    if has_task(ts, id) {
        Some(ts[task_index(ts, id)])
    } else {
        None
    }
}

/// `ts` with the task at the position of `id` replaced by `t`.
pub open spec fn replace_task(ts: Seq<TaskView>, id: Seq<char>, t: TaskView) -> Seq<TaskView> {
    ts.update(task_index(ts, id), t)
}

/// `a` and `b` agree except for their update time.
pub open spec fn same_but_time(a: TaskView, b: TaskView) -> bool {
    a == TaskView { updated_at: a.updated_at, ..b }
}

/// Which steps count toward a finished plan: all steps are `Completed` or `Skipped`.
pub open spec fn all_done(steps: Seq<StepView>) -> bool {
    forall|k: int| 0 <= k < steps.len() ==> is_done(#[trigger] steps[k].status)
}

/// Number of steps with status `st`.
pub open spec fn count_status(steps: Seq<StepView>, st: StepStatus) -> nat
    decreases steps.len(),
{
    if steps.len() == 0 {
        0
    } else {
        count_status(steps.drop_last(), st) + if steps.last().status == st {
            1nat
        } else {
            0nat
        }
    }
}

/// The summary written when a plan finishes.
pub open spec fn completion_text(completed: nat, skipped: nat) -> Seq<char> {
    if skipped == 0 {
        "任务执行调度器已完成，共完成 "@ + decimal(completed) + " 个步骤。"@
    } else {
        "任务执行调度器已完成，共完成 "@ + decimal(completed) + " 个步骤，跳过 "@ + decimal(
            skipped,
        ) + " 个步骤。"@
    }
}

/// The payload of a completion event.
pub open spec fn completion_payload(completed: nat, skipped: nat) -> Json {
    Json::Object(
        seq![
            ("completedSteps"@, Json::Int(completed as int)),
            ("skippedSteps"@, Json::Int(skipped as int)),
        ],
    )
}

/// Whether finishing the plan of `t` is due: it has steps, it is not final,
/// and every step is `Completed` or `Skipped`.
pub open spec fn completion_due(t: TaskView) -> bool {
    t.steps.len() > 0 && !is_terminal(t.status) && all_done(t.steps)
}

/// How a task looks after `complete_task_if_ready` (up to its update time), and
/// the events that records.
pub open spec fn completed_if_ready(t: TaskView, t2: TaskView, emitted: Seq<EventView>) -> bool {
    if completion_due(t) {
        let c = count_status(t.steps, StepStatus::Completed);
        let s = count_status(t.steps, StepStatus::Skipped);
        &&& same_but_time(
            t2,
            TaskView {
                status: TaskStatus::Completed,
                output: Some(completion_text(c, s)),
                error: None,
                ..t
            },
        )
        &&& emitted == seq![
            EventView {
                task_id: t.id,
                step_id: None,
                kind: TaskEventKind::Completed,
                message: completion_text(c, s),
                payload: completion_payload(c, s),
            },
        ]
    } else {
        t2 == t && emitted == Seq::<EventView>::empty()
    }
}

/// The completion summary for `completed` and `skipped` step counts.
pub fn completion_output(completed_steps: usize, skipped_steps: usize) -> (s: String)
    ensures
        s@ == completion_text(completed_steps as nat, skipped_steps as nat),
{
    let mut s = own("任务执行调度器已完成，共完成 ");
    let c = decimal_string(completed_steps as u64);
    push_str(&mut s, c.as_str());
    if skipped_steps == 0 {
        push_str(&mut s, " 个步骤。");
    } else {
        push_str(&mut s, " 个步骤，跳过 ");
        let k = decimal_string(skipped_steps as u64);
        push_str(&mut s, k.as_str());
        push_str(&mut s, " 个步骤。");
    }
    s
}

/// Counts the steps with status `st`.
pub fn count_steps(steps: &Vec<TaskStep>, st: StepStatus) -> (n: usize)
    ensures
        n as nat == count_status(step_views(steps@), st),
{
    let mut n: usize = 0;
    let mut i: usize = 0;
    while i < steps.len()
        invariant
            i <= steps@.len(),
            n <= i,
            n as nat == count_status(step_views(steps@).take(i as int), st),
        decreases steps.len() - i,
    {
        assert(step_views(steps@).take(i + 1).drop_last() =~= step_views(steps@).take(i as int));
        if steps[i].status == st {
            n += 1;
        }
        i += 1;
    }
    assert(step_views(steps@).take(steps@.len() as int) =~= step_views(steps@));
    n
}

/// Whether every step is `Completed` or `Skipped`.
pub fn steps_all_done(steps: &Vec<TaskStep>) -> (b: bool)
    ensures
        b == all_done(step_views(steps@)),
{
    let mut i: usize = 0;
    while i < steps.len()
        invariant
            i <= steps@.len(),
            forall|k: int| 0 <= k < i ==> is_done(#[trigger] steps@[k].status),
        decreases steps.len() - i,
    {
        if !matches!(steps[i].status, StepStatus::Completed | StepStatus::Skipped) {
            assert(step_views(steps@)[i as int].status == steps@[i as int].status);
            return false;
        }
        i += 1;
    }
    assert forall|k: int| 0 <= k < step_views(steps@).len() implies is_done(
        #[trigger] step_views(steps@)[k].status,
    ) by {
        assert(step_views(steps@)[k].status == steps@[k].status);
    }
    true
}

/// A JSON object of two counts.
fn counts_payload(completed: usize, skipped: usize) -> (r: JsonValue)
    ensures
        jv(r) == completion_payload(completed as nat, skipped as nat),
{
    let mut f: Vec<(String, JsonValue)> = Vec::new();
    proof {
        assert(jv_fields(f@) =~= Seq::empty());
    }
    push_field(&mut f, "completedSteps", JsonValue::UInt(completed as u64));
    push_field(&mut f, "skippedSteps", JsonValue::UInt(skipped as u64));
    assert(jv_fields(f@) =~= seq![
        ("completedSteps"@, Json::Int(completed as int)),
        ("skippedSteps"@, Json::Int(skipped as int)),
    ]);
    let r = object(f);
    r
}

/// Completes the task when its steps are all `Completed` or `Skipped`,
/// recording a `Completed` event in `emitted`.
pub fn complete_task_if_ready(task: &mut Task, emitted: &mut Vec<TaskEvent>)
    ensures
        exists|em: Seq<EventView>|
            completed_if_ready(old(task)@, final(task)@, em) && event_views(final(emitted)@)
                == event_views(old(emitted)@) + em,
{
    let ghost t0 = task@;
    if task.steps.len() == 0 || task_status_is_terminal(task.status) {
        assert(event_views(emitted@) =~= event_views(old(emitted)@) + Seq::<EventView>::empty());
        return ;
    }
    if steps_all_done(&task.steps) {
        let completed = count_steps(&task.steps, StepStatus::Completed);
        let skipped = count_steps(&task.steps, StepStatus::Skipped);
        let output = completion_output(completed, skipped);
        task.complete(output.as_str());
        let ev = TaskEvent::new(
            task.id.as_str(),
            None,
            TaskEventKind::Completed,
            output,
            counts_payload(completed, skipped),
        );
        let ghost ev_v = ev@;
        emitted.push(ev);
        assert(event_views(emitted@) =~= event_views(old(emitted)@) + seq![ev_v]);
    } else {
        assert(event_views(emitted@) =~= event_views(old(emitted)@) + Seq::<EventView>::empty());
    }
}

impl TaskRuntime {
    /// The models of the tasks.
    pub open spec fn tasks_v(&self) -> Seq<TaskView> {
        task_views(self.tasks@)
    }

    /// The models of the events.
    pub open spec fn events_v(&self) -> Seq<EventView> {
        event_views(self.events@)
    }

    /// The runtime's invariant: task ids are unique.
    pub open spec fn wf(&self) -> bool {
        unique_ids(self.tasks_v())
    }

    /// An empty runtime.
    pub fn new() -> (r: TaskRuntime)
        ensures
            r.wf(),
            r.tasks_v() == Seq::<TaskView>::empty(),
            r.events_v() == Seq::<EventView>::empty(),
    {
        let r = TaskRuntime { tasks: Vec::new(), events: Vec::new() };
        assert(r.tasks_v() =~= Seq::<TaskView>::empty());
        assert(r.events_v() =~= Seq::<EventView>::empty());
        r
    }

    /// The position of the task with id `task_id`.
    pub fn find_index(&self, task_id: &str) -> (r: Option<usize>)
        requires
            self.wf(),
        ensures
            match r {
                Some(i) => has_task(self.tasks_v(), task_id@) && i == task_index(
                    self.tasks_v(),
                    task_id@,
                ) && i < self.tasks@.len(),
                None => !has_task(self.tasks_v(), task_id@),
            },
    {
        let mut i: usize = 0;
        while i < self.tasks.len()
            invariant
                self.wf(),
                i <= self.tasks@.len(),
                forall|k: int| 0 <= k < i ==> self.tasks_v()[k].id != task_id@,
            decreases self.tasks.len() - i,
        {
            if str_eq(self.tasks[i].id.as_str(), task_id) {
                proof {
                    assert(self.tasks_v()[i as int].id == task_id@);
                    let j = task_index(self.tasks_v(), task_id@);
                    assert(j == i);
                }
                return Some(i);
            }
            assert(self.tasks_v()[i as int].id == self.tasks@[i as int].id@);
            i += 1;
        }
        None
    }

    /// Appends events to the log.
    pub(crate) fn extend_events(&mut self, events: Vec<TaskEvent>)
        ensures
            final(self).tasks == old(self).tasks,
            final(self).events_v() == old(self).events_v() + event_views(events@),
    {
        let mut events = events;
        let ghost ev = events@;
        self.events.append(&mut events);
        assert(self.events_v() =~= old(self).events_v() + event_views(ev));
    }

    /// Appends one event to the log.
    pub(crate) fn push_event(&mut self, event: TaskEvent)
        ensures
            final(self).tasks == old(self).tasks,
            final(self).events_v() == old(self).events_v().push(event@),
    {
        let ghost e = event;
        self.events.push(event);
        assert(self.events_v() =~= old(self).events_v().push(e@));
    }

    /// Stores `task` at position `i`.
    pub(crate) fn store_task(&mut self, i: usize, task: Task)
        requires
            i < old(self).tasks@.len(),
        ensures
            final(self).tasks_v() == old(self).tasks_v().update(i as int, task@),
            final(self).events == old(self).events,
    {
        let ghost t = task@;
        self.tasks[i] = task;
        assert(self.tasks_v() =~= old(self).tasks_v().update(i as int, t));
    }

    /// Adds a task (replacing one with the same id) and records its creation.
    pub fn insert_task(&mut self, task: Task)
        requires
            old(self).wf(),
        ensures
            final(self).wf(),
            final(self).tasks_v() == (if has_task(old(self).tasks_v(), task@.id) {
                replace_task(old(self).tasks_v(), task@.id, task@)
            } else {
                old(self).tasks_v().push(task@)
            }),
            final(self).events_v() == old(self).events_v().push(
                EventView {
                    task_id: task@.id,
                    step_id: None,
                    kind: TaskEventKind::Created,
                    message: "任务已创建，等待规划。"@,
                    payload: Json::Null,
                },
            ),
    {
        let ghost tv = task@;
        let task_id = task.id.clone();
        match self.find_index(task_id.as_str()) {
            Some(i) => {
                self.store_task(i, task);
                proof {
                    assert forall|a: int, b: int|
                        0 <= a < self.tasks_v().len() && 0 <= b < self.tasks_v().len() && a != b
                            implies self.tasks_v()[a].id != self.tasks_v()[b].id by {
                        if a != i && b != i {
                            assert(self.tasks_v()[a] == old(self).tasks_v()[a]);
                            assert(self.tasks_v()[b] == old(self).tasks_v()[b]);
                        }
                    }
                }
            },
            None => {
                let ghost before = self.tasks@;
                self.tasks.push(task);
                assert(self.tasks_v() =~= old(self).tasks_v().push(tv));
            },
        }
        let msg = own("任务已创建，等待规划。");
        let ev = TaskEvent::new(task_id.as_str(), None, TaskEventKind::Created, msg, JsonValue::Null);
        self.push_event(ev);
    }

    /// The task with id `task_id`, duplicated.
    pub fn get_task(&self, task_id: &str) -> (r: Option<Task>)
        requires
            self.wf(),
        ensures
            match r {
                Some(t) => lookup_task(self.tasks_v(), task_id@) == Some(t@),
                None => lookup_task(self.tasks_v(), task_id@) is None,
            },
    {
        match self.find_index(task_id) {
            Some(i) => Some(self.tasks[i].duplicate()),
            None => None,
        }
    }

    /// Copies of the events of task `task_id`, oldest first.
    pub fn get_events(&self, task_id: &str) -> (r: Vec<TaskEvent>)
        ensures
            event_views(r@) == self.events_v().filter(|e: EventView| e.task_id == task_id@),
    {
        let mut out: Vec<TaskEvent> = Vec::new();
        let mut i: usize = 0;
        let ghost pred = |e: EventView| e.task_id == task_id@;
        while i < self.events.len()
            invariant
                i <= self.events@.len(),
                pred == (|e: EventView| e.task_id == task_id@),
                event_views(out@) == self.events_v().take(i as int).filter(pred),
            decreases self.events.len() - i,
        {
            proof {
                reveal(Seq::filter);
                assert(self.events_v().take(i + 1).drop_last() =~= self.events_v().take(i as int));
            }
            let ghost before = out@;
            if str_eq(self.events[i].task_id.as_str(), task_id) {
                out.push(self.events[i].duplicate());
                assert(event_views(out@) =~= event_views(before).push(self.events_v()[i as int]));
            }
            i += 1;
        }
        assert(self.events_v().take(self.events@.len() as int) =~= self.events_v());
        out
    }
}

} // verus!
