//! Cancelling tasks, recording agent replies and errors, skipping steps
//! and retrying tasks.
use vstd::prelude::*;
use crate::json::{Json, JsonValue, jv, jv_fields, object, push_field, jstr};
use crate::task::{
    EventView, StepStatus, StepView, Task, TaskEvent, TaskEventKind, TaskStatus, TaskStep, TaskView,
    is_done, is_terminal, opt_ref_str, step_views, task_status_is_terminal,
};
use crate::text::{concat2, decimal, decimal_string, own, push_str, str_eq};
use crate::runtime::{
    TaskRuntime, complete_task_if_ready, completed_if_ready, event_views, has_task, lookup_task,
    replace_task, same_but_time, task_index, task_views, unique_ids,
};
use crate::ready::{find_step, first_step_with_id};

verus! {

broadcast use vstd::std_specs::vec::group_vec_axioms;

// ------------------------------------------------------------------
// Cancelling
// ------------------------------------------------------------------
/// Whether a step is still open for work (`Pending` or `Running`).
pub open spec fn is_open(st: StepStatus) -> bool {
    st == StepStatus::Pending || st == StepStatus::Running
}

/// `b` is step `a` after its task was cancelled: open steps are skipped with
/// the reason as error, the others are untouched.
pub open spec fn cancelled_step(a: StepView, b: StepView, reason: Seq<char>) -> bool {
    if is_open(a.status) {
        b == StepView {
            status: StepStatus::Skipped,
            error: Some(reason),
            completed_at: b.completed_at,
            ..a
        } && b.completed_at is Some
    } else {
        b == a
    }
}

/// `t2` has the same fields as `t` except for its steps.
pub open spec fn same_but_steps(t: TaskView, t2: TaskView) -> bool {
    t2 == TaskView { steps: t2.steps, ..t }
}

/// Step lists of equal length related position by position by `cancelled_step`.
pub open spec fn cancelled_steps(a: Seq<StepView>, b: Seq<StepView>, reason: Seq<char>) -> bool {
    a.len() == b.len() && forall|k: int| 0 <= k < a.len() ==> cancelled_step(a[k], b[k], reason)
}

/// The events recorded for the steps skipped by a cancellation, in step order.
pub open spec fn cancel_step_events(task_id: Seq<char>, steps: Seq<StepView>, reason: Seq<char>) -> Seq<
    EventView,
>
    decreases steps.len(),
{
    if steps.len() == 0 {
        Seq::empty()
    } else {
        let r = cancel_step_events(task_id, steps.drop_last(), reason);
        let s = steps.last();
        if is_open(s.status) {
            r.push(
                EventView {
                    task_id,
                    step_id: Some(s.id),
                    kind: TaskEventKind::StepFailed,
                    message: s.agent_id + " 已跳过：任务取消。"@,
                    payload: Json::Object(
                        seq![("agentId"@, Json::Str(s.agent_id)), ("reason"@, Json::Str(reason))],
                    ),
                },
            )
        } else {
            r
        }
    }
}

/// The event that closes a cancellation.
pub open spec fn cancelled_event(task_id: Seq<char>, reason: Seq<char>) -> EventView {
    EventView {
        task_id,
        step_id: None,
        kind: TaskEventKind::Cancelled,
        message: "任务已取消："@ + reason,
        payload: Json::Object(seq![("reason"@, Json::Str(reason))]),
    }
}

/// `t2` is `t` cancelled for `reason`.
pub open spec fn cancelled_task(t: TaskView, t2: TaskView, reason: Seq<char>) -> bool {
    &&& same_but_time(
        t2,
        TaskView {
            status: TaskStatus::Cancelled,
            output: Some(reason),
            error: None,
            steps: t2.steps,
            ..t
        },
    )
    &&& cancelled_steps(t.steps, t2.steps, reason)
}

fn two_field_object(k1: &str, v1: JsonValue, k2: &str, v2: JsonValue) -> (r: JsonValue)
    ensures
        jv(r) == Json::Object(seq![(k1@, jv(v1)), (k2@, jv(v2))]),
{
    let ghost j1 = jv(v1);
    let ghost j2 = jv(v2);
    let mut f: Vec<(String, JsonValue)> = Vec::new();
    proof {
        assert(jv_fields(f@) =~= Seq::empty());
    }
    push_field(&mut f, k1, v1);
    push_field(&mut f, k2, v2);
    let ghost fv = jv_fields(f@);
    let r = object(f);
    assert(fv =~= seq![(k1@, j1), (k2@, j2)]);
    r
}

fn one_field_object(k1: &str, v1: JsonValue) -> (r: JsonValue)
    ensures
        jv(r) == Json::Object(seq![(k1@, jv(v1))]),
{
    let ghost j1 = jv(v1);
    let mut f: Vec<(String, JsonValue)> = Vec::new();
    proof {
        assert(jv_fields(f@) =~= Seq::empty());
    }
    push_field(&mut f, k1, v1);
    let ghost fv = jv_fields(f@);
    let r = object(f);
    assert(fv =~= seq![(k1@, j1)]);
    r
}

impl TaskRuntime {
    /// Cancels a task that is not final: its open steps are skipped with the
    /// reason, the task becomes `Cancelled`, and events record each skipped
    /// step and the cancellation. A final task is returned unchanged.
    pub fn cancel_task(&mut self, task_id: &str, reason: &str) -> (r: Option<Task>)
        requires
            old(self).wf(),
        ensures
            final(self).wf(),
            match lookup_task(old(self).tasks_v(), task_id@) {
                None => r is None && final(self).tasks_v() == old(self).tasks_v()
                    && final(self).events_v() == old(self).events_v(),
                Some(t) => if is_terminal(t.status) {
                    r matches Some(x) && x@ == t && final(self).tasks_v() == old(self).tasks_v()
                        && final(self).events_v() == old(self).events_v()
                } else {
                    let t2 = final(self).tasks_v()[task_index(old(self).tasks_v(), task_id@)];
                    &&& cancelled_task(t, t2, reason@)
                    &&& final(self).tasks_v() == replace_task(old(self).tasks_v(), task_id@, t2)
                    &&& r matches Some(x) && x@ == t2
                    &&& final(self).events_v() == old(self).events_v() + cancel_step_events(
                        t.id,
                        t.steps,
                        reason@,
                    ).push(cancelled_event(t.id, reason@))
                },
            },
    {
        let i = match self.find_index(task_id) {
            Some(i) => i,
            None => return None,
        };
        if task_status_is_terminal(self.tasks[i].status) {
            return Some(self.tasks[i].duplicate());
        }
        let mut task = self.tasks[i].duplicate();
        let ghost t0 = task@;
        let mut emitted: Vec<TaskEvent> = Vec::new();
        let mut k: usize = 0;
        while k < task.steps.len()
            invariant
                i < old(self).tasks@.len(),
                t0 == old(self).tasks_v()[i as int],
                t0.id == task_id@,
                same_but_steps(t0, task@),
                task@.steps.len() == t0.steps.len(),
                k <= t0.steps.len(),
                forall|j: int| 0 <= j < k ==> cancelled_step(t0.steps[j], task@.steps[j], reason@),
                forall|j: int| k <= j < t0.steps.len() ==> task@.steps[j] == t0.steps[j],
                event_views(emitted@) == cancel_step_events(t0.id, t0.steps.take(k as int), reason@),
            decreases task.steps.len() - k,
        {
            proof {
                assert(t0.steps.take(k + 1).drop_last() =~= t0.steps.take(k as int));
                assert(task@.steps[k as int] == task.steps@[k as int]@);
            }
            if matches!(task.steps[k].status, StepStatus::Pending | StepStatus::Running) {
                let ghost before_steps = task@.steps;
                task.steps[k].skip_with(reason);
                let agent = task.steps[k].agent_id.clone();
                let msg = concat2(agent.as_str(), " 已跳过：任务取消。");
                let payload = two_field_object(
                    "agentId",
                    JsonValue::Str(agent.clone()),
                    "reason",
                    jstr(reason),
                );
                let ev = TaskEvent::new(
                    task_id,
                    Some(task.steps[k].id.clone()),
                    TaskEventKind::StepFailed,
                    msg,
                    payload,
                );
                let ghost evv = ev@;
                let ghost before_em = emitted@;
                emitted.push(ev);
                proof {
                    assert(task@.steps =~= before_steps.update(k as int, task.steps@[k as int]@));
                    assert(event_views(emitted@) =~= event_views(before_em).push(evv));
                }
            }
            k += 1;
        }
        proof {
            assert(t0.steps.take(t0.steps.len() as int) =~= t0.steps);
        }
        task.cancel(reason);
        let payload = one_field_object("reason", jstr(reason));
        let ev = TaskEvent::new(
            task_id,
            None,
            TaskEventKind::Cancelled,
            concat2("任务已取消：", reason),
            payload,
        );
        let ghost evv = ev@;
        let ghost em = emitted@;
        emitted.push(ev);
        assert(event_views(emitted@) =~= event_views(em).push(evv));
        let result = task.duplicate();
        let ghost tv = task@;
        self.store_task(i, task);
        self.extend_events(emitted);
        proof {
            assert forall|a: int, b: int|
                0 <= a < self.tasks_v().len() && 0 <= b < self.tasks_v().len() && a != b implies self.tasks_v()[a].id
                != self.tasks_v()[b].id by {
                if a != i {
                    assert(self.tasks_v()[a] == old(self).tasks_v()[a]);
                }
                if b != i {
                    assert(self.tasks_v()[b] == old(self).tasks_v()[b]);
                }
            }
            assert(self.tasks_v()[i as int] == tv);
        }
        Some(result)
    }
}


// ------------------------------------------------------------------
// Agent replies and errors
// ------------------------------------------------------------------
/// The step id a message context names (`stepId`).
pub open spec fn ctx_step_id(c: Json) -> Option<Seq<char>> {
    crate::json::json_get_str(c, "stepId"@)
}

/// The attempt a message context names (`stepAttempt`), when it is a
/// non-negative number that fits in `u32`.
pub open spec fn ctx_step_attempt(c: Json) -> Option<u32> {
    match crate::json::json_get(c, "stepAttempt"@) {
        Some(Json::Int(n)) => if 0 <= n <= u32::MAX {
            Some(n as u32)
        } else {
            None
        },
        _ => None,
    }
}

/// The step id named by a message context.
pub fn context_step_id(context: &JsonValue) -> (r: Option<&String>)
    ensures
        match r {
            Some(s) => ctx_step_id(jv(*context)) == Some(s@),
            None => ctx_step_id(jv(*context)) is None,
        },
{
    context.get_str("stepId")
}

/// The attempt named by a message context.
pub fn context_step_attempt(context: &JsonValue) -> (r: Option<u32>)
    ensures
        r == ctx_step_attempt(jv(*context)),
{
    match context.get("stepAttempt") {
        Some(JsonValue::Int(n)) => if 0 <= *n && *n <= 4294967295 {
            Some(*n as u32)
        } else {
            None
        },
        Some(JsonValue::UInt(n)) => if *n <= 4294967295 {
            Some(*n as u32)
        } else {
            None
        },
        _ => None,
    }
}

/// Whether step `s` is the running step a reply from `agent` is meant for:
/// the named step when `sid` is given, otherwise a step of that agent; and
/// the named attempt when `att` is given.
pub open spec fn running_match(
    s: StepView,
    agent: Seq<char>,
    sid: Option<Seq<char>>,
    att: Option<u32>,
) -> bool {
    &&& s.status == StepStatus::Running
    &&& match sid {
        Some(id) => s.id == id,
        None => s.agent_id == agent,
    }
    &&& match att {
        Some(a) => s.attempts == a,
        None => true,
    }
}

/// The first step that `running_match` accepts.
pub open spec fn first_running(
    steps: Seq<StepView>,
    agent: Seq<char>,
    sid: Option<Seq<char>>,
    att: Option<u32>,
) -> Option<int> {
    if exists|k: int| 0 <= k < steps.len() && running_match(steps[k], agent, sid, att) {
        Some(
            choose|k: int|
                0 <= k < steps.len() && running_match(steps[k], agent, sid, att) && forall|j: int|
                    0 <= j < k ==> !running_match(steps[j], agent, sid, att),
        )
    } else {
        None
    }
}

/// Whether `st` is the running step a reply from `agent_name` is meant for.
pub fn step_matches(
    st: &TaskStep,
    agent_name: &str,
    step_id: Option<&String>,
    step_attempt: Option<u32>,
) -> (b: bool)
    ensures
        b == running_match(st@, agent_name@, opt_ref_str(step_id), step_attempt),
{
    let id_ok = match step_id {
        Some(id) => str_eq(st.id.as_str(), id.as_str()),
        None => str_eq(st.agent_id.as_str(), agent_name),
    };
    let att_ok = match step_attempt {
        Some(a) => st.attempts == a,
        None => true,
    };
    st.status == StepStatus::Running && id_ok && att_ok
}

proof fn lemma_first_running_is(
    steps: Seq<StepView>,
    agent: Seq<char>,
    sid: Option<Seq<char>>,
    att: Option<u32>,
    k: int,
)
    requires
        0 <= k < steps.len(),
        running_match(steps[k], agent, sid, att),
        forall|j: int| 0 <= j < k ==> !running_match(steps[j], agent, sid, att),
    ensures
        first_running(steps, agent, sid, att) == Some(k),
{
    let c = choose|c: int|
        0 <= c < steps.len() && running_match(steps[c], agent, sid, att) && forall|j: int|
            0 <= j < c ==> !running_match(steps[j], agent, sid, att);
    if c < k {
        assert(!running_match(steps[c], agent, sid, att));
    }
    if k < c {
        assert(!running_match(steps[k], agent, sid, att));
    }
}

/// The position of the running step a reply from `agent_name` is meant for.
pub fn find_running_step(
    task: &Task,
    agent_name: &str,
    step_id: Option<&String>,
    step_attempt: Option<u32>,
) -> (r: Option<usize>)
    ensures
        match r {
            Some(k) => k < task@.steps.len() && first_running(
                task@.steps,
                agent_name@,
                opt_ref_str(step_id),
                step_attempt,
            ) == Some(k as int),
            None => first_running(task@.steps, agent_name@, opt_ref_str(step_id), step_attempt) is None,
        },
{
    let ghost sid = opt_ref_str(step_id);
    let ghost sv = task@.steps;
    let mut k: usize = 0;
    while k < task.steps.len()
        invariant
            sv == task@.steps,
            sid == opt_ref_str(step_id),
            k <= sv.len(),
            forall|j: int| 0 <= j < k ==> !running_match(sv[j], agent_name@, sid, step_attempt),
        decreases task.steps.len() - k,
    {
        assert(sv[k as int] == task.steps@[k as int]@);
        if step_matches(&task.steps[k], agent_name, step_id, step_attempt) {
            proof {
                lemma_first_running_is(sv, agent_name@, sid, step_attempt, k as int);
            }
            return Some(k);
        }
        k += 1;
    }
    None
}

/// The result recorded for a step completed by an agent reply.
pub open spec fn reply_result(agent: Seq<char>, content: Seq<char>, context: Json) -> Json {
    Json::Object(
        seq![
            ("agentId"@, Json::Str(agent)),
            ("content"@, Json::Str(content)),
            ("context"@, context),
        ],
    )
}

/// The events recorded when the step at `m` fails because of an agent error.
pub open spec fn error_step_events(
    t: TaskView,
    m: Option<int>,
    agent: Seq<char>,
    error: Seq<char>,
) -> Seq<EventView> {
    match m {
        Some(k) => seq![
            EventView {
                task_id: t.id,
                step_id: Some(t.steps[k].id),
                kind: TaskEventKind::StepFailed,
                message: error,
                payload: Json::Object(seq![("agentId"@, Json::Str(agent))]),
            },
        ],
        None => Seq::<EventView>::empty(),
    }
}

/// `s2` is step `s` failed with `error`.
pub open spec fn failed_step(s: StepView, s2: StepView, error: Seq<char>) -> bool {
    s2 == StepView {
        status: StepStatus::Failed,
        error: Some(error),
        completed_at: s2.completed_at,
        ..s
    } && s2.completed_at is Some
}

/// How a task changes when an agent reports an error for the step selected
/// by `sid` and `att`: that running step fails, and so does the task; the
/// task also fails when it has no steps and no step was named.
#[verifier::opaque]
pub open spec fn errored_task(
    t: TaskView,
    t2: TaskView,
    emitted: Seq<EventView>,
    agent: Seq<char>,
    error: Seq<char>,
    sid: Option<Seq<char>>,
    att: Option<u32>,
) -> bool {
    let m = first_running(t.steps, agent, sid, att);
    let fail_task = m is Some || (sid is None && t.steps.len() == 0);
    &&& match m {
        Some(k) => t2.steps == t.steps.update(k, t2.steps[k]) && failed_step(
            t.steps[k],
            t2.steps[k],
            error,
        ),
        None => t2.steps == t.steps,
    }
    &&& if fail_task {
        &&& same_but_time(
            t2,
            TaskView { status: TaskStatus::Failed, error: Some(error), steps: t2.steps, ..t },
        )
        &&& emitted == error_step_events(t, m, agent, error).push(
            EventView {
                task_id: t.id,
                step_id: None,
                kind: TaskEventKind::Failed,
                message: error,
                payload: Json::Null,
            },
        )
    } else {
        t2 == t && emitted == error_step_events(t, m, agent, error)
    }
}

/// The step id named by an optional message context.
pub open spec fn opt_ctx_step_id(context: Option<Json>) -> Option<Seq<char>> {
    match context {
        Some(c) => ctx_step_id(c),
        None => None,
    }
}

/// The attempt named by an optional message context.
pub open spec fn opt_ctx_step_attempt(context: Option<Json>) -> Option<u32> {
    match context {
        Some(c) => ctx_step_attempt(c),
        None => None,
    }
}

/// The model of an optional borrowed JSON value.
pub open spec fn opt_ref_json(c: Option<&JsonValue>) -> Option<Json> {
    match c {
        Some(v) => Some(jv(*v)),
        None => None,
    }
}

/// Applies an agent error to one task (see `errored_task`).
pub fn fail_in_task(
    task: &mut Task,
    emitted: &mut Vec<TaskEvent>,
    agent_name: &str,
    error: &str,
    sid: Option<&String>,
    att: Option<u32>,
)
    ensures
        exists|em: Seq<EventView>|
            errored_task(old(task)@, final(task)@, em, agent_name@, error@, opt_ref_str(sid), att)
                && event_views(final(emitted)@) == event_views(old(emitted)@) + em,
{
    reveal(errored_task);
    let ghost t0 = task@;
    let ghost e0 = event_views(emitted@);
    let m = find_running_step(task, agent_name, sid, att);
    let mut matched = false;
    match m {
        Some(k) => {
            matched = true;
            let ghost before = task@.steps;
            task.steps[k].fail(error);
            proof {
                assert(task@.steps =~= before.update(k as int, task.steps@[k as int]@));
            }
            let payload = one_field_object("agentId", jstr(agent_name));
            let ev = TaskEvent::new(
                task.id.as_str(),
                Some(task.steps[k].id.clone()),
                TaskEventKind::StepFailed,
                own(error),
                payload,
            );
            let ghost evv = ev@;
            emitted.push(ev);
            proof {
                assert(first_running(t0.steps, agent_name@, opt_ref_str(sid), att) == Some(k as int));
                assert(task@.steps[k as int].id == t0.steps[k as int].id);
                assert(evv == error_step_events(t0, Some(k as int), agent_name@, error@)[0]);
                assert(event_views(emitted@) =~= e0.push(evv));
                assert(error_step_events(t0, Some(k as int), agent_name@, error@) =~= seq![evv]);
            }
        },
        None => {
            assert(event_views(emitted@) =~= e0);
        },
    }
    let ghost em1 = event_views(emitted@);
    assert(em1 =~= e0 + error_step_events(t0, first_running(t0.steps, agent_name@, opt_ref_str(sid), att), agent_name@, error@));
    if matched || (sid.is_none() && task.steps.len() == 0) {
        task.fail(error);
        let ev = TaskEvent::new(task.id.as_str(), None, TaskEventKind::Failed, own(error), JsonValue::Null);
        let ghost evv = ev@;
        emitted.push(ev);
        assert(event_views(emitted@) =~= em1.push(evv));
    }
    let ghost em = event_views(emitted@).skip(e0.len() as int);
    assert(event_views(emitted@) =~= e0 + em);
}

/// How a task changes when an agent reply arrives for the step selected by
/// `sid` and `att` (before completion checks): that running step completes
/// with `reply_result`.
#[verifier::opaque]
pub open spec fn replied_task(
    t: TaskView,
    t2: TaskView,
    emitted: Seq<EventView>,
    agent: Seq<char>,
    content: Seq<char>,
    context: Json,
) -> bool {
    match first_running(t.steps, agent, ctx_step_id(context), ctx_step_attempt(context)) {
        Some(k) => {
            let s2 = t2.steps[k];
            &&& 0 <= k < t.steps.len()
            &&& same_but_steps(t, t2)
            &&& t2.steps == t.steps.update(k, s2)
            &&& s2 == StepView {
                status: StepStatus::Completed,
                result: Some(reply_result(agent, content, context)),
                completed_at: s2.completed_at,
                error: None,
                ..t.steps[k]
            }
            &&& s2.completed_at is Some
            &&& emitted == seq![
                EventView {
                    task_id: t.id,
                    step_id: Some(t.steps[k].id),
                    kind: TaskEventKind::StepCompleted,
                    message: agent + " 已返回执行结果。"@,
                    payload: reply_result(agent, content, context),
                },
            ]
        },
        None => t2 == t && emitted == Seq::<EventView>::empty(),
    }
}

/// Applies an agent reply to one task (see `replied_task`).
pub fn reply_in_task(
    task: &mut Task,
    emitted: &mut Vec<TaskEvent>,
    agent_name: &str,
    content: &str,
    context: JsonValue,
)
    ensures
        exists|em: Seq<EventView>|
            replied_task(old(task)@, final(task)@, em, agent_name@, content@, jv(context))
                && event_views(final(emitted)@) == event_views(old(emitted)@) + em,
{
    reveal(replied_task);
    let ghost t0 = task@;
    let ghost e0 = event_views(emitted@);
    let ghost cj = jv(context);
    let sid = match context_step_id(&context) {
        Some(s) => Some(s.clone()),
        None => None,
    };
    let att = context_step_attempt(&context);
    let sid_ref = sid.as_ref();
    assert(opt_ref_str(sid_ref) == ctx_step_id(cj));
    let m = find_running_step(task, agent_name, sid_ref, att);
    match m {
        Some(k) => {
            let mut f: Vec<(String, JsonValue)> = Vec::new();
            proof {
                assert(jv_fields(f@) =~= Seq::empty());
            }
            push_field(&mut f, "agentId", jstr(agent_name));
            push_field(&mut f, "content", jstr(content));
            push_field(&mut f, "context", context);
            let ghost fv = jv_fields(f@);
            let result = object(f);
            assert(reply_result(agent_name@, content@, cj)->Object_0 =~= fv);
            let payload = result.deep_clone();
            let ghost before = task@.steps;
            task.steps[k].complete(result);
            proof {
                assert(task@.steps =~= before.update(k as int, task.steps@[k as int]@));
            }
            let ev = TaskEvent::new(
                task.id.as_str(),
                Some(task.steps[k].id.clone()),
                TaskEventKind::StepCompleted,
                concat2(agent_name, " 已返回执行结果。"),
                payload,
            );
            let ghost evv = ev@;
            emitted.push(ev);
            assert(event_views(emitted@) =~= e0 + seq![evv]);
        },
        None => {
            assert(event_views(emitted@) =~= e0 + Seq::<EventView>::empty());
        },
    }
}

/// The runtime after one task changed: tasks keep their positions and ids,
/// and the log grows by `emitted`.
pub open spec fn changed_one(
    old_ts: Seq<TaskView>,
    new_ts: Seq<TaskView>,
    old_ev: Seq<EventView>,
    new_ev: Seq<EventView>,
    id: Seq<char>,
    t2: TaskView,
    emitted: Seq<EventView>,
) -> bool {
    &&& new_ts == replace_task(old_ts, id, t2)
    &&& new_ev == old_ev + emitted
}

pub proof fn lemma_replace_keeps_unique(ts: Seq<TaskView>, i: int, t2: TaskView)
    requires
        unique_ids(ts),
        0 <= i < ts.len(),
        t2.id == ts[i].id,
    ensures
        unique_ids(ts.update(i, t2)),
{
    let n = ts.update(i, t2);
    assert forall|a: int, b: int| 0 <= a < n.len() && 0 <= b < n.len() && a != b implies n[a].id
        != n[b].id by {
        if a != i {
            assert(n[a] == ts[a]);
        }
        if b != i {
            assert(n[b] == ts[b]);
        }
    }
}

/// After replacing the task with id `id` by one with the same id, looking
/// `id` up finds the new task, and ids stay unique.
pub proof fn lemma_lookup_replace(ts: Seq<TaskView>, id: Seq<char>, t2: TaskView)
    requires
        unique_ids(ts),
        has_task(ts, id),
        t2.id == id,
    ensures
        unique_ids(replace_task(ts, id, t2)),
        lookup_task(replace_task(ts, id, t2), id) == Some(t2),
{
    let i = task_index(ts, id);
    let n = replace_task(ts, id, t2);
    lemma_replace_keeps_unique(ts, i, t2);
    assert(n[i].id == id);
    let j = task_index(n, id);
    assert(j == i);
}

/// Two changes of the same task in a row are one change.
pub proof fn lemma_changed_chain(
    ts0: Seq<TaskView>,
    ts1: Seq<TaskView>,
    ts2: Seq<TaskView>,
    ev0: Seq<EventView>,
    ev1: Seq<EventView>,
    ev2: Seq<EventView>,
    id: Seq<char>,
    t1: TaskView,
    t2: TaskView,
    em1: Seq<EventView>,
    em2: Seq<EventView>,
)
    requires
        unique_ids(ts0),
        has_task(ts0, id),
        t1.id == id,
        changed_one(ts0, ts1, ev0, ev1, id, t1, em1),
        changed_one(ts1, ts2, ev1, ev2, id, t2, em2),
    ensures
        changed_one(ts0, ts2, ev0, ev2, id, t2, em1 + em2),
{
    let i = task_index(ts0, id);
    lemma_lookup_replace(ts0, id, t1);
    let j = task_index(ts1, id);
    assert(ts1[i].id == id);
    assert(j == i);
    assert(ts2 =~= ts0.update(i, t2));
    assert(ev2 =~= ev0 + (em1 + em2));
}

/// A change with the task as it was changes nothing.
pub proof fn lemma_changed_none(ts: Seq<TaskView>, ev: Seq<EventView>, id: Seq<char>)
    requires
        has_task(ts, id),
    ensures
        changed_one(ts, ts, ev, ev, id, ts[task_index(ts, id)], Seq::<EventView>::empty()),
{
    assert(ts.update(task_index(ts, id), ts[task_index(ts, id)]) =~= ts);
    assert(ev + Seq::<EventView>::empty() =~= ev);
}

impl TaskRuntime {
    /// Records an agent error: the running step it concerns fails, and so
    /// does the task (also when the task has no steps yet and the context
    /// names no step). A cancelled task ignores late errors.
    pub fn fail_running_step(
        &mut self,
        task_id: &str,
        agent_name: &str,
        error: &str,
        context: Option<&JsonValue>,
    )
        requires
            old(self).wf(),
        ensures
            final(self).wf(),
            match lookup_task(old(self).tasks_v(), task_id@) {
                Some(t) => if t.status == TaskStatus::Cancelled {
                    final(self).tasks_v() == old(self).tasks_v() && final(self).events_v()
                        == old(self).events_v()
                } else {
                    exists|t2: TaskView, em: Seq<EventView>|
                        errored_task(
                            t,
                            t2,
                            em,
                            agent_name@,
                            error@,
                            opt_ctx_step_id(opt_ref_json(context)),
                            opt_ctx_step_attempt(opt_ref_json(context)),
                        ) && changed_one(
                            old(self).tasks_v(),
                            final(self).tasks_v(),
                            old(self).events_v(),
                            final(self).events_v(),
                            task_id@,
                            t2,
                            em,
                        )
                },
                None => final(self).tasks_v() == old(self).tasks_v() && final(self).events_v()
                    == old(self).events_v(),
            },
    {
        let i = match self.find_index(task_id) {
            Some(i) => i,
            None => return ,
        };
        if self.tasks[i].status == TaskStatus::Cancelled {
            return ;
        }
        let mut task = self.tasks[i].duplicate();
        let sid: Option<&String> = match context {
            Some(c) => context_step_id(c),
            None => None,
        };
        let att: Option<u32> = match context {
            Some(c) => context_step_attempt(c),
            None => None,
        };
        let mut emitted: Vec<TaskEvent> = Vec::new();
        fail_in_task(&mut task, &mut emitted, agent_name, error, sid, att);
        proof {
            assert(event_views(emitted@) =~= Seq::<EventView>::empty() + event_views(emitted@));
            reveal(errored_task);
            lemma_replace_keeps_unique(old(self).tasks_v(), i as int, task@);
        }
        self.store_task(i, task);
        self.extend_events(emitted);
    }

    /// Applies an agent reply without scheduling further steps: the matching
    /// running step completes, then the task completes if all its steps are
    /// done. Returns whether further scheduling should happen (the task
    /// exists and is not cancelled).
    pub fn record_reply(
        &mut self,
        task_id: &str,
        agent_name: &str,
        content: &str,
        context: JsonValue,
    ) -> (proceed: bool)
        requires
            old(self).wf(),
        ensures
            final(self).wf(),
            match lookup_task(old(self).tasks_v(), task_id@) {
                Some(t) => if t.status == TaskStatus::Cancelled {
                    !proceed && final(self).tasks_v() == old(self).tasks_v()
                        && final(self).events_v() == old(self).events_v()
                } else {
                    proceed && exists|t1: TaskView, e1: Seq<EventView>, t2: TaskView, e2: Seq<EventView>|
                        replied_task(t, t1, e1, agent_name@, content@, jv(context))
                            && completed_if_ready(t1, t2, e2) && changed_one(
                            old(self).tasks_v(),
                            final(self).tasks_v(),
                            old(self).events_v(),
                            final(self).events_v(),
                            task_id@,
                            t2,
                            e1 + e2,
                        )
                },
                None => !proceed && final(self).tasks_v() == old(self).tasks_v()
                    && final(self).events_v() == old(self).events_v(),
            },
    {
        let i = match self.find_index(task_id) {
            Some(i) => i,
            None => return false,
        };
        if self.tasks[i].status == TaskStatus::Cancelled {
            return false;
        }
        let mut task = self.tasks[i].duplicate();
        let mut emitted: Vec<TaskEvent> = Vec::new();
        reply_in_task(&mut task, &mut emitted, agent_name, content, context);
        let ghost e1 = event_views(emitted@);
        complete_task_if_ready(&mut task, &mut emitted);
        proof {
            assert(e1 =~= Seq::<EventView>::empty() + e1);
            reveal(replied_task);
            lemma_replace_keeps_unique(old(self).tasks_v(), i as int, task@);
        }
        self.store_task(i, task);
        self.extend_events(emitted);
        true
    }
}


// ------------------------------------------------------------------
// Skipping and retrying
// ------------------------------------------------------------------
/// The result stored on a skipped step.
pub open spec fn skip_result(reason: Seq<char>) -> Json {
    Json::Object(seq![("skipped"@, Json::Bool(true)), ("reason"@, Json::Str(reason))])
}

/// How a task changes when its step at `k` is skipped by the user (before
/// completion checks).
pub open spec fn skipped_task(t: TaskView, t2: TaskView, k: int, reason: Seq<char>) -> bool {
    let s2 = t2.steps[k];
    &&& t2.steps == t.steps.update(k, s2)
    &&& s2 == StepView {
        status: StepStatus::Skipped,
        error: Some(reason),
        completed_at: s2.completed_at,
        result: Some(skip_result(reason)),
        ..t.steps[k]
    }
    &&& s2.completed_at is Some
    &&& if t.status == TaskStatus::Failed || t.status == TaskStatus::WaitingApproval {
        same_but_time(
            t2,
            TaskView { status: TaskStatus::Running, error: None, steps: t2.steps, ..t },
        )
    } else {
        same_but_time(t2, TaskView { steps: t2.steps, ..t })
    }
}

/// The event recorded when step `step_id` is skipped.
pub open spec fn skipped_event(task_id: Seq<char>, step_id: Seq<char>, reason: Seq<char>) -> EventView {
    EventView {
        task_id,
        step_id: Some(step_id),
        kind: TaskEventKind::StepSkipped,
        message: "步骤已跳过："@ + reason,
        payload: Json::Object(seq![("stepId"@, Json::Str(step_id)), ("reason"@, Json::Str(reason))]),
    }
}

/// Whether a retry puts a step back to `Pending`: every status except
/// `Completed` and `TimedOut`.
pub open spec fn retry_resets(st: StepStatus) -> bool {
    st != StepStatus::Completed && st != StepStatus::TimedOut
}

/// `b` is step `a` after a retry.
pub open spec fn retried_step(a: StepView, b: StepView) -> bool {
    if retry_resets(a.status) {
        b == StepView {
            status: StepStatus::Pending,
            result: None,
            error: None,
            started_at: None,
            completed_at: None,
            ..a
        }
    } else {
        b == a
    }
}

/// How a failed or cancelled task changes when it is retried.
pub open spec fn retried_task(t: TaskView, t2: TaskView) -> bool {
    &&& t2.steps.len() == t.steps.len()
    &&& forall|k: int| 0 <= k < t.steps.len() ==> retried_step(t.steps[k], t2.steps[k])
    &&& same_but_time(
        t2,
        TaskView {
            status: if t.steps.len() == 0 {
                TaskStatus::Planning
            } else {
                TaskStatus::Running
            },
            output: None,
            error: None,
            steps: t2.steps,
            ..t
        },
    )
}

/// The event recorded when a task is retried.
pub open spec fn retried_event(task_id: Seq<char>, reason: Seq<char>) -> EventView {
    EventView {
        task_id,
        step_id: None,
        kind: TaskEventKind::Retried,
        message: "任务已重新进入调度："@ + reason,
        payload: Json::Object(seq![("reason"@, Json::Str(reason))]),
    }
}

/// Skips step `k` of one task and records the `StepSkipped` event.
pub fn skip_in_task(task: &mut Task, emitted: &mut Vec<TaskEvent>, k: usize, reason: &str)
    requires
        k < old(task)@.steps.len(),
        old(emitted)@.len() == 0,
    ensures
        skipped_task(old(task)@, final(task)@, k as int, reason@),
        event_views(final(emitted)@) == seq![
            skipped_event(old(task)@.id, old(task)@.steps[k as int].id, reason@),
        ],
{
    let ghost t0 = task@;
    let ghost before = task@.steps;
    task.steps[k].status = StepStatus::Skipped;
    task.steps[k].error = Some(own(reason));
    task.steps[k].completed_at = Some(crate::clock::now_millis());
    let res = two_field_object("skipped", JsonValue::Bool(true), "reason", jstr(reason));
    task.steps[k].result = Some(res);
    proof {
        assert(task@.steps =~= before.update(k as int, task.steps@[k as int]@));
    }
    if matches!(task.status, TaskStatus::Failed | TaskStatus::WaitingApproval) {
        task.status = TaskStatus::Running;
        task.error = None;
    }
    task.touch();
    let sid = task.steps[k].id.clone();
    let payload = two_field_object("stepId", JsonValue::Str(sid.clone()), "reason", jstr(reason));
    let ev = TaskEvent::new(
        task.id.as_str(),
        Some(sid),
        TaskEventKind::StepSkipped,
        concat2("步骤已跳过：", reason),
        payload,
    );
    let ghost evv = ev@;
    emitted.push(ev);
    assert(event_views(emitted@) =~= seq![evv]);
}

impl TaskRuntime {
    /// Skips step `step_id` of task `task_id` without scheduling what
    /// follows. `None`: no such task or step (nothing changes).
    /// `Some(false)`: the task is cancelled or the step already finished
    /// (nothing changes). `Some(true)`: the step was skipped, the task
    /// resumes if it had failed or was waiting for approval, and it
    /// completes if all its steps are done.
    pub fn skip_step_only(&mut self, task_id: &str, step_id: &str, reason: &str) -> (r: Option<bool>)
        requires
            old(self).wf(),
        ensures
            final(self).wf(),
            match lookup_task(old(self).tasks_v(), task_id@) {
                None => r is None && final(self).tasks_v() == old(self).tasks_v()
                    && final(self).events_v() == old(self).events_v(),
                Some(t) => if t.status == TaskStatus::Cancelled {
                    r == Some(false) && final(self).tasks_v() == old(self).tasks_v()
                        && final(self).events_v() == old(self).events_v()
                } else {
                    match first_step_with_id(t.steps, step_id@) {
                        None => r is None && final(self).tasks_v() == old(self).tasks_v()
                            && final(self).events_v() == old(self).events_v(),
                        Some(k) => if is_done(t.steps[k].status) {
                            r == Some(false) && final(self).tasks_v() == old(self).tasks_v()
                                && final(self).events_v() == old(self).events_v()
                        } else {
                            r == Some(true) && exists|t1: TaskView, t2: TaskView, e2: Seq<EventView>|
                                skipped_task(t, t1, k, reason@) && completed_if_ready(t1, t2, e2)
                                    && changed_one(
                                    old(self).tasks_v(),
                                    final(self).tasks_v(),
                                    old(self).events_v(),
                                    final(self).events_v(),
                                    task_id@,
                                    t2,
                                    seq![skipped_event(t.id, t.steps[k].id, reason@)] + e2,
                                )
                        },
                    }
                },
            },
    {
        let i = match self.find_index(task_id) {
            Some(i) => i,
            None => return None,
        };
        if self.tasks[i].status == TaskStatus::Cancelled {
            return Some(false);
        }
        let k = match find_step(&self.tasks[i].steps, step_id) {
            Some(k) => k,
            None => return None,
        };
        if matches!(self.tasks[i].steps[k].status, StepStatus::Completed | StepStatus::Skipped) {
            return Some(false);
        }
        let mut task = self.tasks[i].duplicate();
        let mut emitted: Vec<TaskEvent> = Vec::new();
        skip_in_task(&mut task, &mut emitted, k, reason);
        assert(task_views(self.tasks@)[i as int].steps[k as int] == self.tasks@[i as int].steps@[k as int]@);
        complete_task_if_ready(&mut task, &mut emitted);
        proof {
            lemma_replace_keeps_unique(old(self).tasks_v(), i as int, task@);
        }
        self.store_task(i, task);
        self.extend_events(emitted);
        Some(true)
    }

    /// Resets a failed or cancelled task for another attempt, without
    /// scheduling its steps. `None`: no such task. `Some(None)`: the task is
    /// neither failed nor cancelled (nothing changes). `Some(Some(b))`: the
    /// task was reset and a `Retried` event recorded; `b` says whether it has
    /// no steps and needs a new plan.
    pub fn retry_only(&mut self, task_id: &str, reason: &str) -> (r: Option<Option<bool>>)
        requires
            old(self).wf(),
        ensures
            final(self).wf(),
            match lookup_task(old(self).tasks_v(), task_id@) {
                None => r is None && final(self).tasks_v() == old(self).tasks_v()
                    && final(self).events_v() == old(self).events_v(),
                Some(t) => if !(t.status == TaskStatus::Failed || t.status == TaskStatus::Cancelled) {
                    r == Some(None::<bool>) && final(self).tasks_v() == old(self).tasks_v()
                        && final(self).events_v() == old(self).events_v()
                } else {
                    r == Some(Some(t.steps.len() == 0)) && exists|t2: TaskView|
                        retried_task(t, t2) && changed_one(
                            old(self).tasks_v(),
                            final(self).tasks_v(),
                            old(self).events_v(),
                            final(self).events_v(),
                            task_id@,
                            t2,
                            seq![retried_event(t.id, reason@)],
                        )
                },
            },
    {
        let i = match self.find_index(task_id) {
            Some(i) => i,
            None => return None,
        };
        if !matches!(self.tasks[i].status, TaskStatus::Failed | TaskStatus::Cancelled) {
            return Some(None);
        }
        let mut task = self.tasks[i].duplicate();
        let ghost t0 = task@;
        let mut k: usize = 0;
        while k < task.steps.len()
            invariant
                same_but_steps(t0, task@),
                task@.steps.len() == t0.steps.len(),
                k <= t0.steps.len(),
                forall|j: int| 0 <= j < k ==> retried_step(t0.steps[j], task@.steps[j]),
                forall|j: int| k <= j < t0.steps.len() ==> task@.steps[j] == t0.steps[j],
            decreases task.steps.len() - k,
        {
            assert(task@.steps[k as int] == task.steps@[k as int]@);
            if !matches!(task.steps[k].status, StepStatus::Completed | StepStatus::TimedOut) {
                let ghost before = task@.steps;
                task.steps[k].reset_for_retry();
                assert(task@.steps =~= before.update(k as int, task.steps@[k as int]@));
            }
            k += 1;
        }
        let needs_planner = task.steps.len() == 0;
        task.retry();
        let payload = one_field_object("reason", jstr(reason));
        let ev = TaskEvent::new(
            task_id,
            None,
            TaskEventKind::Retried,
            concat2("任务已重新进入调度：", reason),
            payload,
        );
        let ghost evv = ev@;
        proof {
            lemma_replace_keeps_unique(old(self).tasks_v(), i as int, task@);
            assert(retried_task(t0, task@));
        }
        self.store_task(i, task);
        self.push_event(ev);
        assert(self.events_v() =~= old(self).events_v() + seq![evv]);
        Some(Some(needs_planner))
    }
}

} // verus!
