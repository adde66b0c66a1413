//! Advancing a task: starting every ready step and handing it out.
use vstd::prelude::*;
use crate::json::{Json, JsonValue, jv, jv_fields, object, push_field, jstr};
use crate::task::{
    EventView, StepStatus, StepView, Task, TaskEvent, TaskEventKind, TaskStatus, TaskStep, TaskView,
    is_done, is_terminal, opt_ref_str, step_views, task_status_is_terminal,
};
use crate::text::{concat2, decimal, decimal_string, own, push_str, str_eq};
use crate::runtime::{
    RetryTaskResult, SkipStepResult, StepDispatch, TaskRuntime, complete_task_if_ready, completed_if_ready, count_status, event_views,
    lookup_task,
};
use crate::control::{
    changed_one, ctx_step_attempt, ctx_step_id, first_running, lemma_changed_chain,
    lemma_changed_none, lemma_lookup_replace, lemma_replace_keeps_unique, replied_task,
    retried_event, retried_step, retried_task, retry_resets, skipped_event, skipped_task,
};
use crate::ready::{lemma_first_step_found, build_step_dispatch_context, ready_step_indices, dep_done, dep_results, dispatch_context, first_step_with_id, is_ready, lemma_first_step_unique, ready_list, runs_before};

verus! {

broadcast use vstd::std_specs::vec::group_vec_axioms;

// ------------------------------------------------------------------
// Advancing a task
// ------------------------------------------------------------------
/// Whether the agent of a step is the planner, whose steps the runtime
/// completes itself with a simulated result.
pub open spec fn is_planner(agent: Seq<char>) -> bool {
    agent == "Planner"@
}

/// The simulated result of a step the runtime completes itself.
pub open spec fn simulated_result(s: StepView) -> Json {
    Json::Object(
        seq![
            ("mode"@, Json::Str("simulated"@)),
            ("agentId"@, Json::Str(s.agent_id)),
            ("summary"@, Json::Str(s.agent_id + " 已完成模拟执行。"@)),
            ("instruction"@, Json::Str(s.instruction)),
        ],
    )
}

/// `b` is pending step `a` after it was started by the scheduler: one more
/// attempt, no error, a start time; a planner step is also completed with
/// its simulated result, any other step is running.
pub open spec fn started_step(a: StepView, b: StepView) -> bool {
    &&& a.status == StepStatus::Pending
    &&& a.attempts < u32::MAX
    &&& b.started_at is Some
    &&& if is_planner(a.agent_id) {
        b == StepView {
            status: StepStatus::Completed,
            attempts: (a.attempts + 1) as u32,
            error: None,
            started_at: b.started_at,
            result: Some(simulated_result(a)),
            completed_at: b.completed_at,
            ..a
        } && b.completed_at is Some
    } else {
        b == StepView {
            status: StepStatus::Running,
            attempts: (a.attempts + 1) as u32,
            error: None,
            started_at: b.started_at,
            ..a
        }
    }
}

/// Whether no two steps share an id.
pub open spec fn unique_step_ids(steps: Seq<StepView>) -> bool {
    forall|i: int, j: int|
        0 <= i < steps.len() && 0 <= j < steps.len() && i != j ==> steps[i].id != steps[j].id
}

/// Whether every pending step can count one more attempt.
pub open spec fn pending_attempts_ok(steps: Seq<StepView>) -> bool {
    forall|k: int|
        0 <= k < steps.len() && steps[k].status == StepStatus::Pending ==> steps[k].attempts
            < u32::MAX
}

/// Whether dispatch `d` hands step `k` of task `t` to its agent. The context
/// is pinned down when the step ids of the task are unique; otherwise it
/// names the task, the step and its attempt.
#[verifier::opaque]
pub open spec fn dispatch_for(d: StepDispatch, t: TaskView, k: int) -> bool {
    let s = t.steps[k];
    &&& d.task_id@ == t.id
    &&& d.step_id@ == s.id
    &&& d.agent_name@ == s.agent_id
    &&& d.instruction@ == s.instruction
    &&& crate::json::json_get(jv(d.context), "stepId"@) == Some(Json::Str(s.id))
    &&& crate::json::json_get(jv(d.context), "stepAttempt"@) == Some(Json::Int(s.attempts as int))
    &&& unique_step_ids(t.steps) ==> jv(d.context) == dispatch_context(t, k)
}

/// The event recorded when step `s` starts.
pub open spec fn started_event(task_id: Seq<char>, s: StepView) -> EventView {
    EventView {
        task_id,
        step_id: Some(s.id),
        kind: TaskEventKind::StepStarted,
        message: s.agent_id + " 开始执行："@ + s.title,
        payload: Json::Object(
            seq![
                ("agentId"@, Json::Str(s.agent_id)),
                ("instruction"@, Json::Str(s.instruction)),
                ("attempt"@, Json::Int(s.attempts as int)),
            ],
        ),
    }
}

/// The event recorded when the runtime completes a planner step.
pub open spec fn self_completed_event(task_id: Seq<char>, s: StepView) -> EventView {
    EventView {
        task_id,
        step_id: Some(s.id),
        kind: TaskEventKind::StepCompleted,
        message: s.agent_id + " 已完成步骤。"@,
        payload: simulated_result(s),
    }
}

/// `t2` is `t` after one round of scheduling or more: some pending steps
/// started (see `started_step`), each of which had all its dependencies
/// finished; the others are unchanged; only the steps, status and update
/// time differ.
pub open spec fn scheduled_from(t: TaskView, t2: TaskView) -> bool {
    &&& t2 == TaskView { steps: t2.steps, status: t2.status, updated_at: t2.updated_at, ..t }
    &&& t2.steps.len() == t.steps.len()
    &&& forall|k: int|
        0 <= k < t.steps.len() ==> #[trigger] t2.steps[k] == t.steps[k] || (started_step(
            t.steps[k],
            t2.steps[k],
        ) && forall|d: int|
            0 <= d < t.steps[k].depends_on.len() ==> dep_done(
                t2.steps,
                #[trigger] t.steps[k].depends_on[d],
            ))
}

/// `t2` is `t` after scheduling ran to a standstill: the task runs, the
/// steps started as in `scheduled_from`, and no pending step is ready.
pub open spec fn advanced_task(t: TaskView, t2: TaskView) -> bool {
    &&& scheduled_from(t, t2)
    &&& t2.status == TaskStatus::Running
    &&& forall|k: int| !is_ready(t2.steps, k)
}

/// `ks` names, for each dispatch in `ds`, the step it hands out: a step
/// pending in `t` and running in `t2`. No step is named twice, and every step
/// that went from pending to running is named.
pub open spec fn dispatched(t: TaskView, t2: TaskView, ds: Seq<StepDispatch>, ks: Seq<int>) -> bool {
    &&& ks.len() == ds.len()
    &&& forall|j: int|
        0 <= j < ds.len() ==> 0 <= #[trigger] ks[j] < t.steps.len() && ks[j] < t2.steps.len()
            && t.steps[ks[j]].status == StepStatus::Pending && t2.steps[ks[j]].status
            == StepStatus::Running && dispatch_for(ds[j], t2, ks[j])
    &&& forall|a: int, b: int| 0 <= a < b < ks.len() ==> ks[a] != ks[b]
    &&& forall|k: int|
        0 <= k < t.steps.len() && t.steps[k].status == StepStatus::Pending
            && #[trigger] t2.steps[k].status == StepStatus::Running ==> exists|j: int|
            0 <= j < ks.len() && ks[j] == k
}

/// `ds` hands out exactly the steps of `t` that were pending and are running
/// in `t2`, one dispatch each.
pub open spec fn dispatches_for(t: TaskView, t2: TaskView, ds: Seq<StepDispatch>) -> bool {
    exists|ks: Seq<int>| #[trigger] dispatched(t, t2, ds, ks)
}

/// The events recorded when step `k` of `t` starts: its `StepStarted` event,
/// followed, for a planner step (which the runtime completes in place), by
/// its `StepCompleted` event.
pub open spec fn step_events(t: TaskView, k: int) -> Seq<EventView> {
    if is_planner(t.steps[k].agent_id) {
        seq![started_event(t.id, t.steps[k]), self_completed_event(t.id, t.steps[k])]
    } else {
        seq![started_event(t.id, t.steps[k])]
    }
}

/// The events of the steps listed in `order`, one step after another.
pub open spec fn events_in_order(t: TaskView, order: Seq<int>) -> Seq<EventView>
    decreases order.len(),
{
    if order.len() == 0 {
        Seq::empty()
    } else {
        events_in_order(t, order.drop_last()) + step_events(t, order.last())
    }
}

/// `order` lists each step that `t2` has started since `t` (pending in `t`,
/// no longer pending in `t2`) exactly once, and no other step.
pub open spec fn start_order(t: TaskView, t2: TaskView, order: Seq<int>) -> bool {
    &&& forall|j: int|
        0 <= j < order.len() ==> 0 <= #[trigger] order[j] < t.steps.len() && order[j] < t2.steps.len()
            && t.steps[order[j]].status == StepStatus::Pending && t2.steps[order[j]].status
            != StepStatus::Pending
    &&& forall|a: int, b: int| 0 <= a < b < order.len() ==> order[a] != order[b]
    &&& forall|k: int|
        0 <= k < t.steps.len() && t.steps[k].status == StepStatus::Pending
            && #[trigger] t2.steps[k].status != StepStatus::Pending ==> exists|j: int|
            0 <= j < order.len() && order[j] == k
}

/// The events `e` record exactly the scheduling of `t` into `t2`: for each
/// step started, in the order the steps started, one `StepStarted` event,
/// and right after it one `StepCompleted` event for a planner step.
pub open spec fn scheduling_events(t: TaskView, t2: TaskView, e: Seq<EventView>) -> bool {
    exists|order: Seq<int>| #[trigger] start_order(t, t2, order) && e == events_in_order(t2, order)
}

/// The positions of `r` as integers.
pub open spec fn as_ints(r: Seq<usize>) -> Seq<int> {
    Seq::new(r.len(), |i: int| r[i] as int)
}

proof fn lemma_events_in_order_stable(t1: TaskView, t2: TaskView, order: Seq<int>)
    requires
        t1.id == t2.id,
        forall|j: int|
            0 <= j < order.len() ==> 0 <= #[trigger] order[j] < t1.steps.len() && order[j] < t2.steps.len()
                && t1.steps[order[j]] == t2.steps[order[j]],
    ensures
        events_in_order(t1, order) == events_in_order(t2, order),
    decreases order.len(),
{
    if order.len() > 0 {
        let o = order.drop_last();
        assert forall|j: int| 0 <= j < o.len() implies 0 <= #[trigger] o[j] < t1.steps.len() && o[j]
            < t2.steps.len() && t1.steps[o[j]] == t2.steps[o[j]] by {
            assert(o[j] == order[j]);
        }
        lemma_events_in_order_stable(t1, t2, o);
        assert(order.last() == order[order.len() - 1]);
    }
}

proof fn lemma_events_in_order_concat(t: TaskView, a: Seq<int>, b: Seq<int>)
    ensures
        events_in_order(t, a + b) == events_in_order(t, a) + events_in_order(t, b),
    decreases b.len(),
{
    if b.len() == 0 {
        assert(a + b =~= a);
        assert(events_in_order(t, a) + events_in_order(t, b) =~= events_in_order(t, a));
    } else {
        lemma_events_in_order_concat(t, a, b.drop_last());
        assert((a + b).drop_last() =~= a + b.drop_last());
        assert((a + b).last() == b.last());
        assert(events_in_order(t, a + b) =~= events_in_order(t, a) + events_in_order(t, b));
    }
}

proof fn lemma_events_in_order_push(t: TaskView, a: Seq<int>, k: int)
    ensures
        events_in_order(t, a.push(k)) == events_in_order(t, a) + step_events(t, k),
{
    assert(a.push(k).drop_last() =~= a);
}

/// What advancing task `t` leads to: a finished task is left alone;
/// otherwise scheduling runs to a standstill (`advanced_task`), `ds` hands out
/// the steps that started running, the events record the scheduling, and the
/// task completes if every step is done.
pub open spec fn advance_outcome(t: TaskView, ds: Seq<StepDispatch>, t3: TaskView, em: Seq<EventView>) -> bool {
    if is_terminal(t.status) {
        ds.len() == 0 && t3 == t && em == Seq::<EventView>::empty()
    } else {
        exists|t2: TaskView, e1: Seq<EventView>, e2: Seq<EventView>|
            advanced_task(t, t2) && dispatches_for(t, t2, ds) && scheduling_events(t, t2, e1)
                && completed_if_ready(t2, t3, e2) && em == e1 + e2
    }
}

fn simulated_step_result(step: &TaskStep) -> (r: JsonValue)
    ensures
        jv(r) == simulated_result(step@),
{
    let mut f: Vec<(String, JsonValue)> = Vec::new();
    proof {
        assert(jv_fields(f@) =~= Seq::empty());
    }
    push_field(&mut f, "mode", jstr("simulated"));
    push_field(&mut f, "agentId", JsonValue::Str(step.agent_id.clone()));
    push_field(&mut f, "summary", JsonValue::Str(concat2(step.agent_id.as_str(), " 已完成模拟执行。")));
    push_field(&mut f, "instruction", JsonValue::Str(step.instruction.clone()));
    let ghost fv = jv_fields(f@);
    let r = object(f);
    assert(simulated_result(step@)->Object_0 =~= fv);
    r
}

fn started_payload(step: &TaskStep) -> (r: JsonValue)
    ensures
        jv(r) == started_event(seq![], step@).payload,
{
    let mut f: Vec<(String, JsonValue)> = Vec::new();
    proof {
        assert(jv_fields(f@) =~= Seq::empty());
    }
    push_field(&mut f, "agentId", JsonValue::Str(step.agent_id.clone()));
    push_field(&mut f, "instruction", JsonValue::Str(step.instruction.clone()));
    push_field(&mut f, "attempt", JsonValue::UInt(step.attempts as u64));
    let ghost fv = jv_fields(f@);
    let r = object(f);
    assert(started_event(seq![], step@).payload->Object_0 =~= fv);
    r
}

/// Whether a step belongs to the planner.
pub fn agent_is_planner(agent: &str) -> (b: bool)
    ensures
        b == is_planner(agent@),
{
    proof {
        reveal_strlit("Planner");
    }
    str_eq(agent, "Planner")
}

proof fn lemma_first_step_ids(s1: Seq<StepView>, s2: Seq<StepView>, id: Seq<char>)
    requires
        s1.len() == s2.len(),
        forall|m: int| 0 <= m < s1.len() ==> s1[m].id == s2[m].id,
    ensures
        first_step_with_id(s1, id) == first_step_with_id(s2, id),
{
    assert(crate::ready::step_ids(s1) =~= crate::ready::step_ids(s2));
}

proof fn lemma_dep_results_stable(s1: Seq<StepView>, s2: Seq<StepView>, deps: Seq<Seq<char>>)
    requires
        s1.len() == s2.len(),
        unique_step_ids(s1),
        forall|m: int| 0 <= m < s1.len() ==> s1[m].id == s2[m].id,
        forall|m: int| 0 <= m < s1.len() ==> s2[m] == s1[m] || s1[m].status == StepStatus::Pending,
        forall|d: int| 0 <= d < deps.len() ==> dep_done(s1, #[trigger] deps[d]),
    ensures
        dep_results(s1, deps) == dep_results(s2, deps),
    decreases deps.len(),
{
    if deps.len() > 0 {
        assert forall|d: int| 0 <= d < deps.drop_last().len() implies dep_done(
            s1,
            #[trigger] deps.drop_last()[d],
        ) by {
            assert(deps.drop_last()[d] == deps[d]);
        }
        lemma_dep_results_stable(s1, s2, deps.drop_last());
        let x = deps.last();
        assert(dep_done(s1, deps[deps.len() - 1]));
        lemma_first_step_ids(s1, s2, x);
        let w = choose|w: int| 0 <= w < s1.len() && s1[w].id == x && is_done(s1[w].status);
        assert forall|j: int| 0 <= j < w implies s1[j].id != x by {
        }
        lemma_first_step_unique(s1, x, w);
    }
}

proof fn lemma_dispatch_stable(d: StepDispatch, t: TaskView, t2: TaskView, k: int)
    requires
        0 <= k < t.steps.len(),
        dispatch_for(d, t, k),
        t2.id == t.id,
        t2.user_goal == t.user_goal,
        t2.steps.len() == t.steps.len(),
        forall|m: int| 0 <= m < t.steps.len() ==> t2.steps[m] == t.steps[m] || t.steps[m].status == StepStatus::Pending,
        forall|m: int| 0 <= m < t.steps.len() ==> t2.steps[m].id == t.steps[m].id,
        t.steps[k].status != StepStatus::Pending,
        forall|e: int|
            0 <= e < t.steps[k].depends_on.len() ==> dep_done(t.steps, #[trigger] t.steps[k].depends_on[e]),
    ensures
        dispatch_for(d, t2, k),
{
    reveal(dispatch_for);
    assert(t2.steps[k] == t.steps[k]);
    if unique_step_ids(t2.steps) {
        assert(unique_step_ids(t.steps)) by {
            assert forall|i: int, j: int|
                0 <= i < t.steps.len() && 0 <= j < t.steps.len() && i != j implies t.steps[i].id
                != t.steps[j].id by {
                assert(t2.steps[i].id == t.steps[i].id);
                assert(t2.steps[j].id == t.steps[j].id);
            }
        }
        lemma_dep_results_stable(t.steps, t2.steps, t.steps[k].depends_on);
        assert(dispatch_context(t, k)->Object_0 =~= dispatch_context(t2, k)->Object_0);
    }
}

proof fn lemma_dispatch_context_lookup(t: TaskView, k: int)
    requires
        0 <= k < t.steps.len(),
    ensures
        crate::json::json_get(dispatch_context(t, k), "stepId"@) == Some(Json::Str(t.steps[k].id)),
        crate::json::json_get(dispatch_context(t, k), "stepAttempt"@) == Some(
            Json::Int(t.steps[k].attempts as int),
        ),
{
    reveal_strlit("taskId");
    reveal_strlit("taskGoal");
    reveal_strlit("stepId");
    reveal_strlit("stepOrder");
    reveal_strlit("stepAttempt");
    let f = dispatch_context(t, k)->Object_0;
    let f1 = f.drop_first();
    let f2 = f1.drop_first();
    let f3 = f2.drop_first();
    let f4 = f3.drop_first();
    assert(f[0].0 != "stepId"@ && f[0].0 != "stepAttempt"@) by {
        assert(f[0].0[0] != "stepId"@[0]);
        assert(f[0].0[0] != "stepAttempt"@[0]);
    }
    assert(f1[0].0 != "stepId"@ && f1[0].0 != "stepAttempt"@) by {
        assert(f1[0].0[0] != "stepId"@[0]);
        assert(f1[0].0[0] != "stepAttempt"@[0]);
    }
    assert(f2[0].0 == "stepId"@);
    assert(f2[0].0 != "stepAttempt"@) by {
        assert(f2[0].0.len() != "stepAttempt"@.len());
    }
    assert(f3[0].0 != "stepAttempt"@) by {
        assert(f3[0].0[4] != "stepAttempt"@[4]);
    }
    assert(f4[0].0 == "stepAttempt"@);
    assert(crate::json::lookup(f2, "stepId"@) == Some(Json::Str(t.steps[k].id)));
    assert(crate::json::lookup(f1, "stepId"@) == crate::json::lookup(f2, "stepId"@));
    assert(crate::json::lookup(f, "stepId"@) == crate::json::lookup(f1, "stepId"@));
    assert(crate::json::lookup(f4, "stepAttempt"@) == Some(Json::Int(t.steps[k].attempts as int)));
    assert(crate::json::lookup(f3, "stepAttempt"@) == crate::json::lookup(f4, "stepAttempt"@));
    assert(crate::json::lookup(f2, "stepAttempt"@) == crate::json::lookup(f3, "stepAttempt"@));
    assert(crate::json::lookup(f1, "stepAttempt"@) == crate::json::lookup(f2, "stepAttempt"@));
    assert(crate::json::lookup(f, "stepAttempt"@) == crate::json::lookup(f1, "stepAttempt"@));
}

/// Whether `k` occurs in `r`.
pub open spec fn in_list(r: Seq<usize>, k: int) -> bool {
    exists|j: int| 0 <= j < r.len() && r[j] == k
}

/// `t2` differs from `t` only at steps that were pending in `t`.
pub open spec fn only_pending_changed(t: TaskView, t2: TaskView) -> bool {
    &&& t2.id == t.id
    &&& t2.user_goal == t.user_goal
    &&& t2.steps.len() == t.steps.len()
    &&& forall|m: int|
        0 <= m < t.steps.len() ==> #[trigger] t2.steps[m] == t.steps[m] || t.steps[m].status
            == StepStatus::Pending
    &&& forall|m: int| 0 <= m < t.steps.len() ==> #[trigger] t2.steps[m].id == t.steps[m].id
}

proof fn lemma_dep_done_mono(s1: Seq<StepView>, s2: Seq<StepView>, dep: Seq<char>)
    requires
        s2.len() == s1.len(),
        forall|m: int| 0 <= m < s1.len() ==> #[trigger] s2[m] == s1[m] || s1[m].status == StepStatus::Pending,
        dep_done(s1, dep),
    ensures
        dep_done(s2, dep),
{
    let w = choose|w: int| 0 <= w < s1.len() && s1[w].id == dep && is_done(s1[w].status);
    assert(s2[w] == s1[w]);
}

/// The steps of `t` are those of `t0` with the steps listed in `r` started.
pub open spec fn round_steps_ok(t0: TaskView, r: Seq<usize>, t: TaskView) -> bool {
    &&& t == TaskView { steps: t.steps, ..t0 }
    &&& t.steps.len() == t0.steps.len()
    &&& forall|k: int|
        0 <= k < t0.steps.len() ==> (if in_list(r, k) {
            started_step(t0.steps[k], #[trigger] t.steps[k])
        } else {
            t.steps[k] == t0.steps[k]
        })
}

/// The dispatches `ds` are `d0` followed by one dispatch for each non-planner
/// step listed in `r`, at the positions `ks`.
#[verifier::opaque]
pub open spec fn round_dispatch_ok(
    t0: TaskView,
    r: Seq<usize>,
    t: TaskView,
    d0: Seq<StepDispatch>,
    ds: Seq<StepDispatch>,
    ks: Seq<int>,
) -> bool {
    &&& ds.len() == d0.len() + ks.len()
    &&& ds.take(d0.len() as int) == d0
    &&& forall|q: int|
        0 <= q < ks.len() ==> 0 <= #[trigger] ks[q] < t0.steps.len() && in_list(r, ks[q])
            && !is_planner(t0.steps[ks[q]].agent_id) && dispatch_for(ds[d0.len() + q], t, ks[q])
    &&& forall|a: int, b: int| 0 <= a < b < ks.len() ==> ks[a] != ks[b]
    &&& forall|k: int|
        in_list(r, k) && 0 <= k < t0.steps.len() && !is_planner(t0.steps[k].agent_id) ==> exists|
            q: int,
        | 0 <= q < ks.len() && ks[q] == k
}

proof fn lemma_round_steps_pending(t0: TaskView, r: Seq<usize>, t: TaskView)
    requires
        round_steps_ok(t0, r, t),
    ensures
        only_pending_changed(t0, t),
{
    assert forall|m: int| 0 <= m < t0.steps.len() implies #[trigger] t.steps[m] == t0.steps[m]
        || t0.steps[m].status == StepStatus::Pending by {
        if in_list(r, m) {
            assert(started_step(t0.steps[m], t.steps[m]));
        }
    }
    assert forall|m: int| 0 <= m < t0.steps.len() implies #[trigger] t.steps[m].id == t0.steps[m].id by {
        if in_list(r, m) {
            assert(started_step(t0.steps[m], t.steps[m]));
        }
    }
}

proof fn lemma_in_list_push(r: Seq<usize>, x: usize, k: int)
    ensures
        in_list(r.push(x), k) <==> (in_list(r, k) || k == x),
{
    if in_list(r.push(x), k) {
        let j = choose|j: int| 0 <= j < r.push(x).len() && r.push(x)[j] == k;
        if j < r.len() {
            assert(r[j] == k);
        }
    }
    if in_list(r, k) {
        let j = choose|j: int| 0 <= j < r.len() && r[j] == k;
        assert(r.push(x)[j] == k);
    }
    if k == x {
        assert(r.push(x)[r.len() as int] == k);
    }
}

proof fn lemma_round_steps_step(t0: TaskView, r0: Seq<usize>, tb: TaskView, k: usize, ta: TaskView)
    requires
        round_steps_ok(t0, r0, tb),
        !in_list(r0, k as int),
        (k as int) < t0.steps.len(),
        ta == (TaskView { steps: tb.steps.update(k as int, ta.steps[k as int]), ..tb }),
        started_step(t0.steps[k as int], ta.steps[k as int]),
    ensures
        round_steps_ok(t0, r0.push(k), ta),
{
    assert forall|m: int|
        0 <= m < t0.steps.len() implies (if in_list(r0.push(k), m) {
            started_step(t0.steps[m], #[trigger] ta.steps[m])
        } else {
            ta.steps[m] == t0.steps[m]
        }) by {
        lemma_in_list_push(r0, k, m);
    }
}

proof fn lemma_ready_deps_done(t0: TaskView, r: Seq<usize>, t: TaskView, k: int)
    requires
        round_steps_ok(t0, r, t),
        is_ready(t0.steps, k),
    ensures
        forall|e: int|
            0 <= e < t0.steps[k].depends_on.len() ==> dep_done(
                t.steps,
                #[trigger] t0.steps[k].depends_on[e],
            ),
{
    lemma_round_steps_pending(t0, r, t);
    assert forall|e: int| 0 <= e < t0.steps[k].depends_on.len() implies dep_done(
        t.steps,
        #[trigger] t0.steps[k].depends_on[e],
    ) by {
        lemma_dep_done_mono(t0.steps, t.steps, t0.steps[k].depends_on[e]);
    }
}

proof fn lemma_round_pair_pending(t0: TaskView, r0: Seq<usize>, k: usize, tb: TaskView, ta: TaskView)
    requires
        round_steps_ok(t0, r0, tb),
        round_steps_ok(t0, r0.push(k), ta),
        (k as int) < t0.steps.len(),
        ta.steps == tb.steps.update(k as int, ta.steps[k as int]),
        !in_list(r0, k as int),
    ensures
        only_pending_changed(tb, ta),
{
    assert forall|m: int| 0 <= m < tb.steps.len() implies #[trigger] ta.steps[m] == tb.steps[m]
        || tb.steps[m].status == StepStatus::Pending by {
        if m == k {
            assert(tb.steps[m] == t0.steps[m]);
        }
    }
    assert forall|m: int| 0 <= m < tb.steps.len() implies #[trigger] ta.steps[m].id == tb.steps[m].id by {
        if m == k {
            assert(tb.steps[m] == t0.steps[m]);
            lemma_in_list_push(r0, k, m);
            assert(started_step(t0.steps[m], ta.steps[m]));
        }
    }
}

/// A dispatch made earlier in a round stays valid after later steps start.
proof fn lemma_round_dispatch_keep(
    t0: TaskView,
    r0: Seq<usize>,
    tb: TaskView,
    ta: TaskView,
    kq: int,
    d: StepDispatch,
)
    requires
        round_steps_ok(t0, r0, tb),
        only_pending_changed(tb, ta),
        in_list(r0, kq),
        is_ready(t0.steps, kq),
        dispatch_for(d, tb, kq),
    ensures
        dispatch_for(d, ta, kq),
{
    assert(started_step(t0.steps[kq], tb.steps[kq]));
    lemma_ready_deps_done(t0, r0, tb, kq);
    assert forall|e: int| 0 <= e < tb.steps[kq].depends_on.len() implies dep_done(
        tb.steps,
        #[trigger] tb.steps[kq].depends_on[e],
    ) by {
        assert(tb.steps[kq].depends_on[e] == t0.steps[kq].depends_on[e]);
    }
    lemma_dispatch_stable(d, tb, ta, kq);
}

#[verifier::spinoff_prover]
proof fn lemma_round_dispatch_step(
    t0: TaskView,
    r0: Seq<usize>,
    tb: TaskView,
    ta: TaskView,
    k: usize,
    d0: Seq<StepDispatch>,
    db: Seq<StepDispatch>,
    da: Seq<StepDispatch>,
    ks: Seq<int>,
    ks1: Seq<int>,
)
    requires
        forall|q: int| 0 <= q < r0.len() ==> is_ready(t0.steps, #[trigger] r0[q] as int),
        round_steps_ok(t0, r0, tb),
        round_steps_ok(t0, r0.push(k), ta),
        ta.steps == tb.steps.update(k as int, ta.steps[k as int]),
        round_dispatch_ok(t0, r0, tb, d0, db, ks),
        !in_list(r0, k as int),
        (k as int) < t0.steps.len(),
        if is_planner(t0.steps[k as int].agent_id) {
            da == db && ks1 == ks
        } else {
            da.len() == db.len() + 1 && da.take(db.len() as int) == db && dispatch_for(
                da[db.len() as int],
                ta,
                k as int,
            ) && ks1 == ks.push(k as int)
        },
    ensures
        round_dispatch_ok(t0, r0.push(k), ta, d0, da, ks1),
{
    reveal(round_dispatch_ok);
    lemma_round_pair_pending(t0, r0, k, tb, ta);
    let planner = is_planner(t0.steps[k as int].agent_id);
    assert forall|x: int| 0 <= x < db.len() implies da[x] == db[x] by {
        if !planner {
            assert(da.take(db.len() as int)[x] == db[x]);
        }
    }
    assert(da.take(d0.len() as int) =~= d0) by {
        assert forall|x: int| 0 <= x < d0.len() implies da[x] == d0[x] by {
            assert(db.take(d0.len() as int)[x] == d0[x]);
        }
    }
    assert forall|q: int| 0 <= q < ks1.len() implies 0 <= #[trigger] ks1[q] < t0.steps.len()
        && in_list(r0.push(k), ks1[q]) && !is_planner(t0.steps[ks1[q]].agent_id) && dispatch_for(
        da[d0.len() + q],
        ta,
        ks1[q],
    ) by {
        lemma_in_list_push(r0, k, ks1[q]);
        if q < ks.len() {
            let kq = ks[q];
            assert(ks1[q] == kq);
            assert(in_list(r0, kq));
            let jj = choose|jj: int| 0 <= jj < r0.len() && r0[jj] == kq;
            assert(is_ready(t0.steps, r0[jj] as int));
            assert(da[d0.len() + q] == db[d0.len() + q]);
            lemma_round_dispatch_keep(t0, r0, tb, ta, kq, db[d0.len() + q]);
        }
    }
    assert forall|k2: int|
        in_list(r0.push(k), k2) && 0 <= k2 < t0.steps.len() && !is_planner(t0.steps[k2].agent_id)
            implies exists|q: int| 0 <= q < ks1.len() && ks1[q] == k2 by {
        lemma_in_list_push(r0, k, k2);
        if k2 == k {
            assert(ks1[ks.len() as int] == k2);
        } else {
            let q = choose|q: int| 0 <= q < ks.len() && ks[q] == k2;
            assert(ks1[q] == k2);
        }
    }
    assert forall|a: int, b: int| 0 <= a < b < ks1.len() implies ks1[a] != ks1[b] by {
        if b == ks.len() && !planner {
            assert(ks1[b] == k);
            assert(in_list(r0, ks[a]));
        }
    }
}

/// Starts step `k`: records its `StepStarted` event, then completes it in
/// place when it belongs to the planner, or hands it out otherwise. Returns
/// whether it belonged to the planner.
#[verifier::spinoff_prover]
fn start_one(
    task: &mut Task,
    k: usize,
    dispatches: &mut Vec<StepDispatch>,
    emitted: &mut Vec<TaskEvent>,
) -> (planner: bool)
    requires
        (k as int) < old(task)@.steps.len(),
        old(task)@.steps[k as int].status == StepStatus::Pending,
        old(task)@.steps[k as int].attempts < u32::MAX,
    ensures
        final(task)@ == (TaskView {
            steps: old(task)@.steps.update(k as int, final(task)@.steps[k as int]),
            ..old(task)@
        }),
        started_step(old(task)@.steps[k as int], final(task)@.steps[k as int]),
        planner == is_planner(old(task)@.steps[k as int].agent_id),
        planner ==> final(dispatches)@ == old(dispatches)@,
        !planner ==> final(dispatches)@.len() == old(dispatches)@.len() + 1 && final(dispatches)@.take(
            old(dispatches)@.len() as int,
        ) == old(dispatches)@ && dispatch_for(
            final(dispatches)@[old(dispatches)@.len() as int],
            final(task)@,
            k as int,
        ),
        event_views(final(emitted)@) == event_views(old(emitted)@) + step_events(final(task)@, k as int),
{
    let ghost tb = task@;
    let ghost db = dispatches@;
    let ghost eb = event_views(emitted@);
    assert(tb.steps[k as int] == task.steps@[k as int]@);
    task.steps[k].start();
    proof {
        assert(task@.steps =~= tb.steps.update(k as int, task.steps@[k as int]@));
    }
    let context = build_step_dispatch_context(task, k);
    let agent = task.steps[k].agent_id.clone();
    let mut msg = concat2(agent.as_str(), " 开始执行：");
    push_str(&mut msg, task.steps[k].title.as_str());
    let payload = started_payload(&task.steps[k]);
    let ev = TaskEvent::new(
        task.id.as_str(),
        Some(task.steps[k].id.clone()),
        TaskEventKind::StepStarted,
        msg,
        payload,
    );
    let ghost ev_started = ev@;
    emitted.push(ev);
    proof {
        assert(event_views(emitted@) =~= eb.push(ev_started));
    }
    let ghost t_started = task@;
    proof {
        assert(ev_started == started_event(t_started.id, t_started.steps[k as int]));
        lemma_dispatch_context_lookup(t_started, k as int);
    }
    assert(agent@ == tb.steps[k as int].agent_id);
    if agent_is_planner(agent.as_str()) {
        let result = simulated_step_result(&task.steps[k]);
        let payload2 = result.deep_clone();
        let ghost tc = task@;
        task.steps[k].complete(result);
        proof {
            assert(task@.steps =~= tc.steps.update(k as int, task.steps@[k as int]@));
        }
        let ev2 = TaskEvent::new(
            task.id.as_str(),
            Some(task.steps[k].id.clone()),
            TaskEventKind::StepCompleted,
            concat2(agent.as_str(), " 已完成步骤。"),
            payload2,
        );
        let ghost evv2 = ev2@;
        let ghost e_started = event_views(emitted@);
        emitted.push(ev2);
        proof {
            assert(event_views(emitted@) =~= e_started.push(evv2));
            assert(evv2 == self_completed_event(task@.id, task@.steps[k as int]));
            assert(started_event(task@.id, task@.steps[k as int]) == ev_started);
        }
    } else {
        let d = StepDispatch {
            task_id: task.id.clone(),
            step_id: task.steps[k].id.clone(),
            agent_name: agent,
            instruction: task.steps[k].instruction.clone(),
            context,
        };
        proof {
            reveal(dispatch_for);
            assert(dispatch_for(d, task@, k as int));
        }
        dispatches.push(d);
        proof {
            assert(dispatches@.take(db.len() as int) =~= db);
        }
    }
    proof {
        assert(task@.steps =~= tb.steps.update(k as int, task@.steps[k as int]));
        assert(event_views(emitted@) =~= eb + step_events(task@, k as int));
    }
    agent_is_planner(task.steps[k].agent_id.as_str())
}

/// Whether one of the steps listed in `r` belongs to the planner.
pub open spec fn any_planner_in(t0: TaskView, r: Seq<usize>) -> bool
    decreases r.len(),
{
    if r.len() == 0 {
        false
    } else {
        any_planner_in(t0, r.drop_last()) || is_planner(t0.steps[r.last() as int].agent_id)
    }
}

proof fn lemma_no_planner_in(t0: TaskView, r: Seq<usize>, k: int)
    requires
        !any_planner_in(t0, r),
        in_list(r, k),
    ensures
        !is_planner(t0.steps[k].agent_id),
    decreases r.len(),
{
    let j = choose|j: int| 0 <= j < r.len() && r[j] == k;
    if j < r.len() - 1 {
        assert(r.drop_last()[j] == k);
        lemma_no_planner_in(t0, r.drop_last(), k);
    }
}

/// Starts the steps of one round of scheduling, in the order of `ready`.
/// Returns whether a planner step was completed inside the runtime, and the
/// positions of the steps handed out (one per new dispatch).
#[verifier::spinoff_prover]
fn start_round(
    task: &mut Task,
    ready: &Vec<usize>,
    dispatches: &mut Vec<StepDispatch>,
    emitted: &mut Vec<TaskEvent>,
) -> (res: (bool, Ghost<Seq<int>>))
    requires
        ready_list(old(task)@.steps, ready@),
        pending_attempts_ok(old(task)@.steps),
    ensures
        round_steps_ok(old(task)@, ready@, final(task)@),
        res.0 == any_planner_in(old(task)@, ready@),
        round_dispatch_ok(old(task)@, ready@, final(task)@, old(dispatches)@, final(dispatches)@, res.1@),
        event_views(final(emitted)@) == event_views(old(emitted)@) + events_in_order(final(task)@, as_ints(ready@)),
{
    let ghost t0 = task@;
    let ghost d0 = dispatches@;
    let ghost e0 = event_views(emitted@);
    let ghost mut ks: Seq<int> = Seq::empty();
    let mut any_planner = false;
    let mut j: usize = 0;
    proof {
        assert(ready@.take(0) =~= Seq::<usize>::empty());
        assert(dispatches@.take(d0.len() as int) =~= d0);
        reveal(round_dispatch_ok);
        assert(as_ints(ready@.take(0)) =~= Seq::<int>::empty());
        assert(e0 + Seq::<EventView>::empty() =~= e0);
    }
    while j < ready.len()
        invariant
            ready_list(t0.steps, ready@),
            pending_attempts_ok(t0.steps),
            j <= ready@.len(),
            round_steps_ok(t0, ready@.take(j as int), task@),
            any_planner == any_planner_in(t0, ready@.take(j as int)),
            round_dispatch_ok(t0, ready@.take(j as int), task@, d0, dispatches@, ks),
            event_views(emitted@) == e0 + events_in_order(task@, as_ints(ready@.take(j as int))),
        decreases ready.len() - j,
    {
        let k = ready[j];
        let ghost r0 = ready@.take(j as int);
        let ghost tb = task@;
        let ghost db = dispatches@;
        let ghost eb = event_views(emitted@);
        let ghost ksb = ks;
        proof {
            assert(ready@.take(j + 1) =~= r0.push(k));
            assert(is_ready(t0.steps, k as int));
            assert(!in_list(r0, k as int)) by {
                if in_list(r0, k as int) {
                    let q = choose|q: int| 0 <= q < r0.len() && r0[q] == k;
                    assert(runs_before(t0.steps, ready@[q] as int, ready@[j as int] as int));
                }
            }
            assert(tb.steps[k as int] == t0.steps[k as int]);
            assert(tb.steps[k as int] == task.steps@[k as int]@);
            assert forall|q: int| 0 <= q < r0.len() implies in_list(ready@, #[trigger] r0[q] as int) by {
                assert(ready@[q] == r0[q]);
            }
            assert(in_list(ready@, k as int)) by {
                assert(ready@[j as int] == k);
            }
        }
        let planner = start_one(task, k, dispatches, emitted);
        if planner {
            any_planner = true;
        }
        proof {
            if !planner {
                ks = ks.push(k as int);
            }
        }
        proof {
            let ta = task@;
            let ea = event_views(emitted@);
            assert(ta.steps =~= tb.steps.update(k as int, ta.steps[k as int]));
            assert(ta == (TaskView { steps: tb.steps.update(k as int, ta.steps[k as int]), ..tb }));
            lemma_round_steps_step(t0, r0, tb, k, ta);
            assert forall|q: int| 0 <= q < r0.len() implies is_ready(t0.steps, #[trigger] r0[q] as int) by {
                assert(r0[q] == ready@[q]);
            }
            lemma_round_dispatch_step(t0, r0, tb, ta, k, d0, db, dispatches@, ksb, ks);
            assert(r0.push(k).drop_last() =~= r0);
            lemma_round_steps_pending(t0, r0.push(k), ta);
            assert(only_pending_changed(tb, ta)) by {
                lemma_round_steps_pending(t0, r0, tb);
                assert forall|m: int| 0 <= m < tb.steps.len() implies #[trigger] ta.steps[m] == tb.steps[m]
                    || tb.steps[m].status == StepStatus::Pending by {
                    if m != k {
                        assert(ta.steps[m] == tb.steps[m]);
                    }
                }
                assert forall|m: int| 0 <= m < tb.steps.len() implies #[trigger] ta.steps[m].id == tb.steps[m].id by {
                    if m != k {
                        assert(ta.steps[m] == tb.steps[m]);
                    }
                }
            }
            lemma_in_list_push(r0, k, k as int);
            let r0i = as_ints(r0);
            assert(as_ints(r0.push(k)) =~= r0i.push(k as int));
            assert forall|q: int| 0 <= q < r0i.len() implies 0 <= #[trigger] r0i[q] < tb.steps.len() && r0i[q]
                < ta.steps.len() && tb.steps[r0i[q]] == ta.steps[r0i[q]] by {
                assert(r0i[q] == r0[q] as int);
                assert(is_ready(t0.steps, r0[q] as int));
                if r0[q] == k {
                    assert(in_list(r0, k as int));
                }
            }
            lemma_events_in_order_stable(tb, ta, r0i);
            lemma_events_in_order_push(ta, r0i, k as int);
            assert(ea =~= e0 + events_in_order(ta, as_ints(r0.push(k))));
        }
        j += 1;
    }
    proof {
        assert(ready@.take(ready@.len() as int) =~= ready@);
    }
    (any_planner, Ghost(ks))
}


// ------------------------------------------------------------------
// Running rounds until nothing more is ready
// ------------------------------------------------------------------
proof fn lemma_pending_count_le(s1: Seq<StepView>, s2: Seq<StepView>)
    requires
        s1.len() == s2.len(),
        forall|m: int|
            0 <= m < s1.len() && (#[trigger] s2[m]).status == StepStatus::Pending ==> s1[m].status
                == StepStatus::Pending,
    ensures
        count_status(s2, StepStatus::Pending) <= count_status(s1, StepStatus::Pending),
    decreases s1.len(),
{
    if s1.len() > 0 {
        let (a, b) = (s1.drop_last(), s2.drop_last());
        assert forall|m: int| 0 <= m < a.len() && (#[trigger] b[m]).status == StepStatus::Pending implies a[m].status
            == StepStatus::Pending by {
            assert(b[m] == s2[m] && a[m] == s1[m]);
        }
        lemma_pending_count_le(a, b);
        assert(s2[s2.len() - 1] == s2.last());
    }
}

proof fn lemma_pending_count_lt(s1: Seq<StepView>, s2: Seq<StepView>, k: int)
    requires
        s1.len() == s2.len(),
        forall|m: int|
            0 <= m < s1.len() && (#[trigger] s2[m]).status == StepStatus::Pending ==> s1[m].status
                == StepStatus::Pending,
        0 <= k < s1.len(),
        s1[k].status == StepStatus::Pending,
        s2[k].status != StepStatus::Pending,
    ensures
        count_status(s2, StepStatus::Pending) < count_status(s1, StepStatus::Pending),
    decreases s1.len(),
{
    let (a, b) = (s1.drop_last(), s2.drop_last());
    assert forall|m: int| 0 <= m < a.len() && (#[trigger] b[m]).status == StepStatus::Pending implies a[m].status
        == StepStatus::Pending by {
        assert(b[m] == s2[m] && a[m] == s1[m]);
    }
    assert(s2[s2.len() - 1] == s2.last());
    if k == s1.len() - 1 {
        lemma_pending_count_le(a, b);
    } else {
        assert(a[k] == s1[k] && b[k] == s2[k]);
        lemma_pending_count_lt(a, b, k);
    }
}

proof fn lemma_in_ready(steps: Seq<StepView>, ready: Seq<usize>, k: int)
    requires
        ready_list(steps, ready),
        in_list(ready, k),
    ensures
        is_ready(steps, k),
{
    let j = choose|j: int| 0 <= j < ready.len() && ready[j] == k;
    assert(is_ready(steps, ready[j] as int));
}

/// The status and update time change nothing the scheduler records.
proof fn lemma_touch_pending(tb: TaskView, tr: TaskView)
    requires
        tr == (TaskView { status: tr.status, updated_at: tr.updated_at, ..tb }),
    ensures
        only_pending_changed(tb, tr),
{
}

proof fn lemma_sched_round(t0: TaskView, tb: TaskView, tr: TaskView, ready: Seq<usize>, ta: TaskView)
    requires
        scheduled_from(t0, tb),
        tr == (TaskView { status: TaskStatus::Running, updated_at: tr.updated_at, ..tb }),
        ready_list(tr.steps, ready),
        round_steps_ok(tr, ready, ta),
        pending_attempts_ok(t0.steps),
    ensures
        scheduled_from(t0, ta),
        pending_attempts_ok(ta.steps),
{
    lemma_round_steps_pending(tr, ready, ta);
    assert forall|k: int| 0 <= k < t0.steps.len() implies #[trigger] ta.steps[k] == t0.steps[k] || (
    started_step(t0.steps[k], ta.steps[k]) && forall|d: int|
        0 <= d < t0.steps[k].depends_on.len() ==> dep_done(
            ta.steps,
            #[trigger] t0.steps[k].depends_on[d],
        )) by {
        if in_list(ready, k) {
            lemma_in_ready(tr.steps, ready, k);
            assert(tb.steps[k] == t0.steps[k]);
            lemma_ready_deps_done(tr, ready, ta, k);
        } else if ta.steps[k] != t0.steps[k] {
            assert(ta.steps[k] == tb.steps[k]);
            assert forall|d: int| 0 <= d < t0.steps[k].depends_on.len() implies dep_done(
                ta.steps,
                #[trigger] t0.steps[k].depends_on[d],
            ) by {
                lemma_dep_done_mono(tr.steps, ta.steps, t0.steps[k].depends_on[d]);
            }
        }
    }
    assert forall|k: int|
        0 <= k < ta.steps.len() && ta.steps[k].status == StepStatus::Pending implies #[trigger] ta.steps[k].attempts
        < u32::MAX by {
        assert(ta.steps[k] == t0.steps[k] || started_step(t0.steps[k], ta.steps[k]));
    }
}

#[verifier::spinoff_prover]
proof fn lemma_dispatched_round(
    t0: TaskView,
    tb: TaskView,
    tr: TaskView,
    ta: TaskView,
    ready: Seq<usize>,
    db: Seq<StepDispatch>,
    da: Seq<StepDispatch>,
    ksb: Seq<int>,
    ksr: Seq<int>,
)
    requires
        dispatched(t0, tb, db, ksb),
        scheduled_from(t0, tb),
        tr == (TaskView { status: TaskStatus::Running, updated_at: tr.updated_at, ..tb }),
        ready_list(tr.steps, ready),
        round_steps_ok(tr, ready, ta),
        round_dispatch_ok(tr, ready, ta, db, da, ksr),
    ensures
        dispatched(t0, ta, da, ksb + ksr),
{
    reveal(round_dispatch_ok);
    lemma_round_steps_pending(tr, ready, ta);
    let ks = ksb + ksr;
    assert forall|j: int| 0 <= j < ksb.len() implies !in_list(ready, #[trigger] ksb[j]) && ta.steps[ksb[j]]
        == tb.steps[ksb[j]] by {
        if in_list(ready, ksb[j]) {
            lemma_in_ready(tr.steps, ready, ksb[j]);
        }
    }
    assert forall|j: int| 0 <= j < da.len() implies 0 <= #[trigger] ks[j] < t0.steps.len() && ks[j]
        < ta.steps.len() && t0.steps[ks[j]].status == StepStatus::Pending && ta.steps[ks[j]].status
        == StepStatus::Running && dispatch_for(da[j], ta, ks[j]) by {
        if j < ksb.len() {
            let k = ksb[j];
            assert(ks[j] == k);
            assert(da.take(db.len() as int)[j] == db[j]);
            assert(tb.steps[k] != t0.steps[k]);
            assert(dispatch_for(db[j], tr, k)) by {
                reveal(dispatch_for);
            }
            lemma_dispatch_stable(db[j], tr, ta, k);
        } else {
            let q = j - ksb.len();
            let k = ksr[q];
            assert(ks[j] == k);
            lemma_in_ready(tr.steps, ready, k);
            assert(tb.steps[k] == t0.steps[k]);
        }
    }
    assert forall|a: int, b: int| 0 <= a < b < ks.len() implies ks[a] != ks[b] by {
        if a < ksb.len() && b >= ksb.len() {
            assert(ks[a] == ksb[a]);
            assert(!in_list(ready, ksb[a]));
            assert(in_list(ready, ksr[b - ksb.len()]));
        }
    }
    assert forall|k: int|
        0 <= k < t0.steps.len() && t0.steps[k].status == StepStatus::Pending
            && #[trigger] ta.steps[k].status == StepStatus::Running implies exists|j: int|
        0 <= j < ks.len() && ks[j] == k by {
        if in_list(ready, k) {
            assert(started_step(tr.steps[k], ta.steps[k]));
            let q = choose|q: int| 0 <= q < ksr.len() && ksr[q] == k;
            assert(ks[ksb.len() + q] == k);
        } else {
            assert(ta.steps[k] == tb.steps[k]);
            let j = choose|j: int| 0 <= j < ksb.len() && ksb[j] == k;
            assert(ks[j] == k);
        }
    }
}

/// One more round keeps `order` a start order, once the steps it started are
/// appended; the steps listed before the round are left as they were.
#[verifier::spinoff_prover]
proof fn lemma_start_order_round(
    t0: TaskView,
    tb: TaskView,
    tr: TaskView,
    ta: TaskView,
    ready: Seq<usize>,
    order: Seq<int>,
)
    requires
        start_order(t0, tb, order),
        scheduled_from(t0, tb),
        tr == (TaskView { status: TaskStatus::Running, updated_at: tr.updated_at, ..tb }),
        ready_list(tr.steps, ready),
        round_steps_ok(tr, ready, ta),
    ensures
        start_order(t0, ta, order + as_ints(ready)),
        forall|j: int|
            0 <= j < order.len() ==> 0 <= #[trigger] order[j] < tb.steps.len() && order[j] < ta.steps.len()
                && tb.steps[order[j]] == ta.steps[order[j]],
{
    let ri = as_ints(ready);
    let o = order + ri;
    lemma_round_steps_pending(tr, ready, ta);
    assert forall|j: int| 0 <= j < order.len() implies 0 <= #[trigger] order[j] < tb.steps.len() && order[j]
        < ta.steps.len() && tb.steps[order[j]] == ta.steps[order[j]] by {
        let k = order[j];
        assert(tr.steps[k] == tb.steps[k]);
    }
    assert forall|q: int| 0 <= q < ri.len() implies #[trigger] ri[q] == ready[q] as int && is_ready(
        tr.steps,
        ri[q],
    ) by {
        assert(is_ready(tr.steps, ready[q] as int));
    }
    assert forall|j: int| 0 <= j < o.len() implies 0 <= #[trigger] o[j] < t0.steps.len() && o[j]
        < ta.steps.len() && t0.steps[o[j]].status == StepStatus::Pending && ta.steps[o[j]].status
        != StepStatus::Pending by {
        if j < order.len() {
            assert(o[j] == order[j]);
            let k = order[j];
            assert(tr.steps[k] == tb.steps[k]);
        } else {
            let q = j - order.len();
            assert(o[j] == ri[q]);
            let k = ri[q];
            assert(is_ready(tr.steps, k));
            assert(tb.steps[k] == t0.steps[k]);
            assert(in_list(ready, k)) by {
                assert(ready[q] as int == k);
            }
            assert(started_step(tr.steps[k], ta.steps[k]));
        }
    }
    assert forall|a: int, b: int| 0 <= a < b < o.len() implies o[a] != o[b] by {
        if b < order.len() {
            assert(o[a] == order[a] && o[b] == order[b]);
        } else if a >= order.len() {
            let qa = a - order.len();
            let qb = b - order.len();
            assert(o[a] == ri[qa] && o[b] == ri[qb]);
            assert(runs_before(tr.steps, ready[qa] as int, ready[qb] as int));
        } else {
            let qb = b - order.len();
            assert(o[a] == order[a] && o[b] == ri[qb]);
            assert(is_ready(tr.steps, ri[qb]));
            assert(tr.steps[order[a]] == tb.steps[order[a]]);
        }
    }
    assert forall|k: int|
        0 <= k < t0.steps.len() && t0.steps[k].status == StepStatus::Pending
            && #[trigger] ta.steps[k].status != StepStatus::Pending implies exists|j: int|
        0 <= j < o.len() && o[j] == k by {
        if in_list(ready, k) {
            let q = choose|q: int| 0 <= q < ready.len() && ready[q] == k;
            assert(o[order.len() + q] == ri[q]);
        } else {
            assert(ta.steps[k] == tr.steps[k]);
            assert(tb.steps[k].status != StepStatus::Pending);
            let j = choose|j: int| 0 <= j < order.len() && order[j] == k;
            assert(o[j] == order[j]);
        }
    }
}

proof fn lemma_no_new_ready(tr: TaskView, ready: Seq<usize>, ta: TaskView)
    requires
        ready_list(tr.steps, ready),
        round_steps_ok(tr, ready, ta),
        !any_planner_in(tr, ready),
    ensures
        forall|k: int| !is_ready(ta.steps, k),
{
    assert forall|k: int| !is_ready(ta.steps, k) by {
        if is_ready(ta.steps, k) {
            if in_list(ready, k) {
                assert(started_step(tr.steps[k], ta.steps[k]));
            }
            assert(ta.steps[k] == tr.steps[k]);
            assert forall|d: int| 0 <= d < tr.steps[k].depends_on.len() implies dep_done(
                tr.steps,
                #[trigger] tr.steps[k].depends_on[d],
            ) by {
                let dep = tr.steps[k].depends_on[d];
                assert(dep_done(ta.steps, ta.steps[k].depends_on[d]));
                let w = choose|w: int| 0 <= w < ta.steps.len() && ta.steps[w].id == dep && is_done(ta.steps[w].status);
                if in_list(ready, w) {
                    lemma_no_planner_in(tr, ready, w);
                    assert(started_step(tr.steps[w], ta.steps[w]));
                }
                assert(ta.steps[w] == tr.steps[w]);
            }
            assert(is_ready(tr.steps, k));
            assert(in_list(ready, k));
        }
    }
}

impl TaskRuntime {
    /// Starts every ready step of a task, round after round while the
    /// runtime itself completes planner steps, and returns the steps handed
    /// out to agents. A finished task is left alone. Afterwards the task runs
    /// (or has completed, when every step is done) and no pending step is
    /// ready.
    pub fn advance_task(&mut self, task_id: &str) -> (ds: Vec<StepDispatch>)
        requires
            old(self).wf(),
            match lookup_task(old(self).tasks_v(), task_id@) {
                Some(t) => pending_attempts_ok(t.steps),
                None => true,
            },
        ensures
            final(self).wf(),
            match lookup_task(old(self).tasks_v(), task_id@) {
                Some(t) => exists|t3: TaskView, em: Seq<EventView>|
                    advance_outcome(t, ds@, t3, em) && changed_one(
                        old(self).tasks_v(),
                        final(self).tasks_v(),
                        old(self).events_v(),
                        final(self).events_v(),
                        task_id@,
                        t3,
                        em,
                    ),
                None => ds@.len() == 0 && final(self).tasks_v() == old(self).tasks_v()
                    && final(self).events_v() == old(self).events_v(),
            },
    {
        let i = match self.find_index(task_id) {
            Some(i) => i,
            None => return Vec::new(),
        };
        if task_status_is_terminal(self.tasks[i].status) {
            proof {
                lemma_changed_none(old(self).tasks_v(), old(self).events_v(), task_id@);
                let t = old(self).tasks_v()[i as int];
                assert(advance_outcome(t, Seq::<StepDispatch>::empty(), t, Seq::<EventView>::empty()));
            }
            let ds: Vec<StepDispatch> = Vec::new();
            assert(ds@ =~= Seq::<StepDispatch>::empty());
            return ds;
        }
        let mut task = self.tasks[i].duplicate();
        let ghost t0 = task@;
        let mut dispatches: Vec<StepDispatch> = Vec::new();
        let mut emitted: Vec<TaskEvent> = Vec::new();
        let ghost mut ks_all: Seq<int> = Seq::empty();
        let ghost mut order_all: Seq<int> = Seq::empty();
        proof {
            assert(t0 == old(self).tasks_v()[i as int]);
                assert(event_views(emitted@) =~= Seq::<EventView>::empty());
        }
        loop
            invariant
                scheduled_from(t0, task@),
                pending_attempts_ok(task@.steps),
                pending_attempts_ok(t0.steps),
                dispatched(t0, task@, dispatches@, ks_all),
                start_order(t0, task@, order_all),
                event_views(emitted@) == events_in_order(task@, order_all),
            ensures
                scheduled_from(t0, task@),
                dispatched(t0, task@, dispatches@, ks_all),
                task@.status == TaskStatus::Running,
                forall|k: int| !is_ready(task@.steps, k),
                start_order(t0, task@, order_all),
                event_views(emitted@) == events_in_order(task@, order_all),
            decreases count_status(task@.steps, StepStatus::Pending),
        {
            let ghost tb = task@;
            let ghost db = dispatches@;
            let ghost eb = event_views(emitted@);
            task.status = TaskStatus::Running;
            task.touch();
            let ghost tr = task@;
            proof {
                lemma_touch_pending(tb, tr);
                assert(dispatched(t0, tr, db, ks_all)) by {
                    reveal(dispatch_for);
                }
                assert(tr.steps == tb.steps);
                lemma_events_in_order_stable(tb, tr, order_all);
            }
            let ready = ready_step_indices(&task);
            if ready.len() == 0 {
                break;
            }
            let (planner, Ghost(ksr)) = start_round(&mut task, &ready, &mut dispatches, &mut emitted);
            proof {
                let ta = task@;
                lemma_sched_round(t0, tb, tr, ready@, ta);
                lemma_dispatched_round(t0, tb, tr, ta, ready@, db, dispatches@, ks_all, ksr);
                ks_all = ks_all + ksr;
                lemma_start_order_round(t0, tb, tr, ta, ready@, order_all);
                lemma_events_in_order_stable(tb, ta, order_all);
                lemma_events_in_order_concat(ta, order_all, as_ints(ready@));
                order_all = order_all + as_ints(ready@);
                lemma_round_steps_pending(tr, ready@, ta);
                let k0 = ready@[0] as int;
                lemma_in_list_push(Seq::<usize>::empty(), ready@[0], k0);
                assert(in_list(ready@, k0));
                lemma_in_ready(tr.steps, ready@, k0);
                assert(started_step(tr.steps[k0], ta.steps[k0]));
                lemma_pending_count_lt(tr.steps, ta.steps, k0);
                if !planner {
                    lemma_no_new_ready(tr, ready@, ta);
                }
            }
            if !planner {
                break;
            }
        }
        let ghost t2 = task@;
        let ghost e1 = event_views(emitted@);
        complete_task_if_ready(&mut task, &mut emitted);
        proof {
                assert(start_order(t0, t2, order_all));
            assert(scheduling_events(t0, t2, e1));
            assert(dispatches_for(t0, t2, dispatches@));
            assert(task@.id == t0.id);
            lemma_replace_keeps_unique(old(self).tasks_v(), i as int, task@);
        }
        let ghost e12 = event_views(emitted@);
        let ghost t3 = task@;
        self.store_task(i, task);
        self.extend_events(emitted);
        proof {
            let em2 = choose|em: Seq<EventView>| completed_if_ready(t2, t3, em) && e12 == e1 + em;
            assert(advanced_task(t0, t2) && dispatches_for(t0, t2, dispatches@) && scheduling_events(t0, t2, e1)
                && completed_if_ready(t2, t3, em2) && e12 == e1 + em2);
            assert(advance_outcome(t0, dispatches@, t3, e12));
        }
        dispatches
    }
}


// ------------------------------------------------------------------
// Replies, skips and retries followed by scheduling
// ------------------------------------------------------------------
/// Whether the task with id `id`, if there is one, can count one more
/// attempt for each of its pending steps.
pub open spec fn can_advance(ts: Seq<TaskView>, id: Seq<char>) -> bool {
    match lookup_task(ts, id) {
        Some(t) => pending_attempts_ok(t.steps),
        None => true,
    }
}

/// Whether every step a retry puts back to pending can count one more attempt.
pub open spec fn retry_attempts_ok(steps: Seq<StepView>) -> bool {
    forall|k: int|
        0 <= k < steps.len() && retry_resets(#[trigger] steps[k].status) ==> steps[k].attempts
            < u32::MAX
}

proof fn lemma_replied_pending(
    t: TaskView,
    t1: TaskView,
    e1: Seq<EventView>,
    agent: Seq<char>,
    content: Seq<char>,
    ctx: Json,
)
    requires
        replied_task(t, t1, e1, agent, content, ctx),
        pending_attempts_ok(t.steps),
    ensures
        pending_attempts_ok(t1.steps),
        t1.id == t.id,
{
    reveal(replied_task);
    match first_running(t.steps, agent, ctx_step_id(ctx), ctx_step_attempt(ctx)) {
        Some(j) => {
            assert forall|k: int|
                0 <= k < t1.steps.len() && t1.steps[k].status == StepStatus::Pending implies #[trigger] t1.steps[k].attempts
                < u32::MAX by {
                if k != j {
                    assert(t1.steps[k] == t.steps[k]);
                }
            }
        },
        None => {},
    }
}

proof fn lemma_retried_pending(t: TaskView, t2: TaskView)
    requires
        retried_task(t, t2),
        retry_attempts_ok(t.steps),
    ensures
        pending_attempts_ok(t2.steps),
{
    assert forall|k: int|
        0 <= k < t2.steps.len() && t2.steps[k].status == StepStatus::Pending implies #[trigger] t2.steps[k].attempts
        < u32::MAX by {
        assert(retried_step(t.steps[k], t2.steps[k]));
    }
}

impl TaskRuntime {
    /// Whether the pending steps of task `task_id` can be started (each can
    /// count one more attempt).
    pub fn can_advance(&self, task_id: &str) -> (b: bool)
        requires
            self.wf(),
        ensures
            b == can_advance(self.tasks_v(), task_id@),
    {
        match self.find_index(task_id) {
            None => true,
            Some(i) => {
                let steps = &self.tasks[i].steps;
                let ghost sv = self.tasks_v()[i as int].steps;
                assert(sv == step_views(steps@));
                assert(can_advance(self.tasks_v(), task_id@) == pending_attempts_ok(sv));
                let mut k: usize = 0;
                while k < steps.len()
                    invariant
                        sv == step_views(steps@),
                        can_advance(self.tasks_v(), task_id@) == pending_attempts_ok(sv),
                        i < self.tasks@.len(),
                        steps == &self.tasks@[i as int].steps,
                        k <= steps@.len(),
                        forall|j: int|
                            0 <= j < k && step_views(steps@)[j].status == StepStatus::Pending
                                ==> step_views(steps@)[j].attempts < u32::MAX,
                    decreases steps.len() - k,
                {
                    assert(step_views(steps@)[k as int] == steps@[k as int]@);
                    if steps[k].status == StepStatus::Pending && steps[k].attempts == u32::MAX {
                        assert(sv[k as int] == steps@[k as int]@);
                        return false;
                    }
                    k += 1;
                }
                assert(self.tasks_v()[i as int].steps == step_views(steps@));
                true
            },
        }
    }

    /// Records an agent's reply and schedules what follows: the matching
    /// running step completes, the task completes when every step is done,
    /// and otherwise further ready steps start. A cancelled task ignores
    /// late replies.
    pub fn complete_running_step(
        &mut self,
        task_id: &str,
        agent_name: &str,
        content: &str,
        context: JsonValue,
    ) -> (ds: Vec<StepDispatch>)
        requires
            old(self).wf(),
            can_advance(old(self).tasks_v(), task_id@),
        ensures
            final(self).wf(),
            match lookup_task(old(self).tasks_v(), task_id@) {
                Some(t) => if t.status == TaskStatus::Cancelled {
                    ds@.len() == 0 && final(self).tasks_v() == old(self).tasks_v()
                        && final(self).events_v() == old(self).events_v()
                } else {
                    exists|
                        t1: TaskView,
                        e1: Seq<EventView>,
                        t2: TaskView,
                        e2: Seq<EventView>,
                        t3: TaskView,
                        e3: Seq<EventView>,
                    |
                        replied_task(t, t1, e1, agent_name@, content@, jv(context))
                            && completed_if_ready(t1, t2, e2) && advance_outcome(t2, ds@, t3, e3)
                            && changed_one(
                            old(self).tasks_v(),
                            final(self).tasks_v(),
                            old(self).events_v(),
                            final(self).events_v(),
                            task_id@,
                            t3,
                            e1 + e2 + e3,
                        )
                },
                None => ds@.len() == 0 && final(self).tasks_v() == old(self).tasks_v()
                    && final(self).events_v() == old(self).events_v(),
            },
    {
        let ghost cj = jv(context);
        let proceed = self.record_reply(task_id, agent_name, content, context);
        if !proceed {
            return Vec::new();
        }
        let ghost ts1 = self.tasks_v();
        let ghost ev1 = self.events_v();
        proof {
            let t = lookup_task(old(self).tasks_v(), task_id@)->0;
            let (t1, e1, t2, e2) = choose|t1: TaskView, e1: Seq<EventView>, t2: TaskView, e2: Seq<EventView>|
                replied_task(t, t1, e1, agent_name@, content@, cj) && completed_if_ready(t1, t2, e2)
                    && changed_one(old(self).tasks_v(), ts1, old(self).events_v(), ev1, task_id@, t2, e1 + e2);
            lemma_replied_pending(t, t1, e1, agent_name@, content@, cj);
            assert(t2.steps == t1.steps && t2.id == t1.id);
            lemma_lookup_replace(old(self).tasks_v(), task_id@, t2);
        }
        let ds = self.advance_task(task_id);
        proof {
            let t = lookup_task(old(self).tasks_v(), task_id@)->0;
            let (t1, e1, t2, e2) = choose|t1: TaskView, e1: Seq<EventView>, t2: TaskView, e2: Seq<EventView>|
                replied_task(t, t1, e1, agent_name@, content@, cj) && completed_if_ready(t1, t2, e2)
                    && changed_one(old(self).tasks_v(), ts1, old(self).events_v(), ev1, task_id@, t2, e1 + e2);
            lemma_replied_pending(t, t1, e1, agent_name@, content@, cj);
            lemma_lookup_replace(old(self).tasks_v(), task_id@, t2);
            let (t3, e3) = choose|t3: TaskView, e3: Seq<EventView>|
                advance_outcome(t2, ds@, t3, e3) && changed_one(ts1, self.tasks_v(), ev1, self.events_v(), task_id@, t3, e3);
            lemma_changed_chain(
                old(self).tasks_v(),
                ts1,
                self.tasks_v(),
                old(self).events_v(),
                ev1,
                self.events_v(),
                task_id@,
                t2,
                t3,
                e1 + e2,
                e3,
            );
        }
        ds
    }
}


/// What retrying task `t` leads to: the task is reset (`retried_task`);
/// one without steps waits for a plan, any other is advanced.
pub open spec fn retry_outcome(t: TaskView, ds: Seq<StepDispatch>, t3: TaskView, e3: Seq<EventView>) -> bool {
    exists|t2: TaskView|
        retried_task(t, t2) && if t.steps.len() == 0 {
            t3 == t2 && e3 == Seq::<EventView>::empty() && ds.len() == 0
        } else {
            advance_outcome(t2, ds, t3, e3)
        }
}

impl TaskRuntime {
    /// Skips step `step_id` of task `task_id` on the user's behalf and
    /// schedules what follows. `None`: no such task or step. A cancelled
    /// task, or a step that already finished, is returned unchanged with no
    /// dispatches. Otherwise the step is skipped (a failed or waiting task
    /// resumes), the task completes when every step is done, and further
    /// ready steps start; the result holds the task as stored afterwards.
    #[verifier::spinoff_prover]
    pub fn skip_step(&mut self, task_id: &str, step_id: &str, reason: &str) -> (r: Option<SkipStepResult>)
        requires
            old(self).wf(),
            can_advance(old(self).tasks_v(), task_id@),
        ensures
            final(self).wf(),
            match lookup_task(old(self).tasks_v(), task_id@) {
                None => r is None && final(self).tasks_v() == old(self).tasks_v()
                    && final(self).events_v() == old(self).events_v(),
                Some(t) => match first_step_with_id(t.steps, step_id@) {
                    None => (if t.status == TaskStatus::Cancelled {
                        r is Some && r->0.task@ == t && r->0.dispatches@.len() == 0
                    } else {
                        r is None
                    }) && final(self).tasks_v() == old(self).tasks_v() && final(self).events_v()
                        == old(self).events_v(),
                    Some(k) => if t.status == TaskStatus::Cancelled || is_done(t.steps[k].status) {
                        r is Some && r->0.task@ == t && r->0.dispatches@.len() == 0
                            && final(self).tasks_v() == old(self).tasks_v() && final(self).events_v()
                            == old(self).events_v()
                    } else {
                        r is Some && exists|
                            t1: TaskView,
                            t2: TaskView,
                            e2: Seq<EventView>,
                            t3: TaskView,
                            e3: Seq<EventView>,
                        |
                            skipped_task(t, t1, k, reason@) && completed_if_ready(t1, t2, e2)
                                && advance_outcome(t2, r->0.dispatches@, t3, e3) && r->0.task@ == t3
                                && changed_one(
                                old(self).tasks_v(),
                                final(self).tasks_v(),
                                old(self).events_v(),
                                final(self).events_v(),
                                task_id@,
                                t3,
                                seq![skipped_event(t.id, t.steps[k].id, reason@)] + e2 + e3,
                            )
                    },
                },
            },
    {
        match self.skip_step_only(task_id, step_id, reason) {
            None => None,
            Some(false) => match self.get_task(task_id) {
                Some(task) => Some(SkipStepResult { task, dispatches: Vec::new() }),
                None => None,
            },
            Some(true) => {
                let ghost ts1 = self.tasks_v();
                let ghost ev1 = self.events_v();
                let ghost t = lookup_task(old(self).tasks_v(), task_id@)->0;
                let ghost k = first_step_with_id(t.steps, step_id@)->0;
                let ghost em1 = seq![skipped_event(t.id, t.steps[k].id, reason@)];
                let ghost (t1, t2, e2): (TaskView, TaskView, Seq<EventView>) = choose|t1: TaskView, t2: TaskView, e2: Seq<EventView>|
                    skipped_task(t, t1, k, reason@) && completed_if_ready(t1, t2, e2)
                        && changed_one(old(self).tasks_v(), ts1, old(self).events_v(), ev1, task_id@, t2, em1 + e2);
                proof {
                    lemma_first_step_found(t.steps, step_id@);
                    assert(t2.steps == t1.steps);
                    assert forall|m: int|
                        0 <= m < t2.steps.len() && t2.steps[m].status == StepStatus::Pending implies #[trigger] t2.steps[m].attempts
                        < u32::MAX by {
                        if m != k {
                            assert(t2.steps[m] == t.steps[m]);
                        }
                    }
                    lemma_lookup_replace(old(self).tasks_v(), task_id@, t2);
                }
                let ds = self.advance_task(task_id);
                let ghost ds_v = ds@;
                let ghost ts2 = self.tasks_v();
                let ghost ev2 = self.events_v();
                let res = match self.get_task(task_id) {
                    Some(task) => Some(SkipStepResult { task, dispatches: ds }),
                    None => None,
                };
                proof {
                    let (t3, e3) = choose|t3: TaskView, e3: Seq<EventView>|
                        advance_outcome(t2, ds_v, t3, e3) && changed_one(ts1, ts2, ev1, ev2, task_id@, t3, e3);
                    lemma_changed_chain(old(self).tasks_v(), ts1, ts2, old(self).events_v(), ev1, ev2, task_id@, t2, t3, em1 + e2, e3);
                    lemma_lookup_replace(old(self).tasks_v(), task_id@, t3);
                    assert(res is Some && res->0.task@ == t3 && res->0.dispatches@ == ds_v);
                    assert(skipped_task(t, t1, k, reason@) && completed_if_ready(t1, t2, e2)
                        && advance_outcome(t2, res->0.dispatches@, t3, e3) && res->0.task@ == t3
                        && changed_one(old(self).tasks_v(), ts2, old(self).events_v(), ev2, task_id@, t3, em1 + e2 + e3));
                }
                res
            },
        }
    }

    /// Retries a failed or cancelled task: its unfinished steps go back to
    /// pending, a `Retried` event is recorded, and scheduling resumes (a task
    /// without steps waits for a new plan instead). `None`: no such task. A
    /// task that is neither failed nor cancelled is returned unchanged.
    pub fn retry_task(&mut self, task_id: &str, reason: &str) -> (r: Option<RetryTaskResult>)
        requires
            old(self).wf(),
            match lookup_task(old(self).tasks_v(), task_id@) {
                Some(t) => (t.status == TaskStatus::Failed || t.status == TaskStatus::Cancelled)
                    ==> retry_attempts_ok(t.steps),
                None => true,
            },
        ensures
            final(self).wf(),
            match lookup_task(old(self).tasks_v(), task_id@) {
                None => r is None && final(self).tasks_v() == old(self).tasks_v()
                    && final(self).events_v() == old(self).events_v(),
                Some(t) => r is Some && if !(t.status == TaskStatus::Failed || t.status
                    == TaskStatus::Cancelled) {
                    r->0.task@ == t && r->0.dispatches@.len() == 0 && !r->0.needs_planner
                        && final(self).tasks_v() == old(self).tasks_v() && final(self).events_v()
                        == old(self).events_v()
                } else {
                    r->0.needs_planner == (t.steps.len() == 0) && exists|t3: TaskView, e3: Seq<EventView>|
                        retry_outcome(t, r->0.dispatches@, t3, e3) && r->0.task@ == t3 && changed_one(
                            old(self).tasks_v(),
                            final(self).tasks_v(),
                            old(self).events_v(),
                            final(self).events_v(),
                            task_id@,
                            t3,
                            seq![retried_event(t.id, reason@)] + e3,
                        )
                },
            },
    {
        match self.retry_only(task_id, reason) {
            None => None,
            Some(None) => match self.get_task(task_id) {
                Some(task) => Some(RetryTaskResult { task, dispatches: Vec::new(), needs_planner: false }),
                None => None,
            },
            Some(Some(needs_planner)) => {
                let ghost ts1 = self.tasks_v();
                let ghost ev1 = self.events_v();
                let ghost t = lookup_task(old(self).tasks_v(), task_id@)->0;
                let ghost em1 = seq![retried_event(t.id, reason@)];
                let ghost t2 = choose|t2: TaskView|
                    retried_task(t, t2) && changed_one(old(self).tasks_v(), ts1, old(self).events_v(), ev1, task_id@, t2, em1);
                proof {
                    lemma_retried_pending(t, t2);
                    lemma_lookup_replace(old(self).tasks_v(), task_id@, t2);
                }
                let ds = if needs_planner {
                    Vec::new()
                } else {
                    self.advance_task(task_id)
                };
                let ghost ds_v = ds@;
                let res = match self.get_task(task_id) {
                    Some(task) => Some(RetryTaskResult { task, dispatches: ds, needs_planner }),
                    None => None,
                };
                proof {
                    lemma_lookup_replace(old(self).tasks_v(), task_id@, t2);
                    if needs_planner {
                        assert(em1 + Seq::<EventView>::empty() =~= em1);
                        assert(ds_v =~= Seq::<StepDispatch>::empty());
                        assert(res is Some && res->0.task@ == t2 && res->0.dispatches@ == ds_v);
                        assert(t.steps.len() == 0);
                        let e3 = Seq::<EventView>::empty();
                        assert(retry_outcome(t, res->0.dispatches@, t2, e3));
                        assert(changed_one(old(self).tasks_v(), self.tasks_v(), old(self).events_v(), self.events_v(), task_id@, t2, em1 + e3));
                    } else {
                        let (t3, e3) = choose|t3: TaskView, e3: Seq<EventView>|
                            advance_outcome(t2, ds_v, t3, e3) && changed_one(ts1, self.tasks_v(), ev1, self.events_v(), task_id@, t3, e3);
                        lemma_changed_chain(
                            old(self).tasks_v(),
                            ts1,
                            self.tasks_v(),
                            old(self).events_v(),
                            ev1,
                            self.events_v(),
                            task_id@,
                            t2,
                            t3,
                            em1,
                            e3,
                        );
                        lemma_lookup_replace(old(self).tasks_v(), task_id@, t3);
                        assert(res is Some && res->0.task@ == t3 && res->0.dispatches@ == ds_v);
                        assert(t.steps.len() != 0);
                        assert(retry_outcome(t, res->0.dispatches@, t3, e3));
                    }
                }
                res
            },
        }
    }
}

} // verus!
