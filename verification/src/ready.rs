//! Which steps of a task may run, and what a dispatched step is told.
use vstd::prelude::*;
use crate::json::{Json, JsonValue, jv, jv_fields, object, push_field, jstr};
use crate::task::{
    EventView, StepStatus, StepView, Task, TaskEvent, TaskEventKind, TaskStatus, TaskStep, TaskView,
    is_done, is_terminal, opt_ref_str, step_views, task_status_is_terminal,
};
use crate::text::{concat2, decimal, decimal_string, own, push_str, str_eq};

verus! {

broadcast use vstd::std_specs::vec::group_vec_axioms;

// ------------------------------------------------------------------
// Step lookup and readiness
// ------------------------------------------------------------------
/// The ids of the steps, in order.
pub open spec fn step_ids(steps: Seq<StepView>) -> Seq<Seq<char>> {
    steps.map_values(|s: StepView| s.id)
}

/// The first position of `id` in `ids`.
pub open spec fn first_index_of(ids: Seq<Seq<char>>, id: Seq<char>) -> Option<int> {
    if exists|k: int| 0 <= k < ids.len() && ids[k] == id {
        Some(choose|k: int| 0 <= k < ids.len() && ids[k] == id && forall|j: int| 0 <= j < k ==> ids[j] != id)
    } else {
        None
    }
}

/// The first position of a step with id `id`.
pub open spec fn first_step_with_id(steps: Seq<StepView>, id: Seq<char>) -> Option<int> {
    first_index_of(step_ids(steps), id)
}

pub proof fn lemma_first_step_unique(steps: Seq<StepView>, id: Seq<char>, k: int)
    requires
        0 <= k < steps.len(),
        steps[k].id == id,
        forall|j: int| 0 <= j < k ==> steps[j].id != id,
    ensures
        first_step_with_id(steps, id) == Some(k),
{
    let ids = step_ids(steps);
    assert(ids[k] == id);
    assert forall|j: int| 0 <= j < k implies ids[j] != id by {
        assert(ids[j] == steps[j].id);
    }
    let c = choose|c: int| 0 <= c < ids.len() && ids[c] == id && forall|j: int| 0 <= j < c ==> ids[j] != id;
    assert(c == k) by {
        if c < k {
            assert(ids[c] != id);
        }
        if k < c {
            assert(ids[k] != id);
        }
    }
}

proof fn lemma_first_index_exists(ids: Seq<Seq<char>>, id: Seq<char>, k0: int)
    requires
        0 <= k0 < ids.len(),
        ids[k0] == id,
    ensures
        exists|k: int| 0 <= k < ids.len() && ids[k] == id && forall|j: int| 0 <= j < k ==> ids[j] != id,
    decreases k0,
{
    if exists|j: int| 0 <= j < k0 && ids[j] == id {
        let j = choose|j: int| 0 <= j < k0 && ids[j] == id;
        lemma_first_index_exists(ids, id, j);
    } else {
        assert(forall|j: int| 0 <= j < k0 ==> ids[j] != id);
    }
}

/// A step found by id is in range, has that id, and no earlier step has it.
pub proof fn lemma_first_step_found(steps: Seq<StepView>, id: Seq<char>)
    requires
        first_step_with_id(steps, id) is Some,
    ensures
        0 <= first_step_with_id(steps, id)->0 < steps.len(),
        steps[first_step_with_id(steps, id)->0].id == id,
        forall|j: int| 0 <= j < first_step_with_id(steps, id)->0 ==> steps[j].id != id,
{
    let ids = step_ids(steps);
    let k0 = choose|k: int| 0 <= k < ids.len() && ids[k] == id;
    lemma_first_index_exists(ids, id, k0);
    let k = first_step_with_id(steps, id)->0;
    assert(ids[k] == steps[k].id);
    assert forall|j: int| 0 <= j < k implies steps[j].id != id by {
        assert(ids[j] == steps[j].id);
    }
}

/// Whether no step has the id `id`.
pub proof fn lemma_first_step_none(steps: Seq<StepView>, id: Seq<char>)
    requires
        forall|j: int| 0 <= j < steps.len() ==> steps[j].id != id,
    ensures
        first_step_with_id(steps, id) is None,
{
    let ids = step_ids(steps);
    assert forall|j: int| 0 <= j < ids.len() implies ids[j] != id by {
        assert(ids[j] == steps[j].id);
    }
}

/// The first position of a step with id `id`.
pub fn find_step(steps: &Vec<TaskStep>, id: &str) -> (r: Option<usize>)
    ensures
        match r {
            Some(k) => first_step_with_id(step_views(steps@), id@) == Some(k as int) && k
                < steps@.len(),
            None => first_step_with_id(step_views(steps@), id@) is None,
        },
{
    let mut k: usize = 0;
    while k < steps.len()
        invariant
            k <= steps@.len(),
            forall|j: int| 0 <= j < k ==> step_views(steps@)[j].id != id@,
        decreases steps.len() - k,
    {
        if str_eq(steps[k].id.as_str(), id) {
            proof {
                lemma_first_step_unique(step_views(steps@), id@, k as int);
            }
            return Some(k);
        }
        assert(step_views(steps@)[k as int].id == steps@[k as int].id@);
        k += 1;
    }
    proof {
        lemma_first_step_none(step_views(steps@), id@);
    }
    None
}

/// Whether a dependency `dep` names a step that is `Completed` or `Skipped`.
pub open spec fn dep_done(steps: Seq<StepView>, dep: Seq<char>) -> bool {
    exists|k: int| 0 <= k < steps.len() && steps[k].id == dep && is_done(steps[k].status)
}

/// Whether step `i` is pending and all its dependencies are done.
pub open spec fn is_ready(steps: Seq<StepView>, i: int) -> bool {
    &&& 0 <= i < steps.len()
    &&& steps[i].status == StepStatus::Pending
    &&& forall|d: int|
        0 <= d < steps[i].depends_on.len() ==> dep_done(steps, #[trigger] steps[i].depends_on[d])
}

/// Whether step `a` is scheduled before step `b`: lower `order` first, then
/// lower position.
pub open spec fn runs_before(steps: Seq<StepView>, a: int, b: int) -> bool {
    steps[a].order < steps[b].order || (steps[a].order == steps[b].order && a < b)
}

/// `r` lists exactly the ready steps, in scheduling order.
pub open spec fn ready_list(steps: Seq<StepView>, r: Seq<usize>) -> bool {
    &&& forall|k: int| 0 <= k < r.len() ==> is_ready(steps, #[trigger] r[k] as int)
    &&& forall|i: int| is_ready(steps, i) ==> exists|k: int| 0 <= k < r.len() && r[k] == i
    &&& forall|a: int, b: int| 0 <= a < b < r.len() ==> runs_before(steps, r[a] as int, r[b] as int)
}

/// Whether the dependency `dep` names a finished step.
fn dependency_done(steps: &Vec<TaskStep>, dep: &str) -> (b: bool)
    ensures
        b == dep_done(step_views(steps@), dep@),
{
    let mut k: usize = 0;
    while k < steps.len()
        invariant
            k <= steps@.len(),
            forall|j: int|
                0 <= j < k ==> !(step_views(steps@)[j].id == dep@ && is_done(
                    step_views(steps@)[j].status,
                )),
        decreases steps.len() - k,
    {
        if str_eq(steps[k].id.as_str(), dep) && matches!(
            steps[k].status,
            StepStatus::Completed | StepStatus::Skipped
        ) {
            assert(step_views(steps@)[k as int].id == steps@[k as int].id@);
            return true;
        }
        assert(step_views(steps@)[k as int].id == steps@[k as int].id@);
        k += 1;
    }
    false
}

/// Whether step `i` is ready to start.
pub fn step_is_ready(steps: &Vec<TaskStep>, i: usize) -> (b: bool)
    requires
        i < steps@.len(),
    ensures
        b == is_ready(step_views(steps@), i as int),
{
    if steps[i].status != StepStatus::Pending {
        return false;
    }
    let deps = &steps[i].depends_on;
    let mut d: usize = 0;
    while d < deps.len()
        invariant
            i < steps@.len(),
            deps == &steps@[i as int].depends_on,
            d <= deps@.len(),
            forall|e: int|
                0 <= e < d ==> dep_done(
                    step_views(steps@),
                    #[trigger] step_views(steps@)[i as int].depends_on[e],
                ),
        decreases deps.len() - d,
    {
        assert(step_views(steps@)[i as int].depends_on[d as int] == deps@[d as int]@);
        if !dependency_done(steps, deps[d].as_str()) {
            return false;
        }
        d += 1;
    }
    true
}

/// `v` with `x` inserted at position `p`.
fn insert_index(v: &Vec<usize>, p: usize, x: usize) -> (r: Vec<usize>)
    requires
        p <= v@.len(),
    ensures
        r@ == v@.take(p as int).push(x) + v@.skip(p as int),
{
    let mut r: Vec<usize> = Vec::new();
    let mut k: usize = 0;
    while k < p
        invariant
            k <= p <= v@.len(),
            r@ == v@.take(k as int),
        decreases p - k,
    {
        r.push(v[k]);
        k += 1;
        assert(r@ =~= v@.take(k as int));
    }
    r.push(x);
    while k < v.len()
        invariant
            p <= k <= v@.len(),
            r@ == v@.take(p as int).push(x) + v@.subrange(p as int, k as int),
        decreases v.len() - k,
    {
        r.push(v[k]);
        k += 1;
        assert(r@ =~= v@.take(p as int).push(x) + v@.subrange(p as int, k as int));
    }
    assert(v@.subrange(p as int, v@.len() as int) =~= v@.skip(p as int));
    r
}

/// The ready steps of `task`, ordered by `order` and then by position.
pub fn ready_step_indices(task: &Task) -> (r: Vec<usize>)
    ensures
        ready_list(task@.steps, r@),
{
    let steps = &task.steps;
    let ghost sv = step_views(steps@);
    let mut out: Vec<usize> = Vec::new();
    let mut i: usize = 0;
    while i < steps.len()
        invariant
            steps == &task.steps,
            sv == step_views(steps@),
            i <= steps@.len(),
            forall|k: int| 0 <= k < out@.len() ==> is_ready(sv, #[trigger] out@[k] as int),
            forall|k: int| 0 <= k < out@.len() ==> #[trigger] out@[k] < i,
            forall|j: int|
                0 <= j < i && is_ready(sv, j) ==> exists|k: int| 0 <= k < out@.len() && out@[k] == j,
            forall|a: int, b: int|
                0 <= a < b < out@.len() ==> runs_before(sv, out@[a] as int, out@[b] as int),
        decreases steps.len() - i,
    {
        if step_is_ready(steps, i) {
            let mut p: usize = 0;
            while p < out.len() && steps[out[p]].order <= steps[i].order
                invariant
                    steps == &task.steps,
                    sv == step_views(steps@),
                    i < steps@.len(),
                    p <= out@.len(),
                    forall|k: int| 0 <= k < out@.len() ==> #[trigger] out@[k] < i,
                    forall|k: int| 0 <= k < p ==> sv[#[trigger] out@[k] as int].order <= sv[i as int].order,
                decreases out.len() - p,
            {
                assert(sv[out@[p as int] as int].order == steps@[out@[p as int] as int].order);
                p += 1;
            }
            proof {
                if p < out@.len() {
                    assert(sv[out@[p as int] as int].order == steps@[out@[p as int] as int].order);
                    assert(sv[out@[p as int] as int].order > sv[i as int].order);
                }
            }
            let ghost old_out = out@;
            out = insert_index(&out, p, i);
            proof {
                let n = out@;
                assert forall|k: int| 0 <= k < n.len() implies is_ready(sv, #[trigger] n[k] as int) by {
                    if k < p {
                        assert(n[k] == old_out[k]);
                    } else if k > p {
                        assert(n[k] == old_out[k - 1]);
                    }
                }
                assert forall|k: int| 0 <= k < n.len() implies #[trigger] n[k] < i + 1 by {
                    if k < p {
                        assert(n[k] == old_out[k]);
                    } else if k > p {
                        assert(n[k] == old_out[k - 1]);
                    }
                }
                assert forall|j: int|
                    0 <= j < i + 1 && is_ready(sv, j) implies exists|k: int|
                        0 <= k < n.len() && n[k] == j by {
                    if j == i {
                        assert(n[p as int] == i);
                    } else {
                        let k = choose|k: int| 0 <= k < old_out.len() && old_out[k] == j;
                        if k < p {
                            assert(n[k] == j);
                        } else {
                            assert(n[k + 1] == j);
                        }
                    }
                }
                assert forall|a: int, b: int| 0 <= a < b < n.len() implies runs_before(
                    sv,
                    n[a] as int,
                    n[b] as int,
                ) by {
                    if a < p && b < p {
                        assert(n[a] == old_out[a] && n[b] == old_out[b]);
                    } else if a < p && b == p {
                        assert(n[a] == old_out[a]);
                    } else if a < p && b > p {
                        assert(n[a] == old_out[a] && n[b] == old_out[b - 1]);
                    } else if a == p {
                        assert(n[b] == old_out[b - 1]);
                        if p < old_out.len() {
                            assert(runs_before(sv, old_out[p as int] as int, old_out[b - 1] as int)
                                || b - 1 == p);
                        }
                    } else {
                        assert(n[a] == old_out[a - 1] && n[b] == old_out[b - 1]);
                    }
                }
            }
        }
        i += 1;
    }
    out
}


// ------------------------------------------------------------------
// Dispatch context
// ------------------------------------------------------------------
/// How a finished dependency is described to the step that needs it.
pub open spec fn dep_result_json(s: StepView) -> Json {
    Json::Object(
        seq![
            ("stepId"@, Json::Str(s.id)),
            ("agentId"@, Json::Str(s.agent_id)),
            ("instruction"@, Json::Str(s.instruction)),
            ("result"@, match s.result {
                Some(j) => j,
                None => Json::Null,
            }),
        ],
    )
}

/// Descriptions of the dependencies `deps` that name an existing step (the
/// first step with that id), in the order of `deps`.
pub open spec fn dep_results(steps: Seq<StepView>, deps: Seq<Seq<char>>) -> Seq<Json>
    decreases deps.len(),
{
    if deps.len() == 0 {
        Seq::empty()
    } else {
        let r = dep_results(steps, deps.drop_last());
        match first_step_with_id(steps, deps.last()) {
            Some(k) => r.push(dep_result_json(steps[k])),
            None => r,
        }
    }
}

/// A list of texts as a JSON array of strings.
pub open spec fn str_array(v: Seq<Seq<char>>) -> Json {
    Json::Array(Seq::new(v.len(), |k: int| Json::Str(v[k])))
}

/// The context sent along with step `i` of task `t`.
pub open spec fn dispatch_context(t: TaskView, i: int) -> Json {
    let s = t.steps[i];
    Json::Object(
        seq![
            ("taskId"@, Json::Str(t.id)),
            ("taskGoal"@, Json::Str(t.user_goal)),
            ("stepId"@, Json::Str(s.id)),
            ("stepOrder"@, Json::Int(s.order as int)),
            ("stepAttempt"@, Json::Int(s.attempts as int)),
            ("dependsOn"@, str_array(s.depends_on)),
            ("dependencyResults"@, Json::Array(dep_results(t.steps, s.depends_on))),
        ],
    )
}

fn dep_result_value(s: &TaskStep) -> (r: JsonValue)
    ensures
        jv(r) == dep_result_json(s@),
{
    let mut f: Vec<(String, JsonValue)> = Vec::new();
    proof {
        assert(jv_fields(f@) =~= Seq::empty());
    }
    push_field(&mut f, "stepId", JsonValue::Str(s.id.clone()));
    push_field(&mut f, "agentId", JsonValue::Str(s.agent_id.clone()));
    push_field(&mut f, "instruction", JsonValue::Str(s.instruction.clone()));
    let res = match &s.result {
        Some(v) => v.deep_clone(),
        None => JsonValue::Null,
    };
    push_field(&mut f, "result", res);
    assert(jv_fields(f@) =~= seq![
        ("stepId"@, Json::Str(s@.id)),
        ("agentId"@, Json::Str(s@.agent_id)),
        ("instruction"@, Json::Str(s@.instruction)),
        ("result"@, match s@.result {
            Some(j) => j,
            None => Json::Null,
        }),
    ]);
    let ghost fv = jv_fields(f@);
    let r = object(f);
    assert(jv(r) == Json::Object(fv));
    assert(dep_result_json(s@)->Object_0 =~= fv);
    assert(Json::Object(fv) == dep_result_json(s@));
    r
}

proof fn lemma_dep_results_step(steps: Seq<StepView>, deps: Seq<Seq<char>>, d: int)
    requires
        0 <= d < deps.len(),
    ensures
        dep_results(steps, deps.take(d + 1)) == (match first_step_with_id(steps, deps[d]) {
            Some(k) => dep_results(steps, deps.take(d)).push(dep_result_json(steps[k])),
            None => dep_results(steps, deps.take(d)),
        }),
{
    assert(deps.take(d + 1).drop_last() =~= deps.take(d));
    assert(deps.take(d + 1).last() == deps[d]);
}

/// The context for dispatching step `i` of `task`: the task, the step and the
/// results of the steps it depends on.
pub fn build_step_dispatch_context(task: &Task, i: usize) -> (r: JsonValue)
    requires
        i < task@.steps.len(),
    ensures
        jv(r) == dispatch_context(task@, i as int),
{
    let step = &task.steps[i];
    let ghost sv = task@.steps;
    let mut results: Vec<JsonValue> = Vec::new();
    let mut d: usize = 0;
    while d < step.depends_on.len()
        invariant
            i < task@.steps.len(),
            step == &task.steps@[i as int],
            sv == task@.steps,
            d <= step.depends_on@.len(),
            crate::json::jv_items(results@) == dep_results(
                sv,
                sv[i as int].depends_on.take(d as int),
            ),
        decreases step.depends_on.len() - d,
    {
        proof {
            lemma_dep_results_step(sv, sv[i as int].depends_on, d as int);
            assert(sv[i as int].depends_on[d as int] == step.depends_on@[d as int]@);
        }
        match find_step(&task.steps, step.depends_on[d].as_str()) {
            Some(k) => {
                let ghost before = results@;
                let v = dep_result_value(&task.steps[k]);
                results.push(v);
                proof {
                    crate::json::lemma_jv_items_push(before, v);
                }
            },
            None => {},
        }
        d += 1;
    }
    proof {
        assert(sv[i as int].depends_on.take(step.depends_on@.len() as int) =~= sv[
            i as int
        ].depends_on);
    }
    let mut f: Vec<(String, JsonValue)> = Vec::new();
    proof {
        assert(jv_fields(f@) =~= Seq::empty());
    }
    push_field(&mut f, "taskId", JsonValue::Str(task.id.clone()));
    push_field(&mut f, "taskGoal", JsonValue::Str(task.user_goal.clone()));
    push_field(&mut f, "stepId", JsonValue::Str(step.id.clone()));
    push_field(&mut f, "stepOrder", JsonValue::UInt(step.order as u64));
    push_field(&mut f, "stepAttempt", JsonValue::UInt(step.attempts as u64));
    let deps = crate::json::jstr_array(&step.depends_on);
    push_field(&mut f, "dependsOn", deps);
    push_field(&mut f, "dependencyResults", JsonValue::Array(results));
    proof {
        assert(Seq::new(step.depends_on@.len(), |k: int| Json::Str(step.depends_on@[k]@)) =~= Seq::new(
            sv[i as int].depends_on.len(),
            |k: int| Json::Str(sv[i as int].depends_on[k]),
        ));
        assert(jv_fields(f@) =~= seq![
            ("taskId"@, Json::Str(task@.id)),
            ("taskGoal"@, Json::Str(task@.user_goal)),
            ("stepId"@, Json::Str(sv[i as int].id)),
            ("stepOrder"@, Json::Int(sv[i as int].order as int)),
            ("stepAttempt"@, Json::Int(sv[i as int].attempts as int)),
            ("dependsOn"@, str_array(sv[i as int].depends_on)),
            ("dependencyResults"@, Json::Array(dep_results(sv, sv[i as int].depends_on))),
        ]);
    }
    object(f)
}

} // verus!
