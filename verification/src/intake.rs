//! Taking plans and direct requests into the runtime, and listing tasks.
use vstd::prelude::*;
use crate::control::{changed_one, lemma_replace_keeps_unique};
use crate::json::{Json, JsonValue, jv, jv_fields, object, push_field};
use crate::plan::{PlanStepView, TaskPlan, plan_step_views};
use crate::runtime::{TaskRuntime, event_views, lookup_task, task_views};
use crate::task::{
    EventView, StepStatus, StepView, Task, TaskEvent, TaskEventKind, TaskStatus, TaskStep, TaskView,
    copy_strings, step_views, strs, title_of,
};
use crate::text::{concat2, concat3, decimal, decimal_string, own};

verus! {

broadcast use vstd::std_specs::vec::group_vec_axioms;

/// The task steps made from the steps of a plan for task `task_id`.
pub open spec fn plan_task_steps(task_id: Seq<char>, ps: Seq<PlanStepView>) -> Seq<StepView> {
    Seq::new(
        ps.len(),
        |i: int|
            StepView {
                id: ps[i].step_id,
                task_id,
                order: ps[i].order,
                agent_id: ps[i].agent,
                title: title_of(ps[i].instruction, 32),
                instruction: ps[i].instruction,
                status: StepStatus::Pending,
                depends_on: ps[i].depends_on,
                attempts: 0,
                result: None,
                error: None,
                started_at: None,
                completed_at: None,
            },
    )
}

/// The event recorded when a plan of `n` steps is taken.
pub open spec fn planned_event(task_id: Seq<char>, n: nat) -> EventView {
    EventView {
        task_id,
        step_id: None,
        kind: TaskEventKind::Planned,
        message: "Planner 已生成 "@ + decimal(n) + " 个步骤。"@,
        payload: Json::Object(seq![("stepCount"@, Json::Int(n as int))]),
    }
}

/// The event recorded when a task goes straight to one agent.
pub open spec fn direct_started_event(task_id: Seq<char>, s: StepView) -> EventView {
    EventView {
        task_id,
        step_id: Some(s.id),
        kind: TaskEventKind::StepStarted,
        message: s.agent_id + " 开始处理任务。"@,
        payload: Json::Object(
            seq![("agentId"@, Json::Str(s.agent_id)), ("instruction"@, Json::Str(s.instruction))],
        ),
    }
}

/// Whether `r` lists the tasks of `ts`, newest first.
pub open spec fn newest_first(ts: Seq<TaskView>, r: Seq<TaskView>) -> bool {
    &&& r.len() == ts.len()
    &&& by_time_desc(r)
    &&& members_of(r, ts, ts.len() as int)
}

fn plan_steps_for(task_id: &str, plan: &TaskPlan) -> (r: Vec<TaskStep>)
    ensures
        step_views(r@) == plan_task_steps(task_id@, plan.step_views()),
{
    let ghost ps = plan.step_views();
    let mut r: Vec<TaskStep> = Vec::new();
    let mut i: usize = 0;
    while i < plan.steps.len()
        invariant
            i <= plan.steps@.len(),
            ps == plan.step_views(),
            step_views(r@) == plan_task_steps(task_id@, ps).take(i as int),
        decreases plan.steps.len() - i,
    {
        let p = &plan.steps[i];
        assert(ps[i as int] == p@);
        let s = TaskStep::new(
            p.step_id.as_str(),
            task_id,
            p.order,
            p.agent.as_str(),
            p.instruction.as_str(),
            copy_strings(&p.depends_on),
        );
        let ghost before = step_views(r@);
        let ghost sv = s@;
        assert(sv == plan_task_steps(task_id@, ps)[i as int]);
        r.push(s);
        assert(step_views(r@) =~= before.push(sv));
        assert(plan_task_steps(task_id@, ps).take(i + 1) =~= plan_task_steps(task_id@, ps).take(i as int).push(sv));
        i += 1;
    }
    assert(plan_task_steps(task_id@, ps).take(plan.steps@.len() as int) =~= plan_task_steps(task_id@, ps));
    r
}

impl TaskRuntime {
    /// Takes a plan for task `task_id`: its steps replace the task's (as
    /// pending steps), its goal becomes the task's goal, the task runs (or
    /// is complete, for an empty plan), and a `Planned` event is recorded.
    /// Returns `false`, changing nothing, for an unknown or cancelled task.
    pub fn apply_plan(&mut self, task_id: &str, plan: TaskPlan) -> (r: bool)
        requires
            old(self).wf(),
            plan.steps@.len() <= u64::MAX,
        ensures
            final(self).wf(),
            match lookup_task(old(self).tasks_v(), task_id@) {
                Some(t) => if t.status == TaskStatus::Cancelled {
                    !r && final(self).tasks_v() == old(self).tasks_v() && final(self).events_v()
                        == old(self).events_v()
                } else {
                    r && exists|t2: TaskView|
                        t2 == (TaskView {
                            steps: plan_task_steps(task_id@, plan.step_views()),
                            status: if plan.steps@.len() == 0 {
                                TaskStatus::Completed
                            } else {
                                TaskStatus::Running
                            },
                            user_goal: plan.goal@,
                            updated_at: t2.updated_at,
                            ..t
                        }) && changed_one(
                            old(self).tasks_v(),
                            final(self).tasks_v(),
                            old(self).events_v(),
                            final(self).events_v(),
                            task_id@,
                            t2,
                            seq![planned_event(task_id@, plan.steps@.len())],
                        )
                },
                None => !r && final(self).tasks_v() == old(self).tasks_v() && final(self).events_v()
                    == old(self).events_v(),
            },
    {
        let steps = plan_steps_for(task_id, &plan);
        let n = plan.steps.len();
        let i = match self.find_index(task_id) {
            Some(i) => i,
            None => return false,
        };
        if self.tasks[i].status == TaskStatus::Cancelled {
            return false;
        }
        let mut task = self.tasks[i].duplicate();
        task.set_steps(steps);
        task.user_goal = plan.goal;
        task.touch();
        let count = decimal_string(n as u64);
        let mut f: Vec<(String, JsonValue)> = Vec::new();
        proof {
            assert(jv_fields(f@) =~= Seq::empty());
        }
        push_field(&mut f, "stepCount", JsonValue::UInt(n as u64));
        let ghost fv = jv_fields(f@);
        let payload = object(f);
        let ev = TaskEvent::new(
            task_id,
            None,
            TaskEventKind::Planned,
            concat3("Planner 已生成 ", count.as_str(), " 个步骤。"),
            payload,
        );
        let ghost evv = ev@;
        let ghost t2 = task@;
        proof {
            reveal_strlit("stepCount");
            assert(fv =~= seq![("stepCount"@, Json::Int(n as int))]);
            assert(evv == planned_event(task_id@, n as nat));
            lemma_replace_keeps_unique(old(self).tasks_v(), i as int, task@);
            let t = old(self).tasks_v()[i as int];
            assert(t2.steps == plan_task_steps(task_id@, plan.step_views()));
            assert(t2.user_goal == plan.goal@);
            assert(t2.id == t.id);
            assert(t2.status == if plan.steps@.len() == 0 {
                TaskStatus::Completed
            } else {
                TaskStatus::Running
            });
            assert(t2 == (TaskView {
                steps: plan_task_steps(task_id@, plan.step_views()),
                status: if plan.steps@.len() == 0 {
                    TaskStatus::Completed
                } else {
                    TaskStatus::Running
                },
                user_goal: plan.goal@,
                updated_at: t2.updated_at,
                ..t
            }));
        }
        self.store_task(i, task);
        self.push_event(ev);
        assert(self.events_v() =~= old(self).events_v() + seq![evv]);
        assert(changed_one(
            old(self).tasks_v(),
            self.tasks_v(),
            old(self).events_v(),
            self.events_v(),
            task_id@,
            t2,
            seq![planned_event(task_id@, plan.steps@.len())],
        ));
        true
    }

    /// Sends a task straight to one agent: the task gets a single running
    /// step `{task_id}-1` for that agent, a `StepStarted` event is recorded
    /// and the task runs. Nothing changes for an unknown task.
    pub fn prepare_direct_step(&mut self, task_id: &str, agent_name: &str, instruction: &str)
        requires
            old(self).wf(),
        ensures
            final(self).wf(),
            match lookup_task(old(self).tasks_v(), task_id@) {
                Some(t) => exists|t2: TaskView|
                    t2 == (TaskView {
                        steps: t2.steps,
                        status: TaskStatus::Running,
                        updated_at: t2.updated_at,
                        ..t
                    }) && t2.steps.len() == 1 && t2.steps[0] == (StepView {
                        id: task_id@ + "-1"@,
                        task_id: task_id@,
                        order: 1,
                        agent_id: agent_name@,
                        title: title_of(instruction@, 32),
                        instruction: instruction@,
                        status: StepStatus::Running,
                        depends_on: Seq::empty(),
                        attempts: 1,
                        result: None,
                        error: None,
                        started_at: t2.steps[0].started_at,
                        completed_at: None,
                    }) && t2.steps[0].started_at is Some && changed_one(
                        old(self).tasks_v(),
                        final(self).tasks_v(),
                        old(self).events_v(),
                        final(self).events_v(),
                        task_id@,
                        t2,
                        seq![direct_started_event(task_id@, t2.steps[0])],
                    ),
                None => final(self).tasks_v() == old(self).tasks_v() && final(self).events_v()
                    == old(self).events_v(),
            },
    {
        let i = match self.find_index(task_id) {
            Some(i) => i,
            None => return ,
        };
        let id = concat2(task_id, "-1");
        let no_deps: Vec<String> = Vec::new();
        assert(strs(no_deps@) =~= Seq::<Seq<char>>::empty());
        let mut step = TaskStep::new(id.as_str(), task_id, 1, agent_name, instruction, no_deps);
        step.start();
        let mut f: Vec<(String, JsonValue)> = Vec::new();
        proof {
            assert(jv_fields(f@) =~= Seq::empty());
        }
        push_field(&mut f, "agentId", JsonValue::Str(step.agent_id.clone()));
        push_field(&mut f, "instruction", JsonValue::Str(step.instruction.clone()));
        let ghost fv = jv_fields(f@);
        let payload = object(f);
        let ev = TaskEvent::new(
            task_id,
            Some(step.id.clone()),
            TaskEventKind::StepStarted,
            concat2(step.agent_id.as_str(), " 开始处理任务。"),
            payload,
        );
        let ghost evv = ev@;
        let ghost sv = step@;
        let mut task = self.tasks[i].duplicate();
        let mut steps: Vec<TaskStep> = Vec::new();
        steps.push(step);
        assert(step_views(steps@) =~= seq![sv]);
        task.steps = steps;
        task.status = TaskStatus::Running;
        task.touch();
        proof {
            assert(task@.steps =~= seq![sv]);
            assert(fv =~= seq![("agentId"@, Json::Str(sv.agent_id)), ("instruction"@, Json::Str(sv.instruction))]);
            assert(evv == direct_started_event(task_id@, sv));
            lemma_replace_keeps_unique(old(self).tasks_v(), i as int, task@);
        }
        self.store_task(i, task);
        self.push_event(ev);
        assert(self.events_v() =~= old(self).events_v() + seq![evv]);
    }

    /// All tasks, newest first.
    pub fn list_tasks(&self) -> (r: Vec<Task>)
        ensures
            newest_first(self.tasks_v(), task_views(r@)),
    {
        let ts = &self.tasks;
        let ghost tv = self.tasks_v();
        let mut r: Vec<Task> = Vec::new();
        let mut k: usize = 0;
        proof {
            assert(task_views(r@) =~= Seq::<TaskView>::empty());
        }
        while k < ts.len()
            invariant
                ts == &self.tasks,
                tv == self.tasks_v(),
                k <= ts@.len(),
                task_views(r@).len() == k,
                by_time_desc(task_views(r@)),
                members_of(task_views(r@), tv, k as int),
            decreases ts.len() - k,
        {
            let t = ts[k].duplicate();
            assert(tv[k as int] == t@);
            let ghost before = task_views(r@);
            let p = insert_by_time(&mut r, t);
            proof {
                lemma_insert_sorted(before, p as int, tv[k as int]);
                lemma_insert_members(before, p as int, tv, k as int);
            }
            k += 1;
        }
        assert(tv.len() == k);
        r
    }
}

/// Whether the tasks are ordered newest first.
pub open spec fn by_time_desc(s: Seq<TaskView>) -> bool {
    forall|i: int, j: int| #![trigger s[i], s[j]] 0 <= i < j < s.len() ==> s[i].created_at >= s[j].created_at
}

/// Whether `r` holds exactly the first `k` tasks of `tv`, in any order.
pub open spec fn members_of(r: Seq<TaskView>, tv: Seq<TaskView>, k: int) -> bool {
    &&& forall|i: int| #![trigger r[i]] 0 <= i < r.len() ==> exists|j: int| 0 <= j < k && r[i] == #[trigger] tv[j]
    &&& forall|j: int| #![trigger tv[j]] 0 <= j < k ==> exists|i: int| 0 <= i < r.len() && #[trigger] r[i] == tv[j]
}

/// Inserts `t` before the first task older than it; returns the position.
fn insert_by_time(r: &mut Vec<Task>, t: Task) -> (p: usize)
    ensures
        p <= old(r)@.len(),
        task_views(final(r)@) == task_views(old(r)@).insert(p as int, t@),
        forall|q: int| 0 <= q < p ==> (#[trigger] task_views(old(r)@)[q]).created_at >= t@.created_at,
        p < old(r)@.len() ==> task_views(old(r)@)[p as int].created_at < t@.created_at,
{
    let ghost tt = t@;
    let mut p: usize = 0;
    while p < r.len() && r[p].created_at >= t.created_at
        invariant
            p <= r@.len(),
            r@ == old(r)@,
            tt == t@,
            forall|q: int| 0 <= q < p ==> (#[trigger] task_views(r@)[q]).created_at >= t@.created_at,
        decreases r.len() - p,
    {
        assert(task_views(r@)[p as int] == r@[p as int]@);
        p += 1;
    }
    proof {
        if p < r@.len() {
            assert(task_views(r@)[p as int] == r@[p as int]@);
        }
    }
    let ghost before = task_views(r@);
    r.insert(p, t);
    assert(task_views(r@) =~= before.insert(p as int, tt));
    p
}

proof fn lemma_insert_sorted(before: Seq<TaskView>, p: int, x: TaskView)
    requires
        by_time_desc(before),
        0 <= p <= before.len(),
        forall|q: int| 0 <= q < p ==> (#[trigger] before[q]).created_at >= x.created_at,
        p < before.len() ==> before[p].created_at < x.created_at,
    ensures
        by_time_desc(before.insert(p, x)),
{
    let after = before.insert(p, x);
    assert forall|i: int, j: int| #![trigger after[i], after[j]] 0 <= i < j < after.len() implies after[i].created_at
        >= after[j].created_at by {
        if j < p {
            assert(after[i] == before[i] && after[j] == before[j]);
        } else if i > p {
            assert(after[i] == before[i - 1] && after[j] == before[j - 1]);
        } else if i == p {
            assert(after[j] == before[j - 1]);
            assert(before[p] == before[p]);
            if j - 1 > p {
                assert(before[p].created_at >= before[j - 1].created_at);
            }
        } else if j == p {
            assert(after[i] == before[i]);
        } else {
            assert(after[i] == before[i] && after[j] == before[j - 1]);
        }
    }
}

proof fn lemma_insert_members(before: Seq<TaskView>, p: int, tv: Seq<TaskView>, k: int)
    requires
        members_of(before, tv, k),
        0 <= p <= before.len(),
        0 <= k < tv.len(),
    ensures
        members_of(before.insert(p, tv[k]), tv, k + 1),
{
    let after = before.insert(p, tv[k]);
    assert forall|i: int| #![trigger after[i]] 0 <= i < after.len() implies exists|j: int|
        0 <= j < k + 1 && after[i] == #[trigger] tv[j] by {
        if i < p {
            assert(after[i] == before[i]);
        } else if i > p {
            assert(after[i] == before[i - 1]);
        } else {
            assert(after[i] == tv[k]);
        }
    }
    assert forall|j: int| #![trigger tv[j]] 0 <= j < k + 1 implies exists|i: int|
        0 <= i < after.len() && #[trigger] after[i] == tv[j] by {
        if j < k {
            let i0 = choose|i0: int| 0 <= i0 < before.len() && #[trigger] before[i0] == tv[j];
            if i0 < p {
                assert(after[i0] == before[i0]);
            } else {
                assert(after[i0 + 1] == before[i0]);
            }
        } else {
            assert(after[p] == tv[k]);
        }
    }
}

} // verus!
