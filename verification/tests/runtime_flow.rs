use multi_agent::json::JsonValue;
use multi_agent::plan::{PlanStep, StepStatus as PlanStepStatus, TaskPlan};
use multi_agent::ready::{build_step_dispatch_context, ready_step_indices};
use multi_agent::runtime::TaskRuntime;
use multi_agent::task::{StepStatus, Task, TaskEventKind, TaskStatus, TaskStep};

fn obj(fields: Vec<(&str, JsonValue)>) -> JsonValue {
    JsonValue::Object(fields.into_iter().map(|(k, v)| (k.to_string(), v)).collect())
}

fn text(s: &str) -> JsonValue {
    JsonValue::Str(s.to_string())
}

fn get<'a>(v: &'a JsonValue, key: &str) -> &'a JsonValue {
    v.get(key).unwrap()
}

fn as_str(v: &JsonValue) -> &str {
    match v {
        JsonValue::Str(s) => s.as_str(),
        other => panic!("not a string: {other:?}"),
    }
}

fn as_int(v: &JsonValue) -> i128 {
    match v {
        JsonValue::Int(i) => *i as i128,
        JsonValue::UInt(u) => *u as i128,
        other => panic!("not an integer: {other:?}"),
    }
}

fn plan_step(task_id: &str, n: u32, agent: &str, instruction: &str, deps: Vec<String>) -> PlanStep {
    PlanStep {
        step_id: format!("{task_id}-{n}"),
        order: n,
        agent: agent.to_string(),
        instruction: instruction.to_string(),
        depends_on: deps,
        status: PlanStepStatus::Pending,
    }
}

fn plan(task_id: &str, goal: &str, steps: Vec<PlanStep>) -> TaskPlan {
    TaskPlan { task_id: task_id.to_string(), goal: goal.to_string(), steps, created_at: 0 }
}

#[test]
fn test_ready_step_indices_waits_for_dependencies() {
    let mut task = Task::new("task-1", "测试依赖调度");
    let mut first = TaskStep::new("task-1-1", "task-1", 1, "Planner", "理解任务", vec![]);
    let second = TaskStep::new("task-1-2", "task-1", 2, "Executor", "执行任务", vec!["task-1-1".to_string()]);

    task.set_steps(vec![first.duplicate(), second]);
    assert_eq!(ready_step_indices(&task), vec![0]);

    first.complete(obj(vec![("ok", JsonValue::Bool(true))]));
    task.steps[0] = first;
    assert_eq!(ready_step_indices(&task), vec![1]);
}

#[test]
fn test_ready_step_indices_treats_skipped_dependencies_as_ready() {
    let mut task = Task::new("task-skip-ready", "跳过依赖");
    let mut first = TaskStep::new("task-skip-ready-1", "task-skip-ready", 1, "Tool", "可跳过步骤", vec![]);
    first.status = StepStatus::Skipped;
    first.completed_at = Some(1);
    let second = TaskStep::new(
        "task-skip-ready-2",
        "task-skip-ready",
        2,
        "Executor",
        "继续执行",
        vec!["task-skip-ready-1".to_string()],
    );

    task.set_steps(vec![first, second]);

    assert_eq!(ready_step_indices(&task), vec![1]);
}

#[test]
fn test_skip_step_dispatches_dependent_step() {
    let task_id = "task-skip-dispatch";
    let mut runtime = TaskRuntime::new();
    runtime.insert_task(Task::new(task_id, "跳过后继续"));
    runtime.apply_plan(
        task_id,
        plan(
            task_id,
            "跳过后继续",
            vec![
                plan_step(task_id, 1, "Tool", "等待外部信息", vec![]),
                plan_step(task_id, 2, "Executor", "根据现有信息继续", vec![format!("{task_id}-1")]),
            ],
        ),
    );

    let result = runtime.skip_step(task_id, &format!("{task_id}-1"), "信息不足，跳过").unwrap();

    assert_eq!(result.dispatches.len(), 1);
    assert_eq!(result.dispatches[0].step_id, format!("{task_id}-2"));
    let task = runtime.get_task(task_id).unwrap();
    assert_eq!(task.steps[0].status, StepStatus::Skipped);
    assert_eq!(task.steps[1].status, StepStatus::Running);
    assert!(runtime.get_events(task_id).iter().any(|event| event.kind == TaskEventKind::StepSkipped));
}

#[test]
fn test_skip_last_step_completes_task_with_skipped_count() {
    let task_id = "task-skip-complete";
    let mut task = Task::new(task_id, "跳过最后一步");
    let mut first = TaskStep::new(&format!("{task_id}-1"), task_id, 1, "Tool", "检索", vec![]);
    first.complete(obj(vec![("ok", JsonValue::Bool(true))]));
    let mut second =
        TaskStep::new(&format!("{task_id}-2"), task_id, 2, "Executor", "整理输出", vec![format!("{task_id}-1")]);
    second.start();
    task.steps = vec![first, second];
    task.status = TaskStatus::Running;
    let mut runtime = TaskRuntime::new();
    runtime.insert_task(task);

    let result = runtime.skip_step(task_id, &format!("{task_id}-2"), "无需整理").unwrap();

    assert!(result.dispatches.is_empty());
    assert_eq!(result.task.status, TaskStatus::Completed);
    assert_eq!(result.task.steps[1].status, StepStatus::Skipped);
    let completed =
        runtime.get_events(task_id).into_iter().find(|event| event.kind == TaskEventKind::Completed).unwrap();
    assert_eq!(as_int(get(&completed.payload, "completedSteps")), 1);
    assert_eq!(as_int(get(&completed.payload, "skippedSteps")), 1);
}

#[test]
fn test_step_dispatch_context_includes_dependency_results() {
    let mut task = Task::new("task-1", "测试上下文");
    let mut first = TaskStep::new("task-1-1", "task-1", 1, "Tool", "只读检索", vec![]);
    first.complete(obj(vec![("summary", text("found files"))]));
    let second = TaskStep::new("task-1-2", "task-1", 2, "Executor", "整理方案", vec!["task-1-1".to_string()]);

    task.set_steps(vec![first, second]);
    let context = build_step_dispatch_context(&task, 1);

    assert_eq!(as_str(get(&context, "stepId")), "task-1-2");
    assert_eq!(as_int(get(&context, "stepAttempt")), 0);
    let deps = match get(&context, "dependencyResults") {
        JsonValue::Array(items) => items,
        other => panic!("not an array: {other:?}"),
    };
    assert_eq!(as_str(get(get(&deps[0], "result"), "summary")), "found files");
}

#[test]
fn test_cancel_task_marks_pending_steps_skipped() {
    let task_id = "task-cancel";
    let mut runtime = TaskRuntime::new();
    runtime.insert_task(Task::new(task_id, "取消任务"));
    runtime.apply_plan(
        task_id,
        plan(
            task_id,
            "取消任务",
            vec![
                plan_step(task_id, 1, "Executor", "执行任务", vec![]),
                plan_step(task_id, 2, "Memory", "记录结果", vec![format!("{task_id}-1")]),
            ],
        ),
    );

    let task = runtime.cancel_task(task_id, "测试取消").unwrap();

    assert_eq!(task.status, TaskStatus::Cancelled);
    assert!(task.steps.iter().all(|step| step.status == StepStatus::Skipped));
    assert!(runtime.get_events(task_id).iter().any(|event| event.kind == TaskEventKind::Cancelled));
}

#[test]
fn test_cancelled_task_ignores_late_agent_reply() {
    let task_id = "task-late-reply";
    let mut runtime = TaskRuntime::new();
    runtime.insert_task(Task::new(task_id, "取消运行中任务"));
    runtime.apply_plan(task_id, plan(task_id, "取消运行中任务", vec![plan_step(task_id, 1, "Executor", "执行任务", vec![])]));

    let dispatches = runtime.advance_task(task_id);
    assert_eq!(dispatches.len(), 1);
    runtime.cancel_task(task_id, "测试取消").unwrap();

    let next_dispatches =
        runtime.complete_running_step(task_id, "Executor", "迟到结果", obj(vec![("ok", JsonValue::Bool(true))]));
    let task = runtime.get_task(task_id).unwrap();

    assert!(next_dispatches.is_empty());
    assert_eq!(task.status, TaskStatus::Cancelled);
    assert_eq!(task.steps[0].status, StepStatus::Skipped);
}

#[test]
fn test_cancelled_task_ignores_late_plan() {
    let task_id = "task-late-plan";
    let mut runtime = TaskRuntime::new();
    runtime.insert_task(Task::new(task_id, "取消规划中任务"));
    runtime.cancel_task(task_id, "测试取消").unwrap();

    let applied =
        runtime.apply_plan(task_id, plan(task_id, "取消规划中任务", vec![plan_step(task_id, 1, "Executor", "执行任务", vec![])]));
    let task = runtime.get_task(task_id).unwrap();

    assert!(!applied);
    assert_eq!(task.status, TaskStatus::Cancelled);
    assert!(task.steps.is_empty());
}

#[test]
fn test_retry_cancelled_task_resets_skipped_steps_and_dispatches_ready_step() {
    let task_id = "task-retry-cancelled";
    let mut runtime = TaskRuntime::new();
    runtime.insert_task(Task::new(task_id, "重试取消任务"));
    runtime.apply_plan(
        task_id,
        plan(
            task_id,
            "重试取消任务",
            vec![
                plan_step(task_id, 1, "Executor", "执行任务", vec![]),
                plan_step(task_id, 2, "Memory", "记录结果", vec![format!("{task_id}-1")]),
            ],
        ),
    );
    runtime.cancel_task(task_id, "测试取消").unwrap();

    let retry = runtime.retry_task(task_id, "测试重试").unwrap();

    assert_eq!(retry.task.status, TaskStatus::Running);
    assert_eq!(retry.dispatches.len(), 1);
    assert_eq!(retry.dispatches[0].step_id, format!("{task_id}-1"));
    assert_eq!(as_int(get(&retry.dispatches[0].context, "stepAttempt")), 1);
    assert!(runtime.get_events(task_id).iter().any(|event| event.kind == TaskEventKind::Retried));
}

#[test]
fn test_retry_failed_task_preserves_completed_dependencies() {
    let task_id = "task-retry-failed";
    let mut task = Task::new(task_id, "重试失败任务");
    let mut first = TaskStep::new(&format!("{task_id}-1"), task_id, 1, "Tool", "只读检索", vec![]);
    let mut second =
        TaskStep::new(&format!("{task_id}-2"), task_id, 2, "Executor", "执行修复", vec![format!("{task_id}-1")]);
    first.complete(obj(vec![("summary", text("found files"))]));
    second.fail("执行失败");
    task.steps = vec![first, second];
    task.fail("执行失败");

    let mut runtime = TaskRuntime::new();
    runtime.insert_task(task);

    let retry = runtime.retry_task(task_id, "再次执行").unwrap();
    let task = runtime.get_task(task_id).unwrap();

    assert_eq!(retry.dispatches.len(), 1);
    assert_eq!(task.steps[0].status, StepStatus::Completed);
    assert_eq!(task.steps[1].status, StepStatus::Running);
    assert!(task.steps[1].error.is_none());
}

#[test]
fn test_retry_ignores_late_reply_from_previous_attempt() {
    let task_id = "task-retry-late-reply";
    let mut runtime = TaskRuntime::new();
    runtime.insert_task(Task::new(task_id, "重试运行中任务"));
    runtime.apply_plan(task_id, plan(task_id, "重试运行中任务", vec![plan_step(task_id, 1, "Executor", "执行任务", vec![])]));

    let old_dispatches = runtime.advance_task(task_id);
    runtime.cancel_task(task_id, "测试取消").unwrap();
    let retry = runtime.retry_task(task_id, "测试重试").unwrap();

    let next_dispatches =
        runtime.complete_running_step(task_id, "Executor", "迟到结果", old_dispatches[0].context.deep_clone());
    let task = runtime.get_task(task_id).unwrap();

    assert!(next_dispatches.is_empty());
    assert_eq!(task.steps[0].status, StepStatus::Running);
    assert_eq!(task.steps[0].attempts, 2);

    runtime.complete_running_step(task_id, "Executor", "新尝试结果", retry.dispatches[0].context.deep_clone());
    let task = runtime.get_task(task_id).unwrap();
    assert_eq!(task.steps[0].status, StepStatus::Completed);
}

#[test]
fn test_retry_ignores_late_error_from_previous_attempt() {
    let task_id = "task-retry-late-error";
    let mut runtime = TaskRuntime::new();
    runtime.insert_task(Task::new(task_id, "重试运行中任务"));
    runtime.apply_plan(task_id, plan(task_id, "重试运行中任务", vec![plan_step(task_id, 1, "Executor", "执行任务", vec![])]));

    let old_dispatches = runtime.advance_task(task_id);
    runtime.cancel_task(task_id, "测试取消").unwrap();
    runtime.retry_task(task_id, "测试重试").unwrap();

    runtime.fail_running_step(task_id, "Executor", "迟到错误", Some(&old_dispatches[0].context));
    let task = runtime.get_task(task_id).unwrap();

    assert_eq!(task.status, TaskStatus::Running);
    assert_eq!(task.steps[0].status, StepStatus::Running);
    assert!(task.error.is_none());
}

#[test]
fn test_complete_running_step_prefers_context_step_id() {
    let task_id = "task-exact-step";
    let mut task = Task::new(task_id, "精确匹配步骤");
    let mut first = TaskStep::new(&format!("{task_id}-1"), task_id, 1, "Executor", "第一个执行步骤", vec![]);
    let mut second = TaskStep::new(&format!("{task_id}-2"), task_id, 2, "Executor", "第二个执行步骤", vec![]);
    first.start();
    second.start();
    task.steps = vec![first, second];
    task.status = TaskStatus::Running;

    let mut runtime = TaskRuntime::new();
    runtime.insert_task(task);
    runtime.complete_running_step(task_id, "Executor", "第二步完成", obj(vec![("stepId", text(&format!("{task_id}-2")))]));
    let task = runtime.get_task(task_id).unwrap();

    assert_eq!(task.steps[0].status, StepStatus::Running);
    assert_eq!(task.steps[1].status, StepStatus::Completed);
}

#[test]
fn task_starts_in_planning() {
    let task = Task::new("task-1", "实现任务看板");
    assert_eq!(task.status, TaskStatus::Planning);
    assert_eq!(task.title, "实现任务看板");
}

#[test]
fn step_lifecycle_updates_status_and_attempts() {
    let mut step = TaskStep::new("s1", "t1", 1, "Executor", "执行任务", vec![]);
    step.start();
    assert_eq!(step.status, StepStatus::Running);
    assert_eq!(step.attempts, 1);

    step.complete(obj(vec![("ok", JsonValue::Bool(true))]));
    assert_eq!(step.status, StepStatus::Completed);
    assert!(step.result.is_some());
}

#[test]
fn step_retry_keeps_attempt_count() {
    let mut step = TaskStep::new("task-1-1", "task-1", 1, "Executor", "执行", vec![]);
    step.start();
    step.fail("boom");
    assert_eq!(step.status, StepStatus::Failed);
    assert_eq!(step.error.as_deref(), Some("boom"));
    step.reset_for_retry();
    assert_eq!(step.status, StepStatus::Pending);
    step.start();
    assert_eq!(step.attempts, 2);
}

#[test]
fn advance_task_records_one_start_per_step_and_completes_planner_steps() {
    let task_id = "task-events-exact";
    let mut runtime = TaskRuntime::new();
    runtime.insert_task(Task::new(task_id, "事件记录"));
    runtime.apply_plan(
        task_id,
        plan(
            task_id,
            "事件记录",
            vec![
                plan_step(task_id, 1, "Planner", "理解任务", vec![]),
                plan_step(task_id, 2, "Tool", "检索资料", vec![format!("{task_id}-1")]),
                plan_step(task_id, 3, "Executor", "执行任务", vec![format!("{task_id}-1")]),
            ],
        ),
    );
    let before = runtime.get_events(task_id).len();

    let dispatches = runtime.advance_task(task_id);

    assert_eq!(dispatches.len(), 2);
    let new_events: Vec<(TaskEventKind, Option<String>)> = runtime.get_events(task_id)[before..]
        .iter()
        .map(|event| (event.kind, event.step_id.clone()))
        .collect();
    assert_eq!(
        new_events,
        vec![
            (TaskEventKind::StepStarted, Some(format!("{task_id}-1"))),
            (TaskEventKind::StepCompleted, Some(format!("{task_id}-1"))),
            (TaskEventKind::StepStarted, Some(format!("{task_id}-2"))),
            (TaskEventKind::StepStarted, Some(format!("{task_id}-3"))),
        ]
    );
    let again = runtime.advance_task(task_id);
    assert!(again.is_empty());
    assert_eq!(runtime.get_events(task_id).len(), before + 4);
}
