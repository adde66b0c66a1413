use multi_agent::approval::{ApprovalRequest, ApprovalStatus, CreateApprovalRequest, RiskLevel};
use multi_agent::command::ProjectCommandRunResponse;
use multi_agent::diff::build_unified_diff;
use multi_agent::json::JsonValue;
use multi_agent::patch::{
    PatchApplyResult, PatchAutoRollbackResult, PatchChangeType, PatchFileChange, PatchProposal, PatchProposalStatus, PatchRevertResult,
};
use multi_agent::runtime::TaskRuntime;
use multi_agent::task::{StepStatus, Task, TaskEventKind, TaskStatus, TaskStep};

fn obj(fields: Vec<(&str, JsonValue)>) -> JsonValue {
    JsonValue::Object(fields.into_iter().map(|(k, v)| (k.to_string(), v)).collect())
}

fn text(s: &str) -> JsonValue {
    JsonValue::Str(s.to_string())
}

fn str_at<'a>(v: &'a JsonValue, key: &str) -> Option<&'a str> {
    match v.get(key) {
        Some(JsonValue::Str(s)) => Some(s.as_str()),
        _ => None,
    }
}

fn patch_proposal_for_task(task_id: &str) -> PatchProposal {
    let now = 1_700_000_000_000;
    let diff = build_unified_diff("README.md", "old", "new");
    PatchProposal {
        id: "patch-task-1".to_string(),
        task_id: Some(task_id.to_string()),
        step_id: Some(format!("{task_id}-1")),
        approval_id: Some("approval-1".to_string()),
        summary: "更新 README".to_string(),
        status: PatchProposalStatus::Applied,
        files: vec![PatchFileChange {
            path: "README.md".to_string(),
            change_type: PatchChangeType::Modify,
            old_content: "old".to_string(),
            new_content: "new".to_string(),
            diff: diff.clone(),
        }],
        unified_diff: diff,
        requested_by: "test".to_string(),
        created_at: now,
        updated_at: now,
        applied_at: Some(now),
        applied_by: Some("tester".to_string()),
        reverted_at: None,
        reverted_by: None,
    }
}

fn command_run(command: &str, success: bool) -> ProjectCommandRunResponse {
    ProjectCommandRunResponse {
        id: format!("run-{command}").replace(' ', "-"),
        approval_id: None,
        command: command.to_string(),
        working_dir: "src-tauri".to_string(),
        exit_code: Some(if success { 0 } else { 101 }),
        success,
        stdout: String::new(),
        stderr: String::new(),
        duration_ms: 12,
        timed_out: false,
        stdout_truncated: false,
        stderr_truncated: false,
        created_at: "2026-06-09T02:00:00Z".to_string(),
    }
}

fn decided(mut approval: ApprovalRequest, status: ApprovalStatus) -> ApprovalRequest {
    if status != ApprovalStatus::Pending {
        approval.status = status;
        approval.decided_by = Some("tester".to_string());
        approval.decided_at = Some(1_700_000_000_500);
        approval.updated_at = 1_700_000_000_500;
    }
    approval
}

fn approval_for_patch(proposal: &PatchProposal, status: ApprovalStatus) -> ApprovalRequest {
    let mut approval = ApprovalRequest::new(CreateApprovalRequest {
        task_id: proposal.task_id.clone(),
        step_id: proposal.step_id.clone(),
        title: format!("应用补丁：{}", proposal.summary),
        reason: "需要确认补丁 diff。".to_string(),
        risk: RiskLevel::High,
        action_type: "workspace.applyPatch".to_string(),
        action_payload: obj(vec![("patchId", text(&proposal.id))]),
        requested_by: Some("test".to_string()),
    })
    .unwrap();
    approval.id = proposal.approval_id.clone().unwrap_or_else(|| "approval-1".to_string());
    decided(approval, status)
}

fn approval_for_command(task_id: &str, status: ApprovalStatus) -> ApprovalRequest {
    let mut approval = ApprovalRequest::new(CreateApprovalRequest {
        task_id: Some(task_id.to_string()),
        step_id: Some(format!("{task_id}-1")),
        title: "运行项目命令：cargo clippy".to_string(),
        reason: "需要确认项目命令。".to_string(),
        risk: RiskLevel::High,
        action_type: "runtime.runProjectCommand".to_string(),
        action_payload: obj(vec![
            ("command", text("cargo clippy")),
            ("workingDir", text("src-tauri")),
            ("allowedByDefault", JsonValue::Bool(false)),
        ]),
        requested_by: Some("test".to_string()),
    })
    .unwrap();
    approval.id = "command-approval-1".to_string();
    decided(approval, status)
}

fn command_run_for_approval(approval: &ApprovalRequest, success: bool) -> ProjectCommandRunResponse {
    ProjectCommandRunResponse {
        approval_id: Some(approval.id.clone()),
        success,
        exit_code: Some(if success { 0 } else { 101 }),
        stderr: if success { String::new() } else { "clippy failed".to_string() },
        ..command_run("cargo clippy", success)
    }
}

fn task_with_running_executor_step(task_id: &str) -> Task {
    let mut task = Task::new(task_id, "应用补丁审批");
    let mut step = TaskStep::new(&format!("{task_id}-1"), task_id, 1, "Executor", "应用补丁", vec![]);
    step.start();
    task.steps = vec![step];
    task.status = TaskStatus::Running;
    task
}

#[test]
fn test_record_command_approval_requested_marks_linked_step_waiting() {
    let task_id = "task-command-approval-requested";
    let mut runtime = TaskRuntime::new();
    runtime.insert_task(task_with_running_executor_step(task_id));
    let approval = approval_for_command(task_id, ApprovalStatus::Pending);

    let task = runtime.record_command_approval_requested(&approval).unwrap();

    assert_eq!(task.status, TaskStatus::WaitingApproval);
    assert_eq!(task.steps[0].status, StepStatus::WaitingApproval);
    assert!(task.artifacts.iter().any(|artifact| {
        str_at(artifact, "kind") == Some("commandApproval") && str_at(artifact, "approvalId") == Some(approval.id.as_str())
    }));
    assert!(runtime.get_events(task_id).iter().any(|event| event.kind == TaskEventKind::ApprovalRequested));
}

#[test]
fn test_record_command_approval_approved_restores_running_step() {
    let task_id = "task-command-approval-approved";
    let mut runtime = TaskRuntime::new();
    runtime.insert_task(task_with_running_executor_step(task_id));
    let pending = approval_for_command(task_id, ApprovalStatus::Pending);
    runtime.record_command_approval_requested(&pending);
    let approved = approval_for_command(task_id, ApprovalStatus::Approved);

    let task = runtime.record_command_approval_resolved(&approved).unwrap();

    assert_eq!(task.status, TaskStatus::Running);
    assert_eq!(task.steps[0].status, StepStatus::Running);
    assert!(task.artifacts.iter().any(|artifact| {
        str_at(artifact, "kind") == Some("commandApprovalResolved") && str_at(artifact, "status") == Some("approved")
    }));
    assert!(runtime.get_events(task_id).iter().any(|event| event.kind == TaskEventKind::ApprovalResolved));
}

#[test]
fn test_record_command_approval_rejected_marks_task_retryable() {
    let task_id = "task-command-approval-rejected";
    let mut runtime = TaskRuntime::new();
    runtime.insert_task(task_with_running_executor_step(task_id));
    let pending = approval_for_command(task_id, ApprovalStatus::Pending);
    runtime.record_command_approval_requested(&pending);
    let rejected = approval_for_command(task_id, ApprovalStatus::Rejected);

    let task = runtime.record_command_approval_resolved(&rejected).unwrap();

    assert_eq!(task.status, TaskStatus::Failed);
    assert_eq!(task.steps[0].status, StepStatus::Failed);
    assert!(runtime.get_events(task_id).iter().any(|event| event.kind == TaskEventKind::Failed));

    let retry = runtime.retry_task(task_id, "重新提交命令审批").unwrap();
    let task = runtime.get_task(task_id).unwrap();

    assert_eq!(retry.dispatches.len(), 1);
    assert_eq!(task.status, TaskStatus::Running);
    assert_eq!(task.steps[0].status, StepStatus::Running);
}

#[test]
fn test_record_command_run_success_completes_linked_step() {
    let task_id = "task-command-run-success";
    let mut runtime = TaskRuntime::new();
    runtime.insert_task(task_with_running_executor_step(task_id));
    let pending = approval_for_command(task_id, ApprovalStatus::Pending);
    runtime.record_command_approval_requested(&pending);
    let approved = approval_for_command(task_id, ApprovalStatus::Approved);
    runtime.record_command_approval_resolved(&approved);
    let run = command_run_for_approval(&approved, true);

    let task = runtime.record_command_run(&approved, &run).unwrap();

    assert_eq!(task.status, TaskStatus::Completed);
    assert_eq!(task.steps[0].status, StepStatus::Completed);
    assert!(task.artifacts.iter().any(|artifact| {
        str_at(artifact, "kind") == Some("commandRun") && str_at(artifact, "runId") == Some(run.id.as_str())
    }));
    assert!(runtime.get_events(task_id).iter().any(|event| event.kind == TaskEventKind::StepCompleted));
}

#[test]
fn test_record_command_run_failure_marks_linked_step_retryable() {
    let task_id = "task-command-run-failure";
    let mut runtime = TaskRuntime::new();
    runtime.insert_task(task_with_running_executor_step(task_id));
    let pending = approval_for_command(task_id, ApprovalStatus::Pending);
    runtime.record_command_approval_requested(&pending);
    let approved = approval_for_command(task_id, ApprovalStatus::Approved);
    runtime.record_command_approval_resolved(&approved);
    let run = command_run_for_approval(&approved, false);

    let task = runtime.record_command_run(&approved, &run).unwrap();

    assert_eq!(task.status, TaskStatus::Failed);
    assert_eq!(task.steps[0].status, StepStatus::Failed);
    assert!(runtime.get_events(task_id).iter().any(|event| event.kind == TaskEventKind::StepFailed));

    let retry = runtime.retry_task(task_id, "修复命令失败").unwrap();
    let task = runtime.get_task(task_id).unwrap();

    assert_eq!(retry.dispatches.len(), 1);
    assert_eq!(task.status, TaskStatus::Running);
    assert_eq!(task.steps[0].status, StepStatus::Running);
}

#[test]
fn test_record_command_run_is_idempotent_for_same_approval() {
    let task_id = "task-command-run-idempotent";
    let mut runtime = TaskRuntime::new();
    runtime.insert_task(task_with_running_executor_step(task_id));
    let approved = approval_for_command(task_id, ApprovalStatus::Approved);
    let run = command_run_for_approval(&approved, true);

    runtime.record_command_run(&approved, &run).unwrap();
    runtime.record_command_run(&approved, &run).unwrap();

    let task = runtime.get_task(task_id).unwrap();
    assert_eq!(task.artifacts.len(), 1);
    assert_eq!(
        runtime.get_events(task_id).iter().filter(|event| event.kind == TaskEventKind::ArtifactCreated).count(),
        1
    );
}

#[test]
fn test_record_patch_approval_requested_marks_linked_step_waiting() {
    let task_id = "task-patch-approval-requested";
    let mut runtime = TaskRuntime::new();
    runtime.insert_task(task_with_running_executor_step(task_id));
    let proposal = patch_proposal_for_task(task_id);
    let approval = approval_for_patch(&proposal, ApprovalStatus::Pending);

    let task = runtime.record_patch_approval_requested(&proposal, &approval).unwrap();

    assert_eq!(task.status, TaskStatus::WaitingApproval);
    assert_eq!(task.steps[0].status, StepStatus::WaitingApproval);
    assert!(task.artifacts.iter().any(|artifact| {
        str_at(artifact, "kind") == Some("patchApproval") && str_at(artifact, "patchId") == Some(proposal.id.as_str())
    }));
    assert!(runtime.get_events(task_id).iter().any(|event| event.kind == TaskEventKind::ApprovalRequested));
}

#[test]
fn test_record_patch_approval_approved_restores_running_step() {
    let task_id = "task-patch-approval-approved";
    let mut runtime = TaskRuntime::new();
    runtime.insert_task(task_with_running_executor_step(task_id));
    let proposal = patch_proposal_for_task(task_id);
    let pending = approval_for_patch(&proposal, ApprovalStatus::Pending);
    runtime.record_patch_approval_requested(&proposal, &pending);
    let approved = approval_for_patch(&proposal, ApprovalStatus::Approved);

    let task = runtime.record_patch_approval_resolved(&proposal, &approved).unwrap();

    assert_eq!(task.status, TaskStatus::Running);
    assert_eq!(task.steps[0].status, StepStatus::Running);
    assert!(task.artifacts.iter().any(|artifact| {
        str_at(artifact, "kind") == Some("patchApprovalResolved") && str_at(artifact, "status") == Some("approved")
    }));
    assert!(runtime.get_events(task_id).iter().any(|event| event.kind == TaskEventKind::ApprovalResolved));
}

fn apply_result(proposal: &PatchProposal) -> PatchApplyResult {
    PatchApplyResult {
        patch_id: proposal.id.clone(),
        status: PatchProposalStatus::Applied,
        files: vec!["README.md".to_string()],
        applied_at: proposal.applied_at.unwrap(),
        already_applied: false,
        auto_rollback: None,
    }
}

#[test]
fn test_record_patch_applied_adds_task_artifact_and_event() {
    let task_id = "task-patch-artifact";
    let mut runtime = TaskRuntime::new();
    runtime.insert_task(Task::new(task_id, "应用补丁到任务"));
    let proposal = patch_proposal_for_task(task_id);
    let result = apply_result(&proposal);

    let task = runtime.record_patch_applied(&proposal, &result, "approval-1").unwrap();

    assert_eq!(task.artifacts.len(), 1);
    assert_eq!(str_at(&task.artifacts[0], "kind"), Some("patchApplied"));
    assert_eq!(str_at(&task.artifacts[0], "patchId"), Some("patch-task-1"));
    assert_eq!(str_at(&task.artifacts[0], "approvalId"), Some("approval-1"));
    match task.artifacts[0].get("files") {
        Some(JsonValue::Array(items)) => assert!(matches!(&items[0], JsonValue::Str(s) if s == "README.md")),
        other => panic!("files missing: {other:?}"),
    }

    let events = runtime.get_events(task_id);
    let event = events.iter().find(|event| event.kind == TaskEventKind::ArtifactCreated).unwrap();
    assert_eq!(event.step_id.as_deref(), Some("task-patch-artifact-1"));
    assert_eq!(str_at(&event.payload, "patchId"), Some("patch-task-1"));
}

#[test]
fn test_record_patch_applied_is_idempotent_for_same_patch() {
    let task_id = "task-patch-idempotent";
    let mut runtime = TaskRuntime::new();
    runtime.insert_task(Task::new(task_id, "重复应用补丁"));
    let proposal = patch_proposal_for_task(task_id);
    let result = apply_result(&proposal);

    runtime.record_patch_applied(&proposal, &result, "approval-1").unwrap();
    runtime.record_patch_applied(&proposal, &result, "approval-1").unwrap();

    let task = runtime.get_task(task_id).unwrap();
    assert_eq!(task.artifacts.len(), 1);
    assert_eq!(
        runtime.get_events(task_id).iter().filter(|event| event.kind == TaskEventKind::ArtifactCreated).count(),
        1
    );
}

fn revert_result(proposal: &PatchProposal, reverted_at: i64) -> PatchRevertResult {
    PatchRevertResult {
        patch_id: proposal.id.clone(),
        status: PatchProposalStatus::Reverted,
        files: vec!["README.md".to_string()],
        reverted_at,
        already_reverted: false,
    }
}

#[test]
fn test_record_patch_reverted_adds_task_artifact_and_event() {
    let task_id = "task-patch-reverted";
    let mut runtime = TaskRuntime::new();
    runtime.insert_task(Task::new(task_id, "回滚补丁"));
    let mut proposal = patch_proposal_for_task(task_id);
    let reverted_at = 1_700_000_100_000;
    proposal.status = PatchProposalStatus::Reverted;
    proposal.reverted_at = Some(reverted_at);
    proposal.reverted_by = Some("tester".to_string());
    let result = revert_result(&proposal, reverted_at);

    let task = runtime.record_patch_reverted(&proposal, &result).unwrap();

    assert_eq!(task.artifacts.len(), 1);
    assert_eq!(str_at(&task.artifacts[0], "kind"), Some("patchReverted"));
    assert_eq!(str_at(&task.artifacts[0], "patchId"), Some("patch-task-1"));
    assert!(str_at(&task.artifacts[0], "rollbackDiff").unwrap().contains("-new"));

    let events = runtime.get_events(task_id);
    let event = events.iter().find(|event| event.kind == TaskEventKind::ArtifactCreated).unwrap();
    assert!(event.message.contains("补丁已回滚"));
    assert_eq!(str_at(&event.payload, "kind"), Some("patchReverted"));
}

#[test]
fn test_record_patch_reverted_is_idempotent_for_same_patch() {
    let task_id = "task-patch-reverted-idempotent";
    let mut runtime = TaskRuntime::new();
    runtime.insert_task(Task::new(task_id, "重复回滚补丁"));
    let mut proposal = patch_proposal_for_task(task_id);
    let reverted_at = 1_700_000_100_000;
    proposal.status = PatchProposalStatus::Reverted;
    proposal.reverted_at = Some(reverted_at);
    let result = revert_result(&proposal, reverted_at);

    runtime.record_patch_reverted(&proposal, &result).unwrap();
    runtime.record_patch_reverted(&proposal, &result).unwrap();

    let task = runtime.get_task(task_id).unwrap();
    assert_eq!(task.artifacts.len(), 1);
    assert_eq!(
        runtime.get_events(task_id).iter().filter(|event| event.kind == TaskEventKind::ArtifactCreated).count(),
        1
    );
}

fn uint_at(v: &JsonValue, key: &str) -> Option<u64> {
    match v.get(key) {
        Some(JsonValue::UInt(n)) => Some(*n),
        Some(JsonValue::Int(n)) if *n >= 0 => Some(*n as u64),
        _ => None,
    }
}

#[test]
fn test_record_patch_approval_rejected_marks_task_retryable() {
    let task_id = "task-patch-approval-rejected";
    let mut runtime = TaskRuntime::new();
    runtime.insert_task(task_with_running_executor_step(task_id));
    let proposal = patch_proposal_for_task(task_id);
    let pending = approval_for_patch(&proposal, ApprovalStatus::Pending);
    runtime.record_patch_approval_requested(&proposal, &pending);
    let rejected = approval_for_patch(&proposal, ApprovalStatus::Rejected);

    let task = runtime.record_patch_approval_resolved(&proposal, &rejected).unwrap();

    assert_eq!(task.status, TaskStatus::Failed);
    assert_eq!(task.steps[0].status, StepStatus::Failed);
    assert!(runtime.get_events(task_id).iter().any(|event| event.kind == TaskEventKind::Failed));

    let retry = runtime.retry_task(task_id, "重新提交审批").unwrap();
    let task = runtime.get_task(task_id).unwrap();

    assert_eq!(retry.dispatches.len(), 1);
    assert_eq!(task.status, TaskStatus::Running);
    assert_eq!(task.steps[0].status, StepStatus::Running);
}

#[test]
fn test_record_patch_verification_success_completes_waiting_step() {
    let task_id = "task-patch-verification-complete";
    let mut runtime = TaskRuntime::new();
    runtime.insert_task(task_with_running_executor_step(task_id));
    let proposal = patch_proposal_for_task(task_id);
    let pending = approval_for_patch(&proposal, ApprovalStatus::Pending);
    runtime.record_patch_approval_requested(&proposal, &pending);
    let approved = approval_for_patch(&proposal, ApprovalStatus::Approved);
    runtime.record_patch_approval_resolved(&proposal, &approved);
    let runs = vec![command_run("cargo test", true)];

    let task = runtime.record_patch_verification(&proposal, "approval-1", &runs, &vec![], None).unwrap();

    assert_eq!(task.status, TaskStatus::Completed);
    assert_eq!(task.steps[0].status, StepStatus::Completed);
    assert!(runtime.get_events(task_id).iter().any(|event| event.kind == TaskEventKind::StepCompleted));
}

#[test]
fn test_record_patch_verification_adds_artifact_and_event() {
    let task_id = "task-patch-verification";
    let mut runtime = TaskRuntime::new();
    runtime.insert_task(Task::new(task_id, "验证补丁"));
    let proposal = patch_proposal_for_task(task_id);
    let runs = vec![command_run("cargo test", true), command_run("npm run build", false)];

    let task = runtime.record_patch_verification(&proposal, "approval-1", &runs, &vec![], None).unwrap();

    assert_eq!(task.artifacts.len(), 1);
    assert_eq!(str_at(&task.artifacts[0], "kind"), Some("patchVerification"));
    assert_eq!(str_at(&task.artifacts[0], "status"), Some("failed"));
    assert_eq!(uint_at(&task.artifacts[0], "commandCount"), Some(2));
    assert_eq!(uint_at(&task.artifacts[0], "successCount"), Some(1));
    assert_eq!(uint_at(&task.artifacts[0], "failedCount"), Some(1));
    assert_eq!(task.status, TaskStatus::Failed);
    assert!(task.error.as_deref().unwrap_or_default().contains("补丁验证失败"));

    let events = runtime.get_events(task_id);
    let event = events.iter().find(|event| event.kind == TaskEventKind::ArtifactCreated).unwrap();
    assert!(event.message.contains("补丁验证失败"));
    assert_eq!(str_at(&event.payload, "kind"), Some("patchVerification"));
}

#[test]
fn test_record_patch_verification_failure_marks_linked_step_retryable() {
    let task_id = "task-patch-verification-retry";
    let mut task = Task::new(task_id, "验证失败后重试");
    let mut step = TaskStep::new(&format!("{task_id}-1"), task_id, 1, "Executor", "应用补丁并验证", vec![]);
    step.complete(obj(vec![("summary", text("patch applied"))]));
    task.steps = vec![step];
    task.complete("之前已完成");

    let mut runtime = TaskRuntime::new();
    runtime.insert_task(task);
    let proposal = patch_proposal_for_task(task_id);
    let runs = vec![command_run("cargo test", false)];

    let task = runtime.record_patch_verification(&proposal, "approval-1", &runs, &vec![], None).unwrap();

    assert_eq!(task.status, TaskStatus::Failed);
    assert_eq!(task.steps[0].status, StepStatus::Failed);
    assert!(runtime.get_events(task_id).iter().any(|event| event.kind == TaskEventKind::StepFailed));
    assert!(runtime.get_events(task_id).iter().any(|event| event.kind == TaskEventKind::Failed));

    let retry = runtime.retry_task(task_id, "修复验证失败").unwrap();
    let task = runtime.get_task(task_id).unwrap();

    assert_eq!(retry.dispatches.len(), 1);
    assert_eq!(task.status, TaskStatus::Running);
    assert_eq!(task.steps[0].status, StepStatus::Running);
    assert!(task.error.is_none());
}

#[test]
fn test_record_patch_verification_records_auto_rollback_metadata() {
    let task_id = "task-patch-verification-auto-rollback";
    let mut runtime = TaskRuntime::new();
    runtime.insert_task(Task::new(task_id, "验证失败自动回滚"));
    let proposal = patch_proposal_for_task(task_id);
    let auto_rollback = PatchAutoRollbackResult {
        triggered_by: "verificationFailure".to_string(),
        reverted: true,
        error: None,
        result: Some(revert_result(&proposal, 1_700_000_200_000)),
    };
    let runs = vec![command_run("cargo test", false)];

    let task = runtime
        .record_patch_verification(&proposal, "approval-1", &runs, &vec![], Some(&auto_rollback))
        .unwrap();

    let rollback = task.artifacts[0].get("autoRollback").unwrap();
    assert_eq!(str_at(rollback, "triggeredBy"), Some("verificationFailure"));
    assert!(matches!(rollback.get("reverted"), Some(JsonValue::Bool(true))));
    assert_eq!(str_at(rollback.get("result").unwrap(), "status"), Some("reverted"));
}

#[test]
fn test_record_patch_verification_is_idempotent_for_same_patch() {
    let task_id = "task-patch-verification-idempotent";
    let mut runtime = TaskRuntime::new();
    runtime.insert_task(Task::new(task_id, "重复验证补丁"));
    let proposal = patch_proposal_for_task(task_id);
    let runs = vec![command_run("cargo check", true)];

    runtime.record_patch_verification(&proposal, "approval-1", &runs, &vec![], None).unwrap();
    runtime.record_patch_verification(&proposal, "approval-1", &runs, &vec![], None).unwrap();

    let task = runtime.get_task(task_id).unwrap();
    assert_eq!(task.artifacts.len(), 1);
    assert_eq!(
        runtime.get_events(task_id).iter().filter(|event| event.kind == TaskEventKind::ArtifactCreated).count(),
        1
    );
}
