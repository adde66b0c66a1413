use multi_agent::agents::CapabilityLevel;
use multi_agent::api::{
    approved_patch_id_from_approval, build_agent_status, build_patch_approval_input,
    build_project_command_approval_input, capabilities_for_agent, capability_label, map_patch_error,
    meta_for_runtime_name, patch_id_from_approval, patch_status_from_approval, project_command_request_from_approval,
    resolve_agent_meta, response_from_stored_message, stored_message_from_response, ApiError, ChatMessageResponse,
};
use multi_agent::approval::{ApprovalRequest, ApprovalStatus, CreateApprovalRequest, RiskLevel};
use multi_agent::command::ProjectCommandInspection;
use multi_agent::diff::build_unified_diff;
use multi_agent::error::AgentError;
use multi_agent::json::JsonValue;
use multi_agent::patch::{PatchChangeType, PatchFileChange, PatchProposal, PatchProposalStatus};

fn obj(fields: Vec<(&str, JsonValue)>) -> JsonValue {
    JsonValue::Object(fields.into_iter().map(|(k, v)| (k.to_string(), v)).collect())
}

fn text(s: &str) -> JsonValue {
    JsonValue::Str(s.to_string())
}

fn str_at<'a>(v: &'a JsonValue, key: &str) -> Option<&'a str> {
    match v.get(key) {
        Some(JsonValue::Str(s)) => Some(s.as_str()),
        _ => None,
    }
}

fn request(action_type: &str, payload: JsonValue) -> ApprovalRequest {
    ApprovalRequest::new(CreateApprovalRequest {
        task_id: None,
        step_id: None,
        title: "运行命令".to_string(),
        reason: "需要确认。".to_string(),
        risk: RiskLevel::High,
        action_type: action_type.to_string(),
        action_payload: payload,
        requested_by: Some("ProjectPanel".to_string()),
    })
    .unwrap()
}

#[test]
fn test_build_project_command_approval_input_records_payload() {
    let inspection =
        ProjectCommandInspection { command: "cargo clippy".to_string(), working_dir: "src-tauri".to_string(), allowed: false };

    let input = build_project_command_approval_input(&inspection);

    assert_eq!(input.risk, RiskLevel::High);
    assert_eq!(input.action_type, "runtime.runProjectCommand");
    assert_eq!(input.requested_by.as_deref(), Some("ProjectPanel"));
    assert_eq!(str_at(&input.action_payload, "command"), Some("cargo clippy"));
    assert_eq!(str_at(&input.action_payload, "workingDir"), Some("src-tauri"));
    assert!(matches!(input.action_payload.get("allowedByDefault"), Some(JsonValue::Bool(false))));
    assert_eq!(input.title, "运行项目命令：cargo clippy");
}

#[test]
fn test_project_command_request_from_approval_requires_approved_status() {
    let mut approval = request(
        "runtime.runProjectCommand",
        obj(vec![("command", text("cargo clippy")), ("workingDir", text("src-tauri"))]),
    );

    let err = project_command_request_from_approval(&approval).unwrap_err();
    assert_eq!(err.code, "INVALID_ARGUMENT");
    assert!(err.message.contains("尚未通过"));

    approval.status = ApprovalStatus::Approved;
    let request = project_command_request_from_approval(&approval).unwrap();
    assert_eq!(request.command, "cargo clippy");
    assert_eq!(request.working_dir, "src-tauri");
}

#[test]
fn test_project_command_request_from_approval_rejects_wrong_action_type() {
    let mut approval = request(
        "workspace.applyPatch",
        obj(vec![("command", text("cargo clippy")), ("workingDir", text("src-tauri"))]),
    );
    approval.status = ApprovalStatus::Approved;

    let err = project_command_request_from_approval(&approval).unwrap_err();
    assert_eq!(err.code, "INVALID_ARGUMENT");
    assert!(err.message.contains("不是项目命令"));
}

#[test]
fn project_command_request_requires_command_and_directory() {
    let mut approval = request("runtime.runProjectCommand", obj(vec![("workingDir", text("src-tauri"))]));
    approval.status = ApprovalStatus::Approved;
    let err = project_command_request_from_approval(&approval).unwrap_err();
    assert_eq!(err.message, "审批 payload 缺少命令内容。");

    let mut approval = request("runtime.runProjectCommand", obj(vec![("command", text(" cargo test ")), ("workingDir", text("  "))]));
    approval.status = ApprovalStatus::Approved;
    let err = project_command_request_from_approval(&approval).unwrap_err();
    assert_eq!(err.message, "审批 payload 缺少工作目录。");
}

fn proposal() -> PatchProposal {
    let diff = build_unified_diff("README.md", "old line", "new line");
    PatchProposal {
        id: "patch-1".to_string(),
        task_id: Some("task-1".to_string()),
        step_id: Some("step-1".to_string()),
        approval_id: None,
        summary: "更新 README".to_string(),
        status: PatchProposalStatus::Draft,
        files: vec![PatchFileChange {
            path: "README.md".to_string(),
            change_type: PatchChangeType::Modify,
            old_content: "old line".to_string(),
            new_content: "new line".to_string(),
            diff: diff.clone(),
        }],
        unified_diff: diff,
        requested_by: "ProjectPanel".to_string(),
        created_at: 0,
        updated_at: 0,
        applied_at: None,
        applied_by: None,
        reverted_at: None,
        reverted_by: None,
    }
}

#[test]
fn test_build_patch_approval_input_records_diff_payload() {
    let proposal = proposal();

    let input = build_patch_approval_input(&proposal);

    assert_eq!(input.risk, RiskLevel::High);
    assert_eq!(input.action_type, "workspace.applyPatch");
    assert_eq!(input.task_id.as_deref(), Some("task-1"));
    assert_eq!(input.step_id.as_deref(), Some("step-1"));
    assert_eq!(input.requested_by.as_deref(), Some("ProjectPanel"));
    assert_eq!(str_at(&input.action_payload, "patchId"), Some("patch-1"));
    assert_eq!(str_at(&input.action_payload, "summary"), Some("更新 README"));
    assert_eq!(str_at(&input.action_payload, "unifiedDiff"), Some(proposal.unified_diff.as_str()));
    match input.action_payload.get("files") {
        Some(JsonValue::Array(items)) => {
            assert_eq!(str_at(&items[0], "path"), Some("README.md"));
            assert_eq!(str_at(&items[0], "changeType"), Some("modify"));
        },
        other => panic!("files missing: {other:?}"),
    }
    assert_eq!(input.reason, "补丁提案 [更新 README] 将修改 1 个文件，需要用户确认 diff 后再进入应用流程。");
}

#[test]
fn test_approved_patch_id_from_approval_requires_patch_action_and_approved_status() {
    let mut approval = request(
        "workspace.applyPatch",
        obj(vec![("patchId", text("patch-1")), ("unifiedDiff", text("diff --git a/README.md b/README.md"))]),
    );

    let err = approved_patch_id_from_approval(&approval).unwrap_err();
    assert_eq!(err.code, "INVALID_ARGUMENT");
    assert!(err.message.contains("尚未通过"));

    approval.status = ApprovalStatus::Approved;
    assert_eq!(approved_patch_id_from_approval(&approval).unwrap(), "patch-1");

    approval.action_type = "runtime.runProjectCommand".to_string();
    let err = approved_patch_id_from_approval(&approval).unwrap_err();
    assert_eq!(err.code, "INVALID_ARGUMENT");
    assert!(err.message.contains("不是补丁应用请求"));
}

#[test]
fn patch_id_is_trimmed_and_required() {
    let approval = request("workspace.applyPatch", obj(vec![("patchId", text("  patch-9 "))]));
    assert_eq!(patch_id_from_approval(&approval).as_deref(), Some("patch-9"));
    let blank = request("workspace.applyPatch", obj(vec![("patchId", text("   "))]));
    assert_eq!(patch_id_from_approval(&blank), None);
    let mut missing = request("workspace.applyPatch", obj(vec![]));
    missing.status = ApprovalStatus::Approved;
    assert_eq!(approved_patch_id_from_approval(&missing).unwrap_err().message, "审批 payload 缺少补丁提案 ID。");
}

#[test]
fn patch_status_follows_approval_status() {
    assert_eq!(patch_status_from_approval(&ApprovalStatus::Pending), Some(PatchProposalStatus::PendingApproval));
    assert_eq!(patch_status_from_approval(&ApprovalStatus::Approved), Some(PatchProposalStatus::Approved));
    assert_eq!(patch_status_from_approval(&ApprovalStatus::Rejected), Some(PatchProposalStatus::Rejected));
    assert_eq!(patch_status_from_approval(&ApprovalStatus::Cancelled), None);
}

#[test]
fn api_errors_carry_code_message_and_retry_flag() {
    let e = ApiError::invalid_argument("缺少审批请求 ID。");
    assert_eq!(e.code, "INVALID_ARGUMENT");
    assert_eq!(e.message, "缺少审批请求 ID。");
    assert!(e.detail.is_none());
    assert!(!e.retryable);
    assert!(!e.request_id.is_empty());

    let e = ApiError::agent_not_found("ghost");
    assert_eq!(e.code, "AGENT_NOT_FOUND");
    assert_eq!(e.detail.as_deref(), Some("Agent [ghost] 未注册"));
    assert!(e.retryable);

    let e = ApiError::workspace_failed("disk".to_string());
    assert_eq!(e.code, "WORKSPACE_ERROR");
    assert!(!e.retryable);
    assert_eq!(ApiError::route_failed("x".to_string()).code, "ROUTE_FAILED");
    assert_eq!(ApiError::history_failed("x".to_string()).code, "HISTORY_ERROR");
    assert_eq!(ApiError::command_failed("x".to_string()).code, "COMMAND_ERROR");
    assert_eq!(ApiError::approval_failed("x".to_string()).code, "APPROVAL_ERROR");
    assert_eq!(ApiError::patch_failed("x".to_string()).code, "PATCH_ERROR");
    assert_ne!(ApiError::invalid_argument("a").request_id, ApiError::invalid_argument("a").request_id);
}

#[test]
fn patch_errors_map_to_api_errors() {
    let e = map_patch_error(AgentError::MessageFormat("坏请求".to_string()));
    assert_eq!(e.code, "INVALID_ARGUMENT");
    assert_eq!(e.message, "坏请求");
    let e = map_patch_error(AgentError::Internal("io".to_string()));
    assert_eq!(e.code, "PATCH_ERROR");
    assert_eq!(e.detail.as_deref(), Some("Agent 内部错误: io"));
}

#[test]
fn resolve_agent_meta_routes_by_id_name_or_role() {
    let (meta, reason, fallback) = resolve_agent_meta(None).unwrap();
    assert_eq!(meta.id, "coordinator");
    assert_eq!(reason, "未指定 AI 成员，默认由协调员/总控理解需求并自动分配。");
    assert!(!fallback);

    let (meta, _, _) = resolve_agent_meta(Some("   ")).unwrap();
    assert_eq!(meta.runtime_name, "Planner");

    let (meta, reason, _) = resolve_agent_meta(Some(" PLANNER ")).unwrap();
    assert_eq!(meta.id, "coordinator");
    assert_eq!(reason, "已交给协调员/总控处理，他会判断是否需要分派其他成员。");

    let (meta, reason, _) = resolve_agent_meta(Some("Executor")).unwrap();
    assert_eq!(meta.id, "executor");
    assert_eq!(reason, "用户指定优先交给「执行工程师」处理。");

    let err = resolve_agent_meta(Some("memory")).unwrap_err();
    assert_eq!(err.code, "AGENT_NOT_SELECTABLE");
    assert_eq!(err.detail.as_deref(), Some("Agent [Memory] is internal/selectable=false"));

    let err = resolve_agent_meta(Some("nobody")).unwrap_err();
    assert_eq!(err.code, "AGENT_NOT_FOUND");
}

#[test]
fn capabilities_and_labels_follow_the_catalog() {
    let caps = capabilities_for_agent("Planner");
    let names: Vec<&str> = caps.iter().map(|c| c.name.as_str()).collect();
    assert_eq!(names, vec!["planning", "chat"]);
    assert_eq!(caps[0].level, CapabilityLevel::Advanced);
    let caps = capabilities_for_agent("Somebody");
    assert_eq!(caps.len(), 1);
    assert_eq!(caps[0].name, "chat");
    assert_eq!(capability_label("code_execution"), "代码/命令执行");
    assert_eq!(capability_label("custom"), "custom");
    assert_eq!(meta_for_runtime_name("Unknown").id, "custom");
}

#[test]
fn agent_status_card_uses_catalog_and_labels() {
    let card = build_agent_status("Executor".to_string());
    assert_eq!(card.id, "executor");
    assert_eq!(card.runtime_name, "Executor");
    assert_eq!(card.status, "idle");
    assert_eq!(card.status_label, "空闲");
    assert!(card.online);
    let labels: Vec<&str> = card.capabilities.iter().map(|c| c.name.as_str()).collect();
    assert_eq!(labels, vec!["代码/命令执行", "工具调用"]);
    assert!(card.capabilities.iter().all(|c| c.available));
}

#[test]
fn stored_messages_round_trip() {
    let msg = ChatMessageResponse {
        id: "m1".to_string(),
        role: "user".to_string(),
        content: "你好".to_string(),
        timestamp: "2026-01-01T00:00:00Z".to_string(),
        sender_name: Some("me".to_string()),
    };
    let stored = stored_message_from_response("s1", &msg);
    assert_eq!(stored.session_id, "s1");
    assert_eq!(stored.content, "你好");
    let back = response_from_stored_message(stored);
    assert_eq!(back.id, "m1");
    assert_eq!(back.sender_name.as_deref(), Some("me"));
}
