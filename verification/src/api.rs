//! What the frontend commands decide: structured errors, the agent catalog
//! and routing, agent status cards, and the approval payloads that link
//! approvals to commands and patches.
use vstd::prelude::*;
use crate::agents::{Capability, CapabilityLevel, capability_names, is_capability};
use crate::approval::{ApprovalRequest, ApprovalStatus, CreateApprovalRequest, RiskLevel};
use crate::chat::ChatMessage as StoredChatMessage;
use crate::clock::{new_uuid, now_millis};
use crate::command::{ProjectCommandInspection, ProjectCommandRunRequest};
use crate::error::AgentError;
use crate::json::{Json, JsonValue, jv, jv_fields, jv_items, jstr, object, push_field};
use crate::llm::opt_chars;
use crate::patch::{PatchProposal, PatchProposalStatus, FileChangeView, change_views};
use crate::task::Task;
use crate::text::{clean_opt, clean_str, decimal, decimal_string, own, push_str, str_eq, to_ascii_lower, to_lowercase, trim, trim_str, unicode_lowercase, eq_ignore_ascii_case, ascii_lower_seq};
use crate::workspace::WorkspaceEntry;

verus! {

broadcast use vstd::std_specs::vec::group_vec_axioms;

// ------------------------------------------------------------------
// Requests and responses
// ------------------------------------------------------------------
/// A text search over the project.
#[derive(Debug)]
pub struct SearchProjectTextRequest {
    pub query: String,
    pub max_results: Option<usize>,
}

/// Run the command of an approved request.
#[derive(Debug)]
pub struct RunApprovedProjectCommandRequest {
    pub approval_id: String,
}

/// Apply the patch of an approved request.
#[derive(Debug)]
pub struct ApplyApprovedPatchRequest {
    pub approval_id: String,
}

/// Revert an applied patch.
#[derive(Debug)]
pub struct RevertAppliedPatchRequest {
    pub patch_id: String,
}

/// A chat message as the frontend shows it.
#[derive(Debug)]
pub struct ChatMessageResponse {
    pub id: String,
    pub role: String,
    pub content: String,
    pub timestamp: String,
    pub sender_name: Option<String>,
}

/// Which agent a message went to, and why.
#[derive(Debug)]
pub struct RouteInfoResponse {
    pub mode: String,
    pub requested_agent_id: Option<String>,
    pub target_agent_id: String,
    pub target_runtime_name: String,
    pub target_display_name: String,
    pub fallback: bool,
    pub reason: String,
}

/// The answer to a sent message.
#[derive(Debug)]
pub struct SendMessageResponse {
    pub message: ChatMessageResponse,
    pub handled_by: String,
    pub task_id: String,
    pub status: String,
    pub route: RouteInfoResponse,
    pub warnings: Vec<String>,
}

/// The answer to a created task.
#[derive(Debug)]
pub struct CreateTaskResponse {
    pub task_id: String,
    pub task: Option<Task>,
}

/// Cancel a task.
#[derive(Debug)]
pub struct CancelTaskRequest {
    pub task_id: String,
    pub reason: Option<String>,
}

/// The answer to a cancellation.
#[derive(Debug)]
pub struct CancelTaskResponse {
    pub task_id: String,
    pub task: Option<Task>,
}

/// Retry a task.
#[derive(Debug)]
pub struct RetryTaskRequest {
    pub task_id: String,
    pub reason: Option<String>,
}

/// The answer to a retry.
#[derive(Debug)]
pub struct RetryTaskResponse {
    pub task_id: String,
    pub task: Option<Task>,
}

/// All tasks.
#[derive(Debug)]
pub struct TaskListResponse {
    pub tasks: Vec<Task>,
}

/// Project files.
#[derive(Debug)]
pub struct ProjectFileListResponse {
    pub files: Vec<WorkspaceEntry>,
}

/// A capability as the frontend shows it.
#[derive(Debug)]
pub struct CapabilityResponse {
    pub name: String,
    pub description: String,
    pub available: bool,
}

/// An agent's status card. `last_active` is in milliseconds since the Unix
/// epoch.
#[derive(Debug)]
pub struct AgentStatusResponse {
    pub id: String,
    pub runtime_name: String,
    pub name: String,
    pub role: String,
    pub role_label: String,
    pub description: String,
    pub online: bool,
    pub status: String,
    pub status_label: String,
    pub current_task: Option<String>,
    pub capabilities: Vec<CapabilityResponse>,
    pub last_active: i64,
    pub selectable: bool,
    pub recommended: bool,
    pub is_internal: bool,
}

/// All agents' status cards.
#[derive(Debug)]
pub struct AgentListResponse {
    pub agents: Vec<AgentStatusResponse>,
}

/// The health report.
#[derive(Debug)]
pub struct HealthCheckResponse {
    pub healthy: bool,
    pub version: String,
    pub agent_count: usize,
}

// ------------------------------------------------------------------
// Structured errors
// ------------------------------------------------------------------
/// An error as the frontend receives it: a code, a message for the user, an
/// optional detail, whether retrying may help, and a random request id.
#[derive(Debug)]
pub struct ApiError {
    pub code: String,
    pub message: String,
    pub detail: Option<String>,
    pub retryable: bool,
    pub request_id: String,
}

/// Whether `e` carries this code, message, detail and retry flag.
pub open spec fn api_error_is(e: ApiError, code: Seq<char>, message: Seq<char>, detail: Option<Seq<char>>, retryable: bool) -> bool {
    e.code@ == code && e.message@ == message && opt_chars(e.detail) == detail && e.retryable == retryable
}

pub const AGENT_NOT_FOUND_MESSAGE: &'static str = "找不到指定的 AI 成员，请刷新团队成员列表，或切换为“自动分配”后重试。";

pub const AGENT_NOT_SELECTABLE_MESSAGE: &'static str = "这个 AI 成员主要作为内部能力使用，暂不支持直接对话。请切换为“自动分配”或选择协调员。";

pub const ROUTE_FAILED_MESSAGE: &'static str = "消息已收到，但交给 AI 成员处理时失败。请稍后重试，或切换为“自动分配”。";

pub const WORKSPACE_FAILED_MESSAGE: &'static str = "读取项目工作区时失败。请检查路径是否存在，或稍后重试。";

pub const HISTORY_FAILED_MESSAGE: &'static str = "读写聊天历史时失败。当前操作没有完成，请稍后重试。";

pub const COMMAND_FAILED_MESSAGE: &'static str = "运行项目命令时失败。请检查本机开发环境是否可用。";

pub const APPROVAL_FAILED_MESSAGE: &'static str = "处理审批请求时失败。请刷新审批列表后重试。";

pub const PATCH_FAILED_MESSAGE: &'static str = "处理补丁提案时失败。请刷新项目状态后重试。";

impl ApiError {
    /// An error with a fresh request id.
    pub fn new(code: &str, message: &str, detail: Option<String>, retryable: bool) -> (e: Self)
        ensures
            api_error_is(e, code@, message@, opt_chars(detail), retryable),
    {
        ApiError { code: own(code), message: own(message), detail, retryable, request_id: new_uuid() }
    }

    /// A request the user has to correct.
    pub fn invalid_argument(message: &str) -> (e: Self)
        ensures
            api_error_is(e, "INVALID_ARGUMENT"@, message@, None, false),
    {
        Self::new("INVALID_ARGUMENT", message, None, false)
    }

    /// No agent answers to `agent_id`.
    pub fn agent_not_found(agent_id: &str) -> (e: Self)
        ensures
            api_error_is(
                e,
                "AGENT_NOT_FOUND"@,
                AGENT_NOT_FOUND_MESSAGE@,
                Some("Agent ["@ + agent_id@ + "] 未注册"@),
                true,
            ),
    {
        let mut d = own("Agent [");
        push_str(&mut d, agent_id);
        push_str(&mut d, "] 未注册");
        Self::new("AGENT_NOT_FOUND", AGENT_NOT_FOUND_MESSAGE, Some(d), true)
    }

    /// The agent is internal and cannot be talked to directly.
    pub fn agent_not_selectable(meta: &AgentMeta) -> (e: Self)
        ensures
            api_error_is(
                e,
                "AGENT_NOT_SELECTABLE"@,
                AGENT_NOT_SELECTABLE_MESSAGE@,
                Some("Agent ["@ + meta@.runtime_name + "] is internal/selectable=false"@),
                false,
            ),
    {
        let mut d = own("Agent [");
        push_str(&mut d, meta.runtime_name);
        push_str(&mut d, "] is internal/selectable=false");
        Self::new("AGENT_NOT_SELECTABLE", AGENT_NOT_SELECTABLE_MESSAGE, Some(d), false)
    }

    /// Handing a message to an agent failed.
    pub fn route_failed(detail: String) -> (e: Self)
        ensures
            api_error_is(e, "ROUTE_FAILED"@, ROUTE_FAILED_MESSAGE@, Some(detail@), true),
    {
        Self::new("ROUTE_FAILED", ROUTE_FAILED_MESSAGE, Some(detail), true)
    }

    /// Reading the workspace failed.
    pub fn workspace_failed(detail: String) -> (e: Self)
        ensures
            api_error_is(e, "WORKSPACE_ERROR"@, WORKSPACE_FAILED_MESSAGE@, Some(detail@), false),
    {
        Self::new("WORKSPACE_ERROR", WORKSPACE_FAILED_MESSAGE, Some(detail), false)
    }

    /// Reading or writing chat history failed.
    pub fn history_failed(detail: String) -> (e: Self)
        ensures
            api_error_is(e, "HISTORY_ERROR"@, HISTORY_FAILED_MESSAGE@, Some(detail@), true),
    {
        Self::new("HISTORY_ERROR", HISTORY_FAILED_MESSAGE, Some(detail), true)
    }

    /// Running a project command failed.
    pub fn command_failed(detail: String) -> (e: Self)
        ensures
            api_error_is(e, "COMMAND_ERROR"@, COMMAND_FAILED_MESSAGE@, Some(detail@), true),
    {
        Self::new("COMMAND_ERROR", COMMAND_FAILED_MESSAGE, Some(detail), true)
    }

    /// Handling an approval failed.
    pub fn approval_failed(detail: String) -> (e: Self)
        ensures
            api_error_is(e, "APPROVAL_ERROR"@, APPROVAL_FAILED_MESSAGE@, Some(detail@), true),
    {
        Self::new("APPROVAL_ERROR", APPROVAL_FAILED_MESSAGE, Some(detail), true)
    }

    /// Handling a patch proposal failed.
    pub fn patch_failed(detail: String) -> (e: Self)
        ensures
            api_error_is(e, "PATCH_ERROR"@, PATCH_FAILED_MESSAGE@, Some(detail@), true),
    {
        Self::new("PATCH_ERROR", PATCH_FAILED_MESSAGE, Some(detail), true)
    }
}

/// The message of an agent error as the user reads it.
pub open spec fn error_message(e: AgentError) -> Seq<char> {
    match e {
        AgentError::Internal(m) => "Agent 内部错误: "@ + m@,
        AgentError::MessageFormat(m) => "消息格式错误: "@ + m@,
        AgentError::Timeout => "通信超时"@,
        AgentError::BusError(m) => "总线错误: "@ + m@,
        AgentError::Tool(m) => "工具调用错误: "@ + m@,
        AgentError::ToolNotFound(m) => "工具未找到: "@ + m@,
        AgentError::Database(m) => "数据库错误: "@ + m@,
        AgentError::LlmError(m) => "LLM 调用错误: "@ + m@,
        AgentError::Serialization(m) => "序列化错误: "@ + m@,
    }
}

/// A patch error for the frontend: a malformed request is the user's to
/// correct; anything else is a patch failure carrying the error's message.
pub fn map_patch_error(err: AgentError) -> (e: ApiError)
    ensures
        err matches AgentError::MessageFormat(m) ==> api_error_is(e, "INVALID_ARGUMENT"@, m@, None, false),
        !(err is MessageFormat) ==> api_error_is(
            e,
            "PATCH_ERROR"@,
            PATCH_FAILED_MESSAGE@,
            Some(error_message(err)),
            true,
        ),
{
    match err {
        AgentError::MessageFormat(m) => ApiError::invalid_argument(m.as_str()),
        other => ApiError::patch_failed(other.message()),
    }
}

// ------------------------------------------------------------------
// The agent catalog
// ------------------------------------------------------------------
/// How the frontend presents an agent.
#[derive(Debug, Clone, Copy)]
pub struct AgentMeta {
    pub id: &'static str,
    pub runtime_name: &'static str,
    pub display_name: &'static str,
    pub role: &'static str,
    pub role_label: &'static str,
    pub description: &'static str,
    pub selectable: bool,
    pub recommended: bool,
    pub is_internal: bool,
}

/// The model of an agent's presentation.
pub struct MetaView {
    pub id: Seq<char>,
    pub runtime_name: Seq<char>,
    pub display_name: Seq<char>,
    pub role: Seq<char>,
    pub role_label: Seq<char>,
    pub description: Seq<char>,
    pub selectable: bool,
    pub recommended: bool,
    pub is_internal: bool,
}

impl View for AgentMeta {
    type V = MetaView;

    open spec fn view(&self) -> MetaView {
        MetaView {
            id: self.id@,
            runtime_name: self.runtime_name@,
            display_name: self.display_name@,
            role: self.role@,
            role_label: self.role_label@,
            description: self.description@,
            selectable: self.selectable,
            recommended: self.recommended,
            is_internal: self.is_internal,
        }
    }
}

/// The agents the frontend knows, in order.
pub open spec fn catalog() -> Seq<MetaView> {
    seq![
        MetaView {
            id: "coordinator"@,
            runtime_name: "Planner"@,
            display_name: "协调员/总控"@,
            role: "planner"@,
            role_label: "任务规划与调度"@,
            description: "理解你的需求，拆解任务，并安排合适的 AI 成员协同处理。"@,
            selectable: true,
            recommended: true,
            is_internal: false,
        },
        MetaView {
            id: "executor"@,
            runtime_name: "Executor"@,
            display_name: "执行工程师"@,
            role: "executor"@,
            role_label: "任务执行"@,
            description: "负责执行明确任务，例如代码处理、命令运行、文件操作和问题修复。"@,
            selectable: true,
            recommended: false,
            is_internal: false,
        },
        MetaView {
            id: "memory"@,
            runtime_name: "Memory"@,
            display_name: "记忆管理员"@,
            role: "memory"@,
            role_label: "记忆与检索"@,
            description: "负责保存、查找和整理历史上下文，通常由协调员自动调用。"@,
            selectable: false,
            recommended: false,
            is_internal: true,
        },
        MetaView {
            id: "tool"@,
            runtime_name: "Tool"@,
            display_name: "工具操作员"@,
            role: "tool"@,
            role_label: "工具调用"@,
            description: "负责调用工具、接口和系统能力，通常作为内部执行能力使用。"@,
            selectable: false,
            recommended: false,
            is_internal: true,
        },
        MetaView {
            id: "echo"@,
            runtime_name: "Echo"@,
            display_name: "回声测试员"@,
            role: "echo"@,
            role_label: "连接测试"@,
            description: "用于测试系统消息链路是否正常，不适合处理复杂正式任务。"@,
            selectable: true,
            recommended: false,
            is_internal: false,
        },
    ]
}

/// How an agent outside the catalog is presented.
pub open spec fn custom_meta() -> MetaView {
    MetaView {
        id: "custom"@,
        runtime_name: "Custom"@,
        display_name: "自定义成员"@,
        role: "custom"@,
        role_label: "自定义能力"@,
        description: "项目中注册的自定义 AI 成员。"@,
        selectable: true,
        recommended: false,
        is_internal: false,
    }
}

/// Number of catalog entries.
pub const CATALOG_SIZE: usize = 5;

/// The catalog entry at position `i`.
pub fn catalog_entry(i: usize) -> (m: AgentMeta)
    requires
        i < CATALOG_SIZE,
    ensures
        m@ == catalog()[i as int],
{
    if i == 0 {
        AgentMeta {
            id: "coordinator",
            runtime_name: "Planner",
            display_name: "协调员/总控",
            role: "planner",
            role_label: "任务规划与调度",
            description: "理解你的需求，拆解任务，并安排合适的 AI 成员协同处理。",
            selectable: true,
            recommended: true,
            is_internal: false,
        }
    } else if i == 1 {
        AgentMeta {
            id: "executor",
            runtime_name: "Executor",
            display_name: "执行工程师",
            role: "executor",
            role_label: "任务执行",
            description: "负责执行明确任务，例如代码处理、命令运行、文件操作和问题修复。",
            selectable: true,
            recommended: false,
            is_internal: false,
        }
    } else if i == 2 {
        AgentMeta {
            id: "memory",
            runtime_name: "Memory",
            display_name: "记忆管理员",
            role: "memory",
            role_label: "记忆与检索",
            description: "负责保存、查找和整理历史上下文，通常由协调员自动调用。",
            selectable: false,
            recommended: false,
            is_internal: true,
        }
    } else if i == 3 {
        AgentMeta {
            id: "tool",
            runtime_name: "Tool",
            display_name: "工具操作员",
            role: "tool",
            role_label: "工具调用",
            description: "负责调用工具、接口和系统能力，通常作为内部执行能力使用。",
            selectable: false,
            recommended: false,
            is_internal: true,
        }
    } else {
        AgentMeta {
            id: "echo",
            runtime_name: "Echo",
            display_name: "回声测试员",
            role: "echo",
            role_label: "连接测试",
            description: "用于测试系统消息链路是否正常，不适合处理复杂正式任务。",
            selectable: true,
            recommended: false,
            is_internal: false,
        }
    }
}

fn custom_entry() -> (m: AgentMeta)
    ensures
        m@ == custom_meta(),
{
    AgentMeta {
        id: "custom",
        runtime_name: "Custom",
        display_name: "自定义成员",
        role: "custom",
        role_label: "自定义能力",
        description: "项目中注册的自定义 AI 成员。",
        selectable: true,
        recommended: false,
        is_internal: false,
    }
}

/// The first catalog entry from position `k` on whose runtime name is
/// `name`, or the custom presentation.
pub open spec fn meta_from(name: Seq<char>, k: int) -> MetaView
    decreases 5 - k,
{
    if k < 0 || k >= 5 {
        custom_meta()
    } else if catalog()[k].runtime_name == name {
        catalog()[k]
    } else {
        meta_from(name, k + 1)
    }
}

/// How the agent with runtime name `name` is presented.
pub fn meta_for_runtime_name(name: &str) -> (m: AgentMeta)
    ensures
        m@ == meta_from(name@, 0),
{
    let mut i: usize = 0;
    while i < CATALOG_SIZE
        invariant
            i <= CATALOG_SIZE,
            meta_from(name@, 0) == meta_from(name@, i as int),
        decreases CATALOG_SIZE - i,
    {
        let m = catalog_entry(i);
        if str_eq(m.runtime_name, name) {
            return m;
        }
        i += 1;
    }
    custom_entry()
}

/// Whether an id the user typed names this agent: its id, runtime name or
/// role, ignoring ASCII case.
pub open spec fn names_agent(m: MetaView, id: Seq<char>) -> bool {
    eq_ignore_ascii_case(m.id, id) || eq_ignore_ascii_case(m.runtime_name, id) || eq_ignore_ascii_case(
        m.role,
        id,
    )
}

/// The first catalog entry from position `k` on that `id` names.
pub open spec fn named_from(id: Seq<char>, k: int) -> Option<MetaView>
    decreases 5 - k,
{
    if k < 0 || k >= 5 {
        None
    } else if names_agent(catalog()[k], id) {
        Some(catalog()[k])
    } else {
        named_from(id, k + 1)
    }
}

fn ascii_case_eq(a: &str, b: &str) -> (r: bool)
    ensures
        r == eq_ignore_ascii_case(a@, b@),
{
    let la = to_ascii_lower(a);
    let lb = to_ascii_lower(b);
    str_eq(la.as_str(), lb.as_str())
}

fn find_named(id: &str) -> (r: Option<AgentMeta>)
    ensures
        match r {
            Some(m) => named_from(id@, 0) == Some(m@),
            None => named_from(id@, 0) is None,
        },
{
    let mut i: usize = 0;
    while i < CATALOG_SIZE
        invariant
            i <= CATALOG_SIZE,
            named_from(id@, 0) == named_from(id@, i as int),
        decreases CATALOG_SIZE - i,
    {
        let m = catalog_entry(i);
        if ascii_case_eq(m.id, id) || ascii_case_eq(m.runtime_name, id) || ascii_case_eq(m.role, id) {
            return Some(m);
        }
        i += 1;
    }
    None
}

/// Why a message goes to the coordinator when no agent was chosen.
pub const DEFAULT_ROUTE_REASON: &'static str = "未指定 AI 成员，默认由协调员/总控理解需求并自动分配。";

/// Why a message goes to the coordinator when the user chose it.
pub const COORDINATOR_ROUTE_REASON: &'static str = "已交给协调员/总控处理，他会判断是否需要分派其他成员。";

/// Why a message goes to the agent the user chose.
pub open spec fn route_reason(id: Seq<char>, m: MetaView) -> Seq<char> {
    let normalized = unicode_lowercase(id);
    if normalized == "coordinator"@ || normalized == "planner"@ {
        COORDINATOR_ROUTE_REASON@
    } else {
        "用户指定优先交给「"@ + m.display_name + "」处理。"@
    }
}

/// The agent a message goes to: the coordinator when no agent is given (or
/// the id is blank), else the first catalog entry the trimmed id names,
/// which must be selectable. Returns the presentation, the reason shown to
/// the user, and whether it fell back.
pub fn resolve_agent_meta(agent_id: Option<&str>) -> (r: Result<(AgentMeta, String, bool), ApiError>)
    ensures
        ({
            let raw = match agent_id {
                Some(s) => trim(s@),
                None => Seq::<char>::empty(),
            };
            &&& raw.len() == 0 ==> (r matches Ok(t) && t.0@ == meta_from("Planner"@, 0) && t.1@
                == DEFAULT_ROUTE_REASON@ && !t.2)
            &&& raw.len() > 0 ==> match named_from(raw, 0) {
                None => r matches Err(e) && api_error_is(
                    e,
                    "AGENT_NOT_FOUND"@,
                    AGENT_NOT_FOUND_MESSAGE@,
                    Some("Agent ["@ + raw + "] 未注册"@),
                    true,
                ),
                Some(m) => if m.selectable {
                    r matches Ok(t) && t.0@ == m && t.1@ == route_reason(raw, m) && !t.2
                } else {
                    r matches Err(e) && api_error_is(
                        e,
                        "AGENT_NOT_SELECTABLE"@,
                        AGENT_NOT_SELECTABLE_MESSAGE@,
                        Some("Agent ["@ + m.runtime_name + "] is internal/selectable=false"@),
                        false,
                    )
                },
            }
        }),
{
    let raw = match agent_id {
        Some(s) => trim_str(s),
        None => String::new(),
    };
    if raw.as_str().is_empty() {
        let meta = meta_for_runtime_name("Planner");
        return Ok((meta, own(DEFAULT_ROUTE_REASON), false));
    }
    let id = raw.as_str();
    let meta = match find_named(id) {
        Some(m) => m,
        None => return Err(ApiError::agent_not_found(id)),
    };
    if !meta.selectable {
        return Err(ApiError::agent_not_selectable(&meta));
    }
    let normalized = to_lowercase(id);
    let reason = if str_eq(normalized.as_str(), "coordinator") || str_eq(normalized.as_str(), "planner") {
        own(COORDINATOR_ROUTE_REASON)
    } else {
        let mut s = own("用户指定优先交给「");
        push_str(&mut s, meta.display_name);
        push_str(&mut s, "」处理。");
        s
    };
    Ok((meta, reason, false))
}

// ------------------------------------------------------------------
// Capabilities and status cards
// ------------------------------------------------------------------
/// The capability names an agent declares, by runtime name.
pub open spec fn agent_capability_names(name: Seq<char>) -> Seq<Seq<char>> {
    if name == "Echo"@ {
        seq!["chat"@]
    } else if name == "Planner"@ {
        seq!["planning"@, "chat"@]
    } else if name == "Executor"@ {
        seq!["code_execution"@, "tool_use"@]
    } else if name == "Memory"@ {
        seq!["memory"@, "retrieval"@]
    } else if name == "Tool"@ {
        seq!["tool_use"@]
    } else {
        seq!["chat"@]
    }
}

/// The description of a built-in capability.
pub open spec fn capability_description(name: Seq<char>) -> Seq<char> {
    if name == "chat"@ {
        "通用对话能力，可理解和回复自然语言"@
    } else if name == "planning"@ {
        "将复杂目标分解为可执行步骤"@
    } else if name == "code_execution"@ {
        "执行代码、脚本和命令"@
    } else if name == "retrieval"@ {
        "从知识库或外部源检索信息"@
    } else if name == "tool_use"@ {
        "调用外部工具和 API"@
    } else {
        "管理对话历史和长期记忆"@
    }
}

/// The level of a built-in capability.
pub open spec fn capability_level(name: Seq<char>) -> CapabilityLevel {
    if name == "planning"@ || name == "code_execution"@ || name == "tool_use"@ {
        CapabilityLevel::Advanced
    } else {
        CapabilityLevel::Basic
    }
}

/// Whether `c` is the built-in capability its name says.
pub open spec fn builtin_capability(c: Capability) -> bool {
    is_capability(c, c.name@, capability_description(c.name@), capability_level(c.name@))
}

/// The built-in capability names differ from one another.
proof fn lemma_capability_names_distinct()
    ensures
        "chat"@ != "planning"@,
        "chat"@ != "code_execution"@,
        "chat"@ != "retrieval"@,
        "chat"@ != "tool_use"@,
        "chat"@ != "memory"@,
        "planning"@ != "code_execution"@,
        "planning"@ != "retrieval"@,
        "planning"@ != "tool_use"@,
        "planning"@ != "memory"@,
        "code_execution"@ != "retrieval"@,
        "code_execution"@ != "tool_use"@,
        "code_execution"@ != "memory"@,
        "retrieval"@ != "tool_use"@,
        "retrieval"@ != "memory"@,
        "tool_use"@ != "memory"@,
{
    reveal_strlit("chat");
    reveal_strlit("planning");
    reveal_strlit("code_execution");
    reveal_strlit("retrieval");
    reveal_strlit("tool_use");
    reveal_strlit("memory");
    assert("chat"@.len() == 4);
    assert("planning"@.len() == 8);
    assert("code_execution"@.len() == 14);
    assert("retrieval"@.len() == 9);
    assert("tool_use"@.len() == 8);
    assert("memory"@.len() == 6);
    assert("planning"@[0] != "tool_use"@[0]);
}

/// The capabilities of the agent with runtime name `name`.
pub fn capabilities_for_agent(name: &str) -> (r: Vec<Capability>)
    ensures
        capability_names(r@) == agent_capability_names(name@),
        forall|i: int| 0 <= i < r@.len() ==> builtin_capability(#[trigger] r@[i]),
{
    let mut v: Vec<Capability> = Vec::new();
    if str_eq(name, "Echo") {
        v.push(Capability::chat());
    } else if str_eq(name, "Planner") {
        v.push(Capability::planning());
        v.push(Capability::chat());
    } else if str_eq(name, "Executor") {
        v.push(Capability::code_execution());
        v.push(Capability::tool_use());
    } else if str_eq(name, "Memory") {
        v.push(Capability::memory());
        v.push(Capability::retrieval());
    } else if str_eq(name, "Tool") {
        v.push(Capability::tool_use());
    } else {
        v.push(Capability::chat());
    }
    proof {
        lemma_capability_names_distinct();
    }
    assert(capability_names(v@) =~= agent_capability_names(name@));
    v
}

/// How a capability is named on a status card.
pub open spec fn capability_label_of(name: Seq<char>) -> Seq<char> {
    if name == "chat"@ {
        "自然语言对话"@
    } else if name == "planning"@ {
        "任务拆解"@
    } else if name == "code_execution"@ {
        "代码/命令执行"@
    } else if name == "retrieval"@ {
        "信息检索"@
    } else if name == "tool_use"@ {
        "工具调用"@
    } else if name == "memory"@ {
        "上下文记忆"@
    } else {
        name
    }
}

/// How a capability is named on a status card (see `capability_label_of`).
pub fn capability_label(name: &str) -> (r: String)
    ensures
        r@ == capability_label_of(name@),
{
    if str_eq(name, "chat") {
        own("自然语言对话")
    } else if str_eq(name, "planning") {
        own("任务拆解")
    } else if str_eq(name, "code_execution") {
        own("代码/命令执行")
    } else if str_eq(name, "retrieval") {
        own("信息检索")
    } else if str_eq(name, "tool_use") {
        own("工具调用")
    } else if str_eq(name, "memory") {
        own("上下文记忆")
    } else {
        own(name)
    }
}

/// The status card of an idle agent: its catalog presentation, its
/// capabilities under their labels, online and idle, with the current time.
pub fn build_agent_status(runtime_name: String) -> (r: AgentStatusResponse)
    ensures
        ({
            let m = meta_from(runtime_name@, 0);
            let names = agent_capability_names(runtime_name@);
            &&& r.id@ == m.id
            &&& r.runtime_name@ == runtime_name@
            &&& r.role@ == m.role
            &&& r.role_label@ == m.role_label
            &&& r.name@ == m.display_name
            &&& r.description@ == m.description
            &&& r.online
            &&& r.status@ == "idle"@
            &&& r.status_label@ == "空闲"@
            &&& r.current_task is None
            &&& r.selectable == m.selectable
            &&& r.recommended == m.recommended
            &&& r.is_internal == m.is_internal
            &&& r.capabilities@.len() == names.len()
            &&& forall|i: int|
                0 <= i < names.len() ==> (#[trigger] r.capabilities@[i]).name@ == capability_label_of(
                    names[i],
                ) && r.capabilities@[i].description@ == capability_description(names[i])
                    && r.capabilities@[i].available
        }),
{
    let meta = meta_for_runtime_name(runtime_name.as_str());
    let caps = capabilities_for_agent(runtime_name.as_str());
    let ghost names = agent_capability_names(runtime_name@);
    let mut out: Vec<CapabilityResponse> = Vec::new();
    let mut i: usize = 0;
    while i < caps.len()
        invariant
            i <= caps@.len(),
            capability_names(caps@) == names,
            forall|j: int| 0 <= j < caps@.len() ==> builtin_capability(#[trigger] caps@[j]),
            out@.len() == i,
            forall|j: int|
                0 <= j < i ==> (#[trigger] out@[j]).name@ == capability_label_of(names[j])
                    && out@[j].description@ == capability_description(names[j]) && out@[j].available,
        decreases caps.len() - i,
    {
        let cap = &caps[i];
        assert(names[i as int] == caps@[i as int].name@);
        assert(builtin_capability(caps@[i as int]));
        out.push(
            CapabilityResponse {
                name: capability_label(cap.name.as_str()),
                description: own(cap.description.as_str()),
                available: true,
            },
        );
        i += 1;
    }
    AgentStatusResponse {
        id: own(meta.id),
        runtime_name,
        role: own(meta.role),
        role_label: own(meta.role_label),
        name: own(meta.display_name),
        description: own(meta.description),
        online: true,
        status: own("idle"),
        status_label: own("空闲"),
        current_task: None,
        capabilities: out,
        last_active: now_millis(),
        selectable: meta.selectable,
        recommended: meta.recommended,
        is_internal: meta.is_internal,
    }
}

// ------------------------------------------------------------------
// Chat sessions and history
// ------------------------------------------------------------------
/// The session a message belongs to: the trimmed id, or `default` when it
/// is missing or blank.
pub fn clean_session_id(session_id: Option<&String>) -> (r: String)
    ensures
        r@ == match session_id {
            Some(s) => if trim(s@).len() > 0 {
                trim(s@)
            } else {
                "default"@
            },
            None => "default"@,
        },
{
    match session_id {
        Some(s) => {
            let t = trim_str(s.as_str());
            if t.as_str().is_empty() {
                own("default")
            } else {
                t
            }
        },
        None => own("default"),
    }
}

fn copy_opt(o: &Option<String>) -> (r: Option<String>)
    ensures
        opt_chars(r) == opt_chars(*o),
{
    match o {
        Some(s) => Some(own(s.as_str())),
        None => None,
    }
}

/// The stored form of a message shown in session `session_id`.
pub fn stored_message_from_response(session_id: &str, message: &ChatMessageResponse) -> (r: StoredChatMessage)
    ensures
        r.id@ == message.id@,
        r.session_id@ == session_id@,
        r.role@ == message.role@,
        r.content@ == message.content@,
        r.timestamp@ == message.timestamp@,
        opt_chars(r.sender_name) == opt_chars(message.sender_name),
{
    StoredChatMessage {
        id: own(message.id.as_str()),
        session_id: own(session_id),
        role: own(message.role.as_str()),
        content: own(message.content.as_str()),
        timestamp: own(message.timestamp.as_str()),
        sender_name: copy_opt(&message.sender_name),
    }
}

/// A stored message as the frontend shows it.
pub fn response_from_stored_message(message: StoredChatMessage) -> (r: ChatMessageResponse)
    ensures
        r.id == message.id,
        r.role == message.role,
        r.content == message.content,
        r.timestamp == message.timestamp,
        r.sender_name == message.sender_name,
{
    ChatMessageResponse {
        id: message.id,
        role: message.role,
        content: message.content,
        timestamp: message.timestamp,
        sender_name: message.sender_name,
    }
}

// ------------------------------------------------------------------
// Approvals that carry commands and patches
// ------------------------------------------------------------------
/// The action type of an approval that runs a project command.
pub const RUN_COMMAND_ACTION: &'static str = "runtime.runProjectCommand";

/// The action type of an approval that applies a patch.
pub const APPLY_PATCH_ACTION: &'static str = "workspace.applyPatch";

/// The status a patch proposal takes from its approval; a cancelled
/// approval leaves it unchanged.
pub open spec fn patch_status_for(s: ApprovalStatus) -> Option<PatchProposalStatus> {
    match s {
        ApprovalStatus::Pending => Some(PatchProposalStatus::PendingApproval),
        ApprovalStatus::Approved => Some(PatchProposalStatus::Approved),
        ApprovalStatus::Rejected => Some(PatchProposalStatus::Rejected),
        ApprovalStatus::Cancelled => None,
    }
}

/// The status a patch proposal takes from its approval.
pub fn patch_status_from_approval(status: &ApprovalStatus) -> (r: Option<PatchProposalStatus>)
    ensures
        r == patch_status_for(*status),
{
    match status {
        ApprovalStatus::Pending => Some(PatchProposalStatus::PendingApproval),
        ApprovalStatus::Approved => Some(PatchProposalStatus::Approved),
        ApprovalStatus::Rejected => Some(PatchProposalStatus::Rejected),
        ApprovalStatus::Cancelled => None,
    }
}

/// The trimmed, non-blank string under `key` in a payload.
pub open spec fn payload_text(payload: Json, key: Seq<char>) -> Option<Seq<char>> {
    match crate::json::json_get_str(payload, key) {
        Some(s) => clean_opt(s),
        None => None,
    }
}

fn payload_text_of(payload: &JsonValue, key: &str) -> (r: Option<String>)
    ensures
        opt_chars(r) == payload_text(jv(*payload), key@),
{
    match payload.get_str(key) {
        Some(s) => clean_str(s.as_str()),
        None => None,
    }
}

/// The patch an approval is for: the trimmed `patchId` of an apply-patch
/// approval.
pub open spec fn patch_id_of(action_type: Seq<char>, payload: Json) -> Option<Seq<char>> {
    if action_type != APPLY_PATCH_ACTION@ {
        None
    } else {
        payload_text(payload, "patchId"@)
    }
}

/// The patch an approval is for (see `patch_id_of`).
pub fn patch_id_from_approval(approval: &ApprovalRequest) -> (r: Option<String>)
    ensures
        opt_chars(r) == patch_id_of(approval.action_type@, jv(approval.action_payload)),
{
    if !str_eq(approval.action_type.as_str(), APPLY_PATCH_ACTION) {
        return None;
    }
    payload_text_of(&approval.action_payload, "patchId")
}

pub const NOT_PATCH_APPROVAL: &'static str = "这条审批不是补丁应用请求，不能作为补丁应用。";

pub const PATCH_NOT_APPROVED: &'static str = "审批请求尚未通过，不能应用对应补丁。";

pub const PATCH_ID_MISSING: &'static str = "审批 payload 缺少补丁提案 ID。";

/// The patch an approved apply-patch approval is for. Fails, in this order,
/// when the approval is for something else, when it is not approved, and
/// when its payload names no patch.
pub fn approved_patch_id_from_approval(approval: &ApprovalRequest) -> (r: Result<String, ApiError>)
    ensures
        approval.action_type@ != APPLY_PATCH_ACTION@ ==> (r matches Err(e) && api_error_is(
            e,
            "INVALID_ARGUMENT"@,
            NOT_PATCH_APPROVAL@,
            None,
            false,
        )),
        (approval.action_type@ == APPLY_PATCH_ACTION@ && approval.status != ApprovalStatus::Approved)
            ==> (r matches Err(e) && api_error_is(e, "INVALID_ARGUMENT"@, PATCH_NOT_APPROVED@, None, false)),
        (approval.action_type@ == APPLY_PATCH_ACTION@ && approval.status == ApprovalStatus::Approved) ==> (
        match patch_id_of(approval.action_type@, jv(approval.action_payload)) {
            Some(id) => r matches Ok(s) && s@ == id,
            None => r matches Err(e) && api_error_is(e, "INVALID_ARGUMENT"@, PATCH_ID_MISSING@, None, false),
        }),
{
    if !str_eq(approval.action_type.as_str(), APPLY_PATCH_ACTION) {
        return Err(ApiError::invalid_argument(NOT_PATCH_APPROVAL));
    }
    match approval.status {
        ApprovalStatus::Approved => {},
        _ => return Err(ApiError::invalid_argument(PATCH_NOT_APPROVED)),
    }
    match patch_id_from_approval(approval) {
        Some(id) => Ok(id),
        None => Err(ApiError::invalid_argument(PATCH_ID_MISSING)),
    }
}

pub const NOT_COMMAND_APPROVAL: &'static str = "这条审批不是项目命令执行请求，不能作为命令运行。";

pub const COMMAND_NOT_APPROVED: &'static str = "审批请求尚未通过，不能执行对应命令。";

pub const COMMAND_MISSING: &'static str = "审批 payload 缺少命令内容。";

pub const WORKING_DIR_MISSING: &'static str = "审批 payload 缺少工作目录。";

/// The command an approved run-command approval carries. Fails, in this
/// order, when the approval is for something else, when it is not approved,
/// when its payload has no command, and when it has no working directory.
pub fn project_command_request_from_approval(approval: &ApprovalRequest) -> (r: Result<ProjectCommandRunRequest, ApiError>)
    ensures
        approval.action_type@ != RUN_COMMAND_ACTION@ ==> (r matches Err(e) && api_error_is(
            e,
            "INVALID_ARGUMENT"@,
            NOT_COMMAND_APPROVAL@,
            None,
            false,
        )),
        (approval.action_type@ == RUN_COMMAND_ACTION@ && approval.status != ApprovalStatus::Approved)
            ==> (r matches Err(e) && api_error_is(e, "INVALID_ARGUMENT"@, COMMAND_NOT_APPROVED@, None, false)),
        (approval.action_type@ == RUN_COMMAND_ACTION@ && approval.status == ApprovalStatus::Approved)
            ==> match (
            payload_text(jv(approval.action_payload), "command"@),
            payload_text(jv(approval.action_payload), "workingDir"@),
        ) {
            (None, _) => r matches Err(e) && api_error_is(e, "INVALID_ARGUMENT"@, COMMAND_MISSING@, None, false),
            (Some(_), None) => r matches Err(e) && api_error_is(
                e,
                "INVALID_ARGUMENT"@,
                WORKING_DIR_MISSING@,
                None,
                false,
            ),
            (Some(c), Some(d)) => r matches Ok(q) && q.command@ == c && q.working_dir@ == d,
        },
{
    if !str_eq(approval.action_type.as_str(), RUN_COMMAND_ACTION) {
        return Err(ApiError::invalid_argument(NOT_COMMAND_APPROVAL));
    }
    match approval.status {
        ApprovalStatus::Approved => {},
        _ => return Err(ApiError::invalid_argument(COMMAND_NOT_APPROVED)),
    }
    let command = match payload_text_of(&approval.action_payload, "command") {
        Some(c) => c,
        None => return Err(ApiError::invalid_argument(COMMAND_MISSING)),
    };
    let working_dir = match payload_text_of(&approval.action_payload, "workingDir") {
        Some(d) => d,
        None => return Err(ApiError::invalid_argument(WORKING_DIR_MISSING)),
    };
    Ok(ProjectCommandRunRequest { command, working_dir })
}

/// The payload of an approval to run a command outside the allowlist.
pub open spec fn command_approval_payload(command: Seq<char>, dir: Seq<char>, allowed: bool) -> Json {
    Json::Object(
        seq![
            ("command"@, Json::Str(command)),
            ("workingDir"@, Json::Str(dir)),
            ("allowedByDefault"@, Json::Bool(allowed)),
        ],
    )
}

/// The approval asked for before running an inspected command: high risk,
/// requested by the project panel, carrying the command, its directory and
/// whether the allowlist admits it.
pub fn build_project_command_approval_input(inspection: &ProjectCommandInspection) -> (r: CreateApprovalRequest)
    ensures
        r.task_id is None,
        r.step_id is None,
        r.title@ == "运行项目命令："@ + inspection.command@,
        r.reason@ == "命令 ["@ + inspection.command@ + "] 不在受控允许列表中，需要用户确认后再进入后续执行流程。"@,
        r.risk == RiskLevel::High,
        r.action_type@ == RUN_COMMAND_ACTION@,
        jv(r.action_payload) == command_approval_payload(
            inspection.command@,
            inspection.working_dir@,
            inspection.allowed,
        ),
        opt_chars(r.requested_by) == Some("ProjectPanel"@),
{
    let mut title = own("运行项目命令：");
    push_str(&mut title, inspection.command.as_str());
    let mut reason = own("命令 [");
    push_str(&mut reason, inspection.command.as_str());
    push_str(&mut reason, "] 不在受控允许列表中，需要用户确认后再进入后续执行流程。");
    let mut fields: Vec<(String, JsonValue)> = Vec::new();
    push_field(&mut fields, "command", jstr(inspection.command.as_str()));
    push_field(&mut fields, "workingDir", jstr(inspection.working_dir.as_str()));
    push_field(&mut fields, "allowedByDefault", JsonValue::Bool(inspection.allowed));
    proof {
        assert(jv_fields(fields@) =~= seq![
            ("command"@, Json::Str(inspection.command@)),
            ("workingDir"@, Json::Str(inspection.working_dir@)),
            ("allowedByDefault"@, Json::Bool(inspection.allowed)),
        ]);
    }
    CreateApprovalRequest {
        task_id: None,
        step_id: None,
        title,
        reason,
        risk: RiskLevel::High,
        action_type: own(RUN_COMMAND_ACTION),
        action_payload: object(fields),
        requested_by: Some(own("ProjectPanel")),
    }
}

/// The payload entry describing one changed file.
pub open spec fn file_entry(f: FileChangeView) -> Json {
    Json::Object(
        seq![
            ("path"@, Json::Str(f.path)),
            ("changeType"@, Json::Str("modify"@)),
            ("diff"@, Json::Str(f.diff)),
        ],
    )
}

/// The payload of an approval to apply a patch.
pub open spec fn patch_approval_payload(id: Seq<char>, summary: Seq<char>, files: Seq<FileChangeView>, unified: Seq<char>) -> Json {
    Json::Object(
        seq![
            ("patchId"@, Json::Str(id)),
            ("summary"@, Json::Str(summary)),
            ("files"@, Json::Array(files.map_values(|f: FileChangeView| file_entry(f)))),
            ("unifiedDiff"@, Json::Str(unified)),
        ],
    )
}

/// The approval asked for before applying a proposal: high risk, linked to
/// its task and step, requested by whoever proposed it, carrying the patch
/// id, summary, each file's path and diff, and the whole diff.
pub fn build_patch_approval_input(proposal: &PatchProposal) -> (r: CreateApprovalRequest)
    requires
        proposal.files@.len() <= u64::MAX,
    ensures
        opt_chars(r.task_id) == opt_chars(proposal.task_id),
        opt_chars(r.step_id) == opt_chars(proposal.step_id),
        r.title@ == "应用补丁："@ + proposal.summary@,
        r.reason@ == "补丁提案 ["@ + proposal.summary@ + "] 将修改 "@ + decimal(proposal.files@.len())
            + " 个文件，需要用户确认 diff 后再进入应用流程。"@,
        r.risk == RiskLevel::High,
        r.action_type@ == APPLY_PATCH_ACTION@,
        jv(r.action_payload) == patch_approval_payload(
            proposal.id@,
            proposal.summary@,
            change_views(proposal.files@),
            proposal.unified_diff@,
        ),
        opt_chars(r.requested_by) == Some(proposal.requested_by@),
{
    let mut items: Vec<JsonValue> = Vec::new();
    let ghost views = change_views(proposal.files@);
    let mut i: usize = 0;
    while i < proposal.files.len()
        invariant
            i <= proposal.files@.len(),
            views == change_views(proposal.files@),
            jv_items(items@) == views.take(i as int).map_values(|f: FileChangeView| file_entry(f)),
        decreases proposal.files.len() - i,
    {
        let f = &proposal.files[i];
        let mut fields: Vec<(String, JsonValue)> = Vec::new();
        push_field(&mut fields, "path", jstr(f.path.as_str()));
        push_field(&mut fields, "changeType", jstr("modify"));
        push_field(&mut fields, "diff", jstr(f.diff.as_str()));
        let entry = object(fields);
        proof {
            assert(jv_fields(fields@) =~= seq![
                ("path"@, Json::Str(f.path@)),
                ("changeType"@, Json::Str("modify"@)),
                ("diff"@, Json::Str(f.diff@)),
            ]);
            assert(views[i as int] == f@);
            assert(jv(entry) == file_entry(views[i as int]));
            crate::json::lemma_jv_items_push(items@, entry);
        }
        items.push(entry);
        proof {
            assert(views.take(i + 1).map_values(|f: FileChangeView| file_entry(f)) =~= views.take(
                i as int,
            ).map_values(|f: FileChangeView| file_entry(f)).push(file_entry(views[i as int])));
        }
        i += 1;
    }
    proof {
        assert(views.take(proposal.files@.len() as int) =~= views);
    }
    let mut fields: Vec<(String, JsonValue)> = Vec::new();
    push_field(&mut fields, "patchId", jstr(proposal.id.as_str()));
    push_field(&mut fields, "summary", jstr(proposal.summary.as_str()));
    let files_json = JsonValue::Array(items);
    push_field(&mut fields, "files", files_json);
    push_field(&mut fields, "unifiedDiff", jstr(proposal.unified_diff.as_str()));
    proof {
        assert(jv_fields(fields@) =~= seq![
            ("patchId"@, Json::Str(proposal.id@)),
            ("summary"@, Json::Str(proposal.summary@)),
            ("files"@, Json::Array(views.map_values(|f: FileChangeView| file_entry(f)))),
            ("unifiedDiff"@, Json::Str(proposal.unified_diff@)),
        ]);
    }
    let mut title = own("应用补丁：");
    push_str(&mut title, proposal.summary.as_str());
    let mut reason = own("补丁提案 [");
    push_str(&mut reason, proposal.summary.as_str());
    push_str(&mut reason, "] 将修改 ");
    let n = decimal_string(proposal.files.len() as u64);
    push_str(&mut reason, n.as_str());
    push_str(&mut reason, " 个文件，需要用户确认 diff 后再进入应用流程。");
    CreateApprovalRequest {
        task_id: copy_opt(&proposal.task_id),
        step_id: copy_opt(&proposal.step_id),
        title,
        reason,
        risk: RiskLevel::High,
        action_type: own(APPLY_PATCH_ACTION),
        action_payload: object(fields),
        requested_by: Some(own(proposal.requested_by.as_str())),
    }
}

} // verus!
