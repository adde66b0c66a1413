//! Approval requests for high-risk actions and the approval policy.
use vstd::prelude::*;
use crate::clock::{new_uuid, now_millis};
use crate::error::AgentError;
use crate::json::{Json, JsonValue, jv};
use crate::task::opt_str;
use crate::text::{clean_opt, clean_opt_string, clean_optional, clean_or_default, clean_str, concat2, concat3, trim};

verus! {

/// Risk level of an action that may require approval.
#[derive(Clone, Copy, Debug, PartialEq, Eq, Structural)]
pub enum RiskLevel {
    Low,
    Medium,
    High,
    Critical,
}

/// Lifecycle of an approval request.
#[derive(Clone, Copy, Debug, PartialEq, Eq, Structural)]
pub enum ApprovalStatus {
    Pending,
    Approved,
    Rejected,
    Cancelled,
}

/// A request asking the user to approve one action. Times are milliseconds
/// since the Unix epoch.
#[derive(Debug)]
pub struct ApprovalRequest {
    pub id: String,
    pub task_id: Option<String>,
    pub step_id: Option<String>,
    pub title: String,
    pub reason: String,
    pub risk: RiskLevel,
    pub action_type: String,
    pub action_payload: JsonValue,
    pub status: ApprovalStatus,
    pub requested_by: String,
    pub decided_by: Option<String>,
    pub decision_note: Option<String>,
    pub created_at: i64,
    pub updated_at: i64,
    pub decided_at: Option<i64>,
}

/// What a producer supplies to create an approval request.
#[derive(Debug)]
pub struct CreateApprovalRequest {
    pub task_id: Option<String>,
    pub step_id: Option<String>,
    pub title: String,
    pub reason: String,
    pub risk: RiskLevel,
    pub action_type: String,
    pub action_payload: JsonValue,
    pub requested_by: Option<String>,
}

/// The user's decision on an approval request.
#[derive(Debug)]
pub struct ApprovalDecisionRequest {
    pub approval_id: String,
    pub approved: bool,
    pub note: Option<String>,
    pub decided_by: Option<String>,
}

/// A list of approval requests.
#[derive(Debug)]
pub struct ApprovalListResponse {
    pub approvals: Vec<ApprovalRequest>,
}

/// The model of an approval request.
pub struct ApprovalView {
    pub id: Seq<char>,
    pub task_id: Option<Seq<char>>,
    pub step_id: Option<Seq<char>>,
    pub title: Seq<char>,
    pub reason: Seq<char>,
    pub risk: RiskLevel,
    pub action_type: Seq<char>,
    pub action_payload: Json,
    pub status: ApprovalStatus,
    pub requested_by: Seq<char>,
    pub decided_by: Option<Seq<char>>,
    pub decision_note: Option<Seq<char>>,
    pub created_at: i64,
    pub updated_at: i64,
    pub decided_at: Option<i64>,
}

impl View for ApprovalRequest {
    type V = ApprovalView;

    open spec fn view(&self) -> ApprovalView {
        ApprovalView {
            id: self.id@,
            task_id: opt_str(self.task_id),
            step_id: opt_str(self.step_id),
            title: self.title@,
            reason: self.reason@,
            risk: self.risk,
            action_type: self.action_type@,
            action_payload: jv(self.action_payload),
            status: self.status,
            requested_by: self.requested_by@,
            decided_by: opt_str(self.decided_by),
            decision_note: opt_str(self.decision_note),
            created_at: self.created_at,
            updated_at: self.updated_at,
            decided_at: self.decided_at,
        }
    }
}

/// Whether an action of this risk must wait for the user's approval:
/// medium risk and above.
pub open spec fn needs_approval(risk: RiskLevel) -> bool {
    risk == RiskLevel::Medium || risk == RiskLevel::High || risk == RiskLevel::Critical
}

/// Whether an action of this risk must wait for the user's approval.
pub fn requires_user_approval(risk: &RiskLevel) -> (b: bool)
    ensures
        b == needs_approval(*risk),
{
    matches!(risk, RiskLevel::Medium | RiskLevel::High | RiskLevel::Critical)
}

/// The name of a status as stored and serialized.
pub open spec fn status_text(status: ApprovalStatus) -> Seq<char> {
    match status {
        ApprovalStatus::Pending => "pending"@,
        ApprovalStatus::Approved => "approved"@,
        ApprovalStatus::Rejected => "rejected"@,
        ApprovalStatus::Cancelled => "cancelled"@,
    }
}

/// The name of a status as stored and serialized.
pub fn status_value(status: &ApprovalStatus) -> (s: &'static str)
    ensures
        s@ == status_text(*status),
{
    match status {
        ApprovalStatus::Pending => "pending",
        ApprovalStatus::Approved => "approved",
        ApprovalStatus::Rejected => "rejected",
        ApprovalStatus::Cancelled => "cancelled",
    }
}

/// The status written as its variant name.
pub open spec fn status_debug_text(status: ApprovalStatus) -> Seq<char> {
    match status {
        ApprovalStatus::Pending => "Pending"@,
        ApprovalStatus::Approved => "Approved"@,
        ApprovalStatus::Rejected => "Rejected"@,
        ApprovalStatus::Cancelled => "Cancelled"@,
    }
}

fn status_debug(status: ApprovalStatus) -> (s: &'static str)
    ensures
        s@ == status_debug_text(status),
{
    match status {
        ApprovalStatus::Pending => "Pending",
        ApprovalStatus::Approved => "Approved",
        ApprovalStatus::Rejected => "Rejected",
        ApprovalStatus::Cancelled => "Cancelled",
    }
}

/// The label of a status shown to the user.
pub open spec fn approval_status_text(status: ApprovalStatus) -> Seq<char> {
    match status {
        ApprovalStatus::Pending => "等待中"@,
        ApprovalStatus::Approved => "已通过"@,
        ApprovalStatus::Rejected => "已拒绝"@,
        ApprovalStatus::Cancelled => "已取消"@,
    }
}

/// The label of a status shown to the user.
pub fn approval_status_label(status: &ApprovalStatus) -> (s: &'static str)
    ensures
        s@ == approval_status_text(*status),
{
    match status {
        ApprovalStatus::Pending => "等待中",
        ApprovalStatus::Approved => "已通过",
        ApprovalStatus::Rejected => "已拒绝",
        ApprovalStatus::Cancelled => "已取消",
    }
}

/// The status named by a stored status text, if any.
pub open spec fn status_named(s: Seq<char>) -> Option<ApprovalStatus> {
    if s == "pending"@ {
        Some(ApprovalStatus::Pending)
    } else if s == "approved"@ {
        Some(ApprovalStatus::Approved)
    } else if s == "rejected"@ {
        Some(ApprovalStatus::Rejected)
    } else if s == "cancelled"@ {
        Some(ApprovalStatus::Cancelled)
    } else {
        None
    }
}

/// Parses an optional status filter. Absent or blank: `Ok(None)`; one of the
/// four status names (after trimming): that status; anything else is an
/// error naming the value.
pub fn parse_approval_status(value: Option<&str>) -> (r: Result<Option<ApprovalStatus>, AgentError>)
    ensures
        match value {
            None => r == Ok::<Option<ApprovalStatus>, AgentError>(None),
            Some(v) => match clean_opt(v@) {
                None => r == Ok::<Option<ApprovalStatus>, AgentError>(None),
                Some(t) => match status_named(t) {
                    Some(st) => r == Ok::<Option<ApprovalStatus>, AgentError>(Some(st)),
                    None => r matches Err(AgentError::MessageFormat(m)) && m@ == "未知审批状态 ["@ + t
                        + "]"@,
                },
            },
        },
{
    let v = match value {
        None => return Ok(None),
        Some(v) => v,
    };
    let t = match clean_str(v) {
        None => return Ok(None),
        Some(t) => t,
    };
    let ts = t.as_str();
    if crate::text::str_eq(ts, "pending") {
        Ok(Some(ApprovalStatus::Pending))
    } else if crate::text::str_eq(ts, "approved") {
        Ok(Some(ApprovalStatus::Approved))
    } else if crate::text::str_eq(ts, "rejected") {
        Ok(Some(ApprovalStatus::Rejected))
    } else if crate::text::str_eq(ts, "cancelled") {
        Ok(Some(ApprovalStatus::Cancelled))
    } else {
        Err(AgentError::MessageFormat(concat3("未知审批状态 [", ts, "]")))
    }
}

/// The message of the error for a blank required field.
pub open spec fn blank_message(label: Seq<char>) -> Seq<char> {
    label + "不能为空"@
}

/// `value` trimmed; an error naming `label` when it is blank.
pub fn clean_required(label: &str, value: &str) -> (r: Result<String, AgentError>)
    ensures
        match clean_opt(value@) {
            Some(t) => r matches Ok(s) && s@ == t,
            None => r matches Err(AgentError::MessageFormat(m)) && m@ == blank_message(label@),
        },
{
    match clean_str(value) {
        Some(t) => Ok(t),
        None => Err(AgentError::MessageFormat(concat2(label, "不能为空"))),
    }
}

/// The name recorded for a requester or decider: the trimmed value, or
/// `default` when it is absent or blank.
pub open spec fn name_or(value: Option<Seq<char>>, default: Seq<char>) -> Seq<char> {
    match value {
        Some(v) => if trim(v).len() == 0 {
            default
        } else {
            trim(v)
        },
        None => default,
    }
}

impl ApprovalRequest {
    /// Creates a pending request. Title, reason and action type are trimmed
    /// and must not be blank (checked in that order); the task and step ids
    /// are trimmed and dropped when blank; the requester defaults to
    /// `system`.
    pub fn new(input: CreateApprovalRequest) -> (r: Result<ApprovalRequest, AgentError>)
        ensures
            match r {
                Ok(a) => {
                    &&& clean_opt(input.title@) == Some(a@.title)
                    &&& clean_opt(input.reason@) == Some(a@.reason)
                    &&& clean_opt(input.action_type@) == Some(a@.action_type)
                    &&& a@.task_id == clean_opt_string(input.task_id)
                    &&& a@.step_id == clean_opt_string(input.step_id)
                    &&& a@.risk == input.risk
                    &&& a@.action_payload == jv(input.action_payload)
                    &&& a@.status == ApprovalStatus::Pending
                    &&& a@.requested_by == name_or(opt_str(input.requested_by), "system"@)
                    &&& a@.decided_by is None
                    &&& a@.decision_note is None
                    &&& a@.decided_at is None
                    &&& a@.updated_at == a@.created_at
                },
                Err(e) => e matches AgentError::MessageFormat(m) && if clean_opt(input.title@) is None {
                    m@ == blank_message("审批标题"@)
                } else if clean_opt(input.reason@) is None {
                    m@ == blank_message("审批原因"@)
                } else {
                    clean_opt(input.action_type@) is None && m@ == blank_message("审批动作类型"@)
                },
            },
    {
        let title = match clean_required("审批标题", input.title.as_str()) {
            Ok(t) => t,
            Err(e) => return Err(e),
        };
        let reason = match clean_required("审批原因", input.reason.as_str()) {
            Ok(t) => t,
            Err(e) => return Err(e),
        };
        let action_type = match clean_required("审批动作类型", input.action_type.as_str()) {
            Ok(t) => t,
            Err(e) => return Err(e),
        };
        let requested_by = match &input.requested_by {
            Some(v) => clean_or_default(Some(v.as_str()), "system"),
            None => clean_or_default(None, "system"),
        };
        let now = now_millis();
        Ok(ApprovalRequest {
            id: new_uuid(),
            task_id: clean_optional(input.task_id.as_ref()),
            step_id: clean_optional(input.step_id.as_ref()),
            title,
            reason,
            risk: input.risk,
            action_type,
            action_payload: input.action_payload,
            status: ApprovalStatus::Pending,
            requested_by,
            decided_by: None,
            decision_note: None,
            created_at: now,
            updated_at: now,
            decided_at: None,
        })
    }

    /// Records the user's decision. Only a pending request can be decided;
    /// any other is refused and left unchanged. The decider defaults to
    /// `user`; a blank note is dropped.
    pub fn decide(&mut self, approved: bool, decided_by: Option<&str>, note: Option<&str>) -> (r: Result<(), AgentError>)
        ensures
            old(self)@.status != ApprovalStatus::Pending ==> final(self)@ == old(self)@ && (r matches Err(
                AgentError::MessageFormat(m),
            ) && m@ == "审批请求 ["@ + old(self)@.id + "] 当前状态为 "@ + status_debug_text(
                old(self)@.status,
            ) + "，不能重复决策"@),
            old(self)@.status == ApprovalStatus::Pending ==> r is Ok && final(self)@ == (ApprovalView {
                status: if approved {
                    ApprovalStatus::Approved
                } else {
                    ApprovalStatus::Rejected
                },
                decided_by: Some(
                    name_or(
                        match decided_by {
                            Some(d) => Some(d@),
                            None => None,
                        },
                        "user"@,
                    ),
                ),
                decision_note: match note {
                    Some(n) => clean_opt(n@),
                    None => None,
                },
                updated_at: final(self)@.updated_at,
                decided_at: Some(final(self)@.updated_at),
                ..old(self)@
            }),
    {
        if self.status != ApprovalStatus::Pending {
            let mut m = concat3("审批请求 [", self.id.as_str(), "] 当前状态为 ");
            crate::text::push_str(&mut m, status_debug(self.status));
            crate::text::push_str(&mut m, "，不能重复决策");
            return Err(AgentError::MessageFormat(m));
        }
        self.status = if approved {
            ApprovalStatus::Approved
        } else {
            ApprovalStatus::Rejected
        };
        self.decided_by = Some(clean_or_default(decided_by, "user"));
        self.decision_note = match note {
            Some(n) => clean_str(n),
            None => None,
        };
        let now = now_millis();
        self.updated_at = now;
        self.decided_at = Some(now);
        Ok(())
    }
}

} // verus!
