//! Patch proposals: their model, validation and the state of applying one.
use vstd::prelude::*;
use crate::json::{Json, JsonValue, jv};
use crate::task::{opt_str, strs};

verus! {

/// Lifecycle of a patch proposal.
#[derive(Clone, Copy, Debug, PartialEq, Eq, Structural)]
pub enum PatchProposalStatus {
    Draft,
    PendingApproval,
    Approved,
    Rejected,
    Applied,
    Reverted,
}

/// The kind of change a patch makes to a file.
#[derive(Clone, Copy, Debug, PartialEq, Eq, Structural)]
pub enum PatchChangeType {
    Modify,
}

/// One file of a patch as requested: its path and both versions.
#[derive(Debug)]
pub struct PatchFileInput {
    pub path: String,
    pub old_content: String,
    pub new_content: String,
}

/// A request to create a patch proposal.
#[derive(Debug)]
pub struct CreatePatchProposalRequest {
    pub summary: String,
    pub files: Vec<PatchFileInput>,
    pub task_id: Option<String>,
    pub step_id: Option<String>,
    pub requested_by: Option<String>,
}

/// One file of a patch proposal, with its diff.
#[derive(Debug)]
pub struct PatchFileChange {
    pub path: String,
    pub change_type: PatchChangeType,
    pub old_content: String,
    pub new_content: String,
    pub diff: String,
}

/// A proposed change to workspace files. Times are milliseconds since the
/// Unix epoch.
#[derive(Debug)]
pub struct PatchProposal {
    pub id: String,
    pub task_id: Option<String>,
    pub step_id: Option<String>,
    pub approval_id: Option<String>,
    pub summary: String,
    pub status: PatchProposalStatus,
    pub files: Vec<PatchFileChange>,
    pub unified_diff: String,
    pub requested_by: String,
    pub created_at: i64,
    pub updated_at: i64,
    pub applied_at: Option<i64>,
    pub applied_by: Option<String>,
    pub reverted_at: Option<i64>,
    pub reverted_by: Option<String>,
}

/// A list of patch proposals.
#[derive(Debug)]
pub struct PatchProposalListResponse {
    pub proposals: Vec<PatchProposal>,
}

/// What applying a patch did.
#[derive(Debug)]
pub struct PatchApplyResult {
    pub patch_id: String,
    pub status: PatchProposalStatus,
    pub files: Vec<String>,
    pub applied_at: i64,
    pub already_applied: bool,
    pub auto_rollback: Option<PatchAutoRollbackResult>,
}

/// What reverting a patch did.
#[derive(Debug)]
pub struct PatchRevertResult {
    pub patch_id: String,
    pub status: PatchProposalStatus,
    pub files: Vec<String>,
    pub reverted_at: i64,
    pub already_reverted: bool,
}

/// What the automatic rollback after a failed verification did.
#[derive(Debug)]
pub struct PatchAutoRollbackResult {
    pub triggered_by: String,
    pub reverted: bool,
    pub error: Option<String>,
    pub result: Option<PatchRevertResult>,
}

/// The model of a file change.
pub struct FileChangeView {
    pub path: Seq<char>,
    pub change_type: PatchChangeType,
    pub old_content: Seq<char>,
    pub new_content: Seq<char>,
    pub diff: Seq<char>,
}

impl View for PatchFileChange {
    type V = FileChangeView;

    open spec fn view(&self) -> FileChangeView {
        FileChangeView {
            path: self.path@,
            change_type: self.change_type,
            old_content: self.old_content@,
            new_content: self.new_content@,
            diff: self.diff@,
        }
    }
}

/// The models of a list of file changes.
pub open spec fn change_views(v: Seq<PatchFileChange>) -> Seq<FileChangeView> {
    v.map_values(|c: PatchFileChange| c@)
}

/// The model of a patch proposal.
pub struct ProposalView {
    pub id: Seq<char>,
    pub task_id: Option<Seq<char>>,
    pub step_id: Option<Seq<char>>,
    pub approval_id: Option<Seq<char>>,
    pub summary: Seq<char>,
    pub status: PatchProposalStatus,
    pub files: Seq<FileChangeView>,
    pub unified_diff: Seq<char>,
    pub requested_by: Seq<char>,
    pub created_at: i64,
    pub updated_at: i64,
    pub applied_at: Option<i64>,
    pub applied_by: Option<Seq<char>>,
    pub reverted_at: Option<i64>,
    pub reverted_by: Option<Seq<char>>,
}

impl View for PatchProposal {
    type V = ProposalView;

    open spec fn view(&self) -> ProposalView {
        ProposalView {
            id: self.id@,
            task_id: opt_str(self.task_id),
            step_id: opt_str(self.step_id),
            approval_id: opt_str(self.approval_id),
            summary: self.summary@,
            status: self.status,
            files: change_views(self.files@),
            unified_diff: self.unified_diff@,
            requested_by: self.requested_by@,
            created_at: self.created_at,
            updated_at: self.updated_at,
            applied_at: self.applied_at,
            applied_by: opt_str(self.applied_by),
            reverted_at: self.reverted_at,
            reverted_by: opt_str(self.reverted_by),
        }
    }
}

/// The model of a revert result.
pub struct RevertView {
    pub patch_id: Seq<char>,
    pub status: PatchProposalStatus,
    pub files: Seq<Seq<char>>,
    pub reverted_at: i64,
    pub already_reverted: bool,
}

impl View for PatchRevertResult {
    type V = RevertView;

    open spec fn view(&self) -> RevertView {
        RevertView {
            patch_id: self.patch_id@,
            status: self.status,
            files: strs(self.files@),
            reverted_at: self.reverted_at,
            already_reverted: self.already_reverted,
        }
    }
}

/// The model of an automatic rollback.
pub struct AutoRollbackView {
    pub triggered_by: Seq<char>,
    pub reverted: bool,
    pub error: Option<Seq<char>>,
    pub result: Option<RevertView>,
}

impl View for PatchAutoRollbackResult {
    type V = AutoRollbackView;

    open spec fn view(&self) -> AutoRollbackView {
        AutoRollbackView {
            triggered_by: self.triggered_by@,
            reverted: self.reverted,
            error: opt_str(self.error),
            result: match self.result {
                Some(r) => Some(r@),
                None => None,
            },
        }
    }
}

/// The model of an apply result.
pub struct ApplyView {
    pub patch_id: Seq<char>,
    pub status: PatchProposalStatus,
    pub files: Seq<Seq<char>>,
    pub applied_at: i64,
    pub already_applied: bool,
    pub auto_rollback: Option<AutoRollbackView>,
}

impl View for PatchApplyResult {
    type V = ApplyView;

    open spec fn view(&self) -> ApplyView {
        ApplyView {
            patch_id: self.patch_id@,
            status: self.status,
            files: strs(self.files@),
            applied_at: self.applied_at,
            already_applied: self.already_applied,
            auto_rollback: match self.auto_rollback {
                Some(a) => Some(a@),
                None => None,
            },
        }
    }
}

/// The name of a proposal status as stored and serialized.
pub open spec fn proposal_status_text(s: PatchProposalStatus) -> Seq<char> {
    match s {
        PatchProposalStatus::Draft => "draft"@,
        PatchProposalStatus::PendingApproval => "pendingApproval"@,
        PatchProposalStatus::Approved => "approved"@,
        PatchProposalStatus::Rejected => "rejected"@,
        PatchProposalStatus::Applied => "applied"@,
        PatchProposalStatus::Reverted => "reverted"@,
    }
}

/// The name of a proposal status as stored and serialized.
pub fn proposal_status_value(s: &PatchProposalStatus) -> (r: &'static str)
    ensures
        r@ == proposal_status_text(*s),
{
    match s {
        PatchProposalStatus::Draft => "draft",
        PatchProposalStatus::PendingApproval => "pendingApproval",
        PatchProposalStatus::Approved => "approved",
        PatchProposalStatus::Rejected => "rejected",
        PatchProposalStatus::Applied => "applied",
        PatchProposalStatus::Reverted => "reverted",
    }
}

} // verus!
