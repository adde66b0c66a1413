//! Recording approvals, command runs and patches on the tasks they concern.
//!
//! Each record adds an artifact to the task, at most once per artifact kind
//! and patch or approval, and may move the task and one of its steps along.
use vstd::prelude::*;
use crate::approval::{
    ApprovalRequest, ApprovalStatus, ApprovalView, approval_status_label, approval_status_text,
    status_text, status_value,
};
use crate::command::ProjectCommandRunResponse;
use crate::control::{changed_one, lemma_replace_keeps_unique};
use crate::diff::{build_unified_diff, unified_diff};
use crate::json::{Json, JsonValue, jopt_i64, jopt_str, jstr, jstr_array, json_get_str, jv, jv_fields, object, push_field};
use crate::patch::{
    ApplyView, FileChangeView, PatchApplyResult, PatchAutoRollbackResult, PatchProposal,
    PatchRevertResult, ProposalView, RevertView, AutoRollbackView, proposal_status_text,
    proposal_status_value,
};
use crate::ready::{find_step, first_step_with_id, lemma_first_step_found};
use crate::runtime::{TaskRuntime, event_views, lookup_task, task_views, unique_ids};
use crate::task::{
    EventView, StepStatus, StepView, Task, TaskEvent, TaskEventKind, TaskStatus, TaskView,
    copy_opt_string, is_terminal, opt_str, strs,
};
use crate::text::{clean_opt_string, clean_optional, concat2, concat3, own, push_str, str_eq};

verus! {

broadcast use vstd::std_specs::vec::group_vec_axioms;

// ------------------------------------------------------------------
// JSON pieces
// ------------------------------------------------------------------
/// A JSON string, or `null` when absent.
pub open spec fn opt_text(o: Option<Seq<char>>) -> Json {
    match o {
        Some(s) => Json::Str(s),
        None => Json::Null,
    }
}

/// A JSON number, or `null` when absent.
pub open spec fn opt_int(o: Option<i64>) -> Json {
    match o {
        Some(v) => Json::Int(v as int),
        None => Json::Null,
    }
}

/// A JSON array of strings.
pub open spec fn text_list(v: Seq<Seq<char>>) -> Json {
    Json::Array(Seq::new(v.len(), |i: int| Json::Str(v[i])))
}

fn text_array(items: &Vec<String>) -> (r: JsonValue)
    ensures
        jv(r) == text_list(strs(items@)),
{
    let r = jstr_array(items);
    assert(Seq::new(items@.len(), |i: int| Json::Str(items@[i]@)) =~= Seq::new(
        strs(items@).len(),
        |i: int| Json::Str(strs(items@)[i]),
    ));
    r
}

fn opt_string_json(o: &Option<String>) -> (r: JsonValue)
    ensures
        jv(r) == opt_text(opt_str(*o)),
{
    jopt_str(o.as_ref())
}

// ------------------------------------------------------------------
// Finding what a record concerns
// ------------------------------------------------------------------
/// The task named by a record's (trimmed, non-blank) task id.
pub open spec fn record_task(ts: Seq<TaskView>, id: Option<Seq<char>>) -> Option<TaskView> {
    match id {
        Some(i) => lookup_task(ts, i),
        None => None,
    }
}

/// Whether some artifact has kind `kind` and `key` equal to `id`.
pub open spec fn has_kind_artifact(arts: Seq<Json>, kind: Seq<char>, key: Seq<char>, id: Seq<char>) -> bool {
    exists|i: int|
        0 <= i < arts.len() && json_get_str(arts[i], "kind"@) == Some(kind) && json_get_str(
            #[trigger] arts[i],
            key,
        ) == Some(id)
}

/// Whether the task already holds an artifact of kind `kind` whose `key`
/// is `id`.
pub fn has_kind_artifact_in(task: &Task, kind: &str, key: &str, id: &str) -> (b: bool)
    ensures
        b == has_kind_artifact(task@.artifacts, kind@, key@, id@),
{
    let arts = &task.artifacts;
    let mut i: usize = 0;
    while i < arts.len()
        invariant
            arts == &task.artifacts,
            i <= arts@.len(),
            task@.artifacts == crate::task::json_views(arts@),
            forall|j: int|
                0 <= j < i ==> !(json_get_str(task@.artifacts[j], "kind"@) == Some(kind@)
                    && json_get_str(task@.artifacts[j], key@) == Some(id@)),
        decreases arts.len() - i,
    {
        assert(task@.artifacts[i as int] == jv(arts@[i as int]));
        let k = arts[i].get_str("kind");
        let v = arts[i].get_str(key);
        proof {
            reveal_strlit("kind");
        }
        match (k, v) {
            (Some(k), Some(v)) => {
                if str_eq(k.as_str(), kind) && str_eq(v.as_str(), id) {
                    return true;
                }
            },
            _ => {},
        }
        i += 1;
    }
    false
}

/// The step a record names, if it names one that exists.
pub open spec fn named_step(steps: Seq<StepView>, sid: Option<Seq<char>>) -> Option<int> {
    match sid {
        Some(s) => first_step_with_id(steps, s),
        None => None,
    }
}

fn find_named_step(task: &Task, sid: Option<&String>) -> (r: Option<usize>)
    ensures
        match r {
            Some(k) => named_step(task@.steps, crate::task::opt_ref_str(sid)) == Some(k as int) && k
                < task@.steps.len(),
            None => named_step(task@.steps, crate::task::opt_ref_str(sid)) is None,
        },
{
    match sid {
        Some(s) => {
            let r = find_step(&task.steps, s.as_str());
            assert(task@.steps == crate::task::step_views(task.steps@));
            r
        },
        None => None,
    }
}

/// `t2` is `t` with `art` added to its artifacts (and a new update time).
pub open spec fn artifact_added(t: TaskView, t2: TaskView, art: Json) -> bool {
    t2 == TaskView { artifacts: t.artifacts.push(art), updated_at: t2.updated_at, ..t }
}

/// The event a record ends with.
pub open spec fn record_event(
    task_id: Seq<char>,
    step_id: Option<Seq<char>>,
    kind: TaskEventKind,
    message: Seq<char>,
    payload: Json,
) -> EventView {
    EventView { task_id, step_id, kind, message, payload }
}

// ------------------------------------------------------------------
// Applied and reverted patches
// ------------------------------------------------------------------
/// The artifact recording an applied patch.
pub open spec fn patch_applied_json(p: ProposalView, r: ApplyView, approval_id: Seq<char>) -> Json {
    Json::Object(
        seq![
            ("kind"@, Json::Str("patchApplied"@)),
            ("patchId"@, Json::Str(p.id)),
            ("approvalId"@, Json::Str(approval_id)),
            ("summary"@, Json::Str(p.summary)),
            ("status"@, Json::Str(proposal_status_text(r.status))),
            ("files"@, text_list(r.files)),
            ("appliedAt"@, Json::Int(r.applied_at as int)),
            ("appliedBy"@, opt_text(p.applied_by)),
            ("alreadyApplied"@, Json::Bool(r.already_applied)),
            ("unifiedDiff"@, Json::Str(p.unified_diff)),
        ],
    )
}

/// The artifact recording an applied patch.
pub fn patch_apply_artifact(proposal: &PatchProposal, result: &PatchApplyResult, approval_id: &str) -> (r: JsonValue)
    ensures
        jv(r) == patch_applied_json(proposal@, result@, approval_id@),
{
    let mut f: Vec<(String, JsonValue)> = Vec::new();
    proof {
        assert(jv_fields(f@) =~= Seq::empty());
    }
    push_field(&mut f, "kind", jstr("patchApplied"));
    push_field(&mut f, "patchId", JsonValue::Str(proposal.id.clone()));
    push_field(&mut f, "approvalId", jstr(approval_id));
    push_field(&mut f, "summary", JsonValue::Str(proposal.summary.clone()));
    push_field(&mut f, "status", jstr(proposal_status_value(&result.status)));
    push_field(&mut f, "files", text_array(&result.files));
    push_field(&mut f, "appliedAt", JsonValue::Int(result.applied_at));
    push_field(&mut f, "appliedBy", opt_string_json(&proposal.applied_by));
    push_field(&mut f, "alreadyApplied", JsonValue::Bool(result.already_applied));
    push_field(&mut f, "unifiedDiff", JsonValue::Str(proposal.unified_diff.clone()));
    let ghost fv = jv_fields(f@);
    let r = object(f);
    assert(patch_applied_json(proposal@, result@, approval_id@)->Object_0 =~= fv);
    r
}

/// Lines joined by newlines.
pub open spec fn join_nl(parts: Seq<Seq<char>>) -> Seq<char>
    decreases parts.len(),
{
    if parts.len() == 0 {
        Seq::empty()
    } else if parts.len() == 1 {
        parts[0]
    } else {
        join_nl(parts.drop_last()) + "\n"@ + parts.last()
    }
}

/// The diff that undoes a patch: each file's diff from the new content back
/// to the old one, joined by newlines.
pub open spec fn rollback_diff(files: Seq<FileChangeView>) -> Seq<char> {
    join_nl(
        Seq::new(files.len(), |i: int| unified_diff(files[i].path, files[i].new_content, files[i].old_content)),
    )
}

fn build_rollback_diff(proposal: &PatchProposal) -> (r: String)
    ensures
        r@ == rollback_diff(proposal@.files),
{
    let files = &proposal.files;
    let ghost fv = proposal@.files;
    let ghost ds = Seq::new(fv.len(), |i: int| unified_diff(fv[i].path, fv[i].new_content, fv[i].old_content));
    let mut r = String::new();
    let mut i: usize = 0;
    while i < files.len()
        invariant
            files == &proposal.files,
            fv == proposal@.files,
            fv.len() == files@.len(),
            ds == Seq::new(fv.len(), |i: int| unified_diff(fv[i].path, fv[i].new_content, fv[i].old_content)),
            i <= files@.len(),
            r@ == join_nl(ds.take(i as int)),
        decreases files.len() - i,
    {
        assert(fv[i as int] == files@[i as int]@);
        if i > 0 {
            push_str(&mut r, "\n");
        }
        let d = build_unified_diff(files[i].path.as_str(), files[i].new_content.as_str(), files[i].old_content.as_str());
        push_str(&mut r, d.as_str());
        proof {
            assert(ds.take(i + 1).drop_last() =~= ds.take(i as int));
            if i == 0 {
                assert(r@ =~= ds.take(1)[0]);
            }
        }
        i += 1;
    }
    assert(ds.take(files@.len() as int) =~= ds);
    r
}

/// The artifact recording a reverted patch.
pub open spec fn patch_reverted_json(p: ProposalView, r: RevertView) -> Json {
    Json::Object(
        seq![
            ("kind"@, Json::Str("patchReverted"@)),
            ("patchId"@, Json::Str(p.id)),
            ("approvalId"@, opt_text(p.approval_id)),
            ("summary"@, Json::Str(p.summary)),
            ("status"@, Json::Str(proposal_status_text(r.status))),
            ("files"@, text_list(r.files)),
            ("revertedAt"@, Json::Int(r.reverted_at as int)),
            ("revertedBy"@, opt_text(p.reverted_by)),
            ("alreadyReverted"@, Json::Bool(r.already_reverted)),
            ("rollbackDiff"@, Json::Str(rollback_diff(p.files))),
        ],
    )
}

/// The artifact recording a reverted patch.
pub fn patch_revert_artifact(proposal: &PatchProposal, result: &PatchRevertResult) -> (r: JsonValue)
    ensures
        jv(r) == patch_reverted_json(proposal@, result@),
{
    let mut f: Vec<(String, JsonValue)> = Vec::new();
    proof {
        assert(jv_fields(f@) =~= Seq::empty());
    }
    push_field(&mut f, "kind", jstr("patchReverted"));
    push_field(&mut f, "patchId", JsonValue::Str(proposal.id.clone()));
    push_field(&mut f, "approvalId", opt_string_json(&proposal.approval_id));
    push_field(&mut f, "summary", JsonValue::Str(proposal.summary.clone()));
    push_field(&mut f, "status", jstr(proposal_status_value(&result.status)));
    push_field(&mut f, "files", text_array(&result.files));
    push_field(&mut f, "revertedAt", JsonValue::Int(result.reverted_at));
    push_field(&mut f, "revertedBy", opt_string_json(&proposal.reverted_by));
    push_field(&mut f, "alreadyReverted", JsonValue::Bool(result.already_reverted));
    push_field(&mut f, "rollbackDiff", JsonValue::Str(build_rollback_diff(proposal)));
    let ghost fv = jv_fields(f@);
    let r = object(f);
    assert(patch_reverted_json(proposal@, result@)->Object_0 =~= fv);
    r
}

impl TaskRuntime {
    /// Adds `artifact` to the task at position `i` and records `event`
    /// after the events in `emitted`; returns the task as stored.
    fn store_record(&mut self, i: usize, task: Task, emitted: Vec<TaskEvent>) -> (r: Task)
        requires
            old(self).wf(),
            i < old(self).tasks@.len(),
            task@.id == old(self).tasks_v()[i as int].id,
        ensures
            final(self).wf(),
            r@ == task@,
            final(self).tasks_v() == old(self).tasks_v().update(i as int, task@),
            final(self).events_v() == old(self).events_v() + event_views(emitted@),
    {
        let updated = task.duplicate();
        proof {
            lemma_replace_keeps_unique(old(self).tasks_v(), i as int, task@);
        }
        self.store_task(i, task);
        self.extend_events(emitted);
        updated
    }

    /// Records that a patch was applied: the task named by the proposal gets
    /// a `patchApplied` artifact and an `ArtifactCreated` event, once per
    /// patch. `None` when the proposal names no task or an unknown one.
    pub fn record_patch_applied(&mut self, proposal: &PatchProposal, result: &PatchApplyResult, approval_id: &str) -> (r: Option<Task>)
        requires
            old(self).wf(),
        ensures
            final(self).wf(),
            match record_task(old(self).tasks_v(), clean_opt_string(proposal.task_id)) {
                None => r is None && final(self).tasks_v() == old(self).tasks_v()
                    && final(self).events_v() == old(self).events_v(),
                Some(t) => if has_kind_artifact(t.artifacts, "patchApplied"@, "patchId"@, proposal@.id) {
                    r matches Some(x) && x@ == t && final(self).tasks_v() == old(self).tasks_v()
                        && final(self).events_v() == old(self).events_v()
                } else {
                    r matches Some(x) && artifact_added(
                        t,
                        x@,
                        patch_applied_json(proposal@, result@, approval_id@),
                    ) && changed_one(
                        old(self).tasks_v(),
                        final(self).tasks_v(),
                        old(self).events_v(),
                        final(self).events_v(),
                        t.id,
                        x@,
                        seq![
                            record_event(
                                t.id,
                                proposal@.step_id,
                                TaskEventKind::ArtifactCreated,
                                "补丁已应用："@ + proposal@.summary,
                                patch_applied_json(proposal@, result@, approval_id@),
                            ),
                        ],
                    )
                },
            },
    {
        let id = match clean_optional(proposal.task_id.as_ref()) {
            Some(id) => id,
            None => return None,
        };
        let artifact = patch_apply_artifact(proposal, result, approval_id);
        let i = match self.find_index(id.as_str()) {
            Some(i) => i,
            None => return None,
        };
        if has_kind_artifact_in(&self.tasks[i], "patchApplied", "patchId", proposal.id.as_str()) {
            return Some(self.tasks[i].duplicate());
        }
        let mut task = self.tasks[i].duplicate();
        let payload = artifact.deep_clone();
        task.add_artifact(artifact);
        let ev = TaskEvent::new(
            id.as_str(),
            copy_opt_string(&proposal.step_id),
            TaskEventKind::ArtifactCreated,
            concat2("补丁已应用：", proposal.summary.as_str()),
            payload,
        );
        let ghost evv = ev@;
        let mut emitted: Vec<TaskEvent> = Vec::new();
        emitted.push(ev);
        assert(event_views(emitted@) =~= seq![evv]);
        Some(self.store_record(i, task, emitted))
    }

    /// Records that a patch was reverted: the task named by the proposal gets
    /// a `patchReverted` artifact (with the diff that undoes the patch) and an
    /// `ArtifactCreated` event, once per patch. `None` when the proposal names
    /// no task or an unknown one.
    pub fn record_patch_reverted(&mut self, proposal: &PatchProposal, result: &PatchRevertResult) -> (r: Option<Task>)
        requires
            old(self).wf(),
        ensures
            final(self).wf(),
            match record_task(old(self).tasks_v(), clean_opt_string(proposal.task_id)) {
                None => r is None && final(self).tasks_v() == old(self).tasks_v()
                    && final(self).events_v() == old(self).events_v(),
                Some(t) => if has_kind_artifact(t.artifacts, "patchReverted"@, "patchId"@, proposal@.id) {
                    r matches Some(x) && x@ == t && final(self).tasks_v() == old(self).tasks_v()
                        && final(self).events_v() == old(self).events_v()
                } else {
                    r matches Some(x) && artifact_added(t, x@, patch_reverted_json(proposal@, result@))
                        && changed_one(
                        old(self).tasks_v(),
                        final(self).tasks_v(),
                        old(self).events_v(),
                        final(self).events_v(),
                        t.id,
                        x@,
                        seq![
                            record_event(
                                t.id,
                                proposal@.step_id,
                                TaskEventKind::ArtifactCreated,
                                "补丁已回滚："@ + proposal@.summary,
                                patch_reverted_json(proposal@, result@),
                            ),
                        ],
                    )
                },
            },
    {
        let id = match clean_optional(proposal.task_id.as_ref()) {
            Some(id) => id,
            None => return None,
        };
        let artifact = patch_revert_artifact(proposal, result);
        let i = match self.find_index(id.as_str()) {
            Some(i) => i,
            None => return None,
        };
        if has_kind_artifact_in(&self.tasks[i], "patchReverted", "patchId", proposal.id.as_str()) {
            return Some(self.tasks[i].duplicate());
        }
        let mut task = self.tasks[i].duplicate();
        let payload = artifact.deep_clone();
        task.add_artifact(artifact);
        let ev = TaskEvent::new(
            id.as_str(),
            copy_opt_string(&proposal.step_id),
            TaskEventKind::ArtifactCreated,
            concat2("补丁已回滚：", proposal.summary.as_str()),
            payload,
        );
        let ghost evv = ev@;
        let mut emitted: Vec<TaskEvent> = Vec::new();
        emitted.push(ev);
        assert(event_views(emitted@) =~= seq![evv]);
        Some(self.store_record(i, task, emitted))
    }
}


// ------------------------------------------------------------------
// Approvals
// ------------------------------------------------------------------
/// A step paused for approval: a pending, running or waiting step waits,
/// with no error; any other is left alone.
pub open spec fn waiting_step(s: StepView) -> StepView {
    if s.status == StepStatus::Pending || s.status == StepStatus::Running || s.status
        == StepStatus::WaitingApproval {
        StepView { status: StepStatus::WaitingApproval, error: None, ..s }
    } else {
        s
    }
}

/// A step after its approval was granted: a waiting step runs again, with no
/// error; any other is left alone.
pub open spec fn resumed_step(s: StepView) -> StepView {
    if s.status == StepStatus::WaitingApproval {
        StepView { status: StepStatus::Running, error: None, ..s }
    } else {
        s
    }
}

/// Whether a rejected approval fails a step in this state.
pub open spec fn fails_on_reject(st: StepStatus) -> bool {
    st == StepStatus::Pending || st == StepStatus::WaitingApproval || st == StepStatus::Running
}

/// `b` is step `a` failed with `msg`.
pub open spec fn step_failed(a: StepView, b: StepView, msg: Seq<char>) -> bool {
    b == StepView {
        status: StepStatus::Failed,
        error: Some(msg),
        completed_at: b.completed_at,
        ..a
    } && b.completed_at is Some
}

/// After an approval is requested: a task that is not finished waits for
/// approval, and so does the named step (see `waiting_step`).
pub open spec fn requested_core(t: TaskView, t2: TaskView, sid: Option<Seq<char>>) -> bool {
    t2 == TaskView {
        status: if is_terminal(t.status) {
            t.status
        } else {
            TaskStatus::WaitingApproval
        },
        steps: match named_step(t.steps, sid) {
            Some(k) => t.steps.update(k, waiting_step(t.steps[k])),
            None => t.steps,
        },
        updated_at: t2.updated_at,
        ..t
    }
}

/// After an approval is resolved, and the events that records before the
/// final one. Approved: a waiting task runs again (its error cleared) and
/// the named step resumes. Rejected: the named step fails if it had not
/// finished, and a task that is not finished fails, each with an event
/// carrying `art`. Pending or cancelled: nothing more.
pub open spec fn resolved_core(
    t: TaskView,
    t2: TaskView,
    em: Seq<EventView>,
    status: ApprovalStatus,
    sid: Option<Seq<char>>,
    art: Json,
    msg: Seq<char>,
) -> bool {
    match status {
        ApprovalStatus::Approved => {
            &&& t2 == TaskView {
                status: if t.status == TaskStatus::WaitingApproval {
                    TaskStatus::Running
                } else {
                    t.status
                },
                error: if t.status == TaskStatus::WaitingApproval {
                    None
                } else {
                    t.error
                },
                steps: match named_step(t.steps, sid) {
                    Some(k) => t.steps.update(k, resumed_step(t.steps[k])),
                    None => t.steps,
                },
                updated_at: t2.updated_at,
                ..t
            }
            &&& em == Seq::<EventView>::empty()
        },
        ApprovalStatus::Rejected => {
            let k = named_step(t.steps, sid);
            let step_fails = k is Some && fails_on_reject(t.steps[k->0].status);
            &&& t2.steps.len() == t.steps.len()
            &&& if step_fails {
                t2.steps == t.steps.update(k->0, t2.steps[k->0]) && step_failed(
                    t.steps[k->0],
                    t2.steps[k->0],
                    msg,
                )
            } else {
                t2.steps == t.steps
            }
            &&& if is_terminal(t.status) {
                t2 == TaskView { steps: t2.steps, updated_at: t2.updated_at, ..t }
            } else {
                t2 == TaskView {
                    status: TaskStatus::Failed,
                    error: Some(msg),
                    steps: t2.steps,
                    updated_at: t2.updated_at,
                    ..t
                }
            }
            &&& em == (if step_fails {
                seq![record_event(t.id, Some(t.steps[k->0].id), TaskEventKind::StepFailed, msg, art)]
            } else {
                Seq::<EventView>::empty()
            }) + (if is_terminal(t.status) {
                Seq::<EventView>::empty()
            } else {
                seq![record_event(t.id, None, TaskEventKind::Failed, msg, art)]
            })
        },
        _ => t2 == t && em == Seq::<EventView>::empty(),
    }
}

fn request_in_task(task: &mut Task, sid: Option<&String>)
    ensures
        requested_core(old(task)@, final(task)@, crate::task::opt_ref_str(sid)),
{
    let ghost t0 = task@;
    if !crate::task::task_status_is_terminal(task.status) {
        task.status = TaskStatus::WaitingApproval;
        task.touch();
    }
    match find_named_step(task, sid) {
        Some(k) => {
            assert(task@.steps[k as int] == task.steps@[k as int]@);
            if matches!(task.steps[k].status, StepStatus::Pending | StepStatus::Running | StepStatus::WaitingApproval) {
                let ghost before = task@.steps;
                task.steps[k].status = StepStatus::WaitingApproval;
                task.steps[k].error = None;
                assert(task@.steps =~= before.update(k as int, task.steps@[k as int]@));
            } else {
                assert(task@.steps.update(k as int, task@.steps[k as int]) =~= task@.steps);
            }
        },
        None => {},
    }
}

fn approve_in_task(task: &mut Task, sid: Option<&String>)
    ensures
        resolved_core(
            old(task)@,
            final(task)@,
            Seq::<EventView>::empty(),
            ApprovalStatus::Approved,
            crate::task::opt_ref_str(sid),
            Json::Null,
            Seq::<char>::empty(),
        ),
{
    if task.status == TaskStatus::WaitingApproval {
        task.status = TaskStatus::Running;
        task.error = None;
        task.touch();
    }
    match find_named_step(task, sid) {
        Some(k) => {
            assert(task@.steps[k as int] == task.steps@[k as int]@);
            if task.steps[k].status == StepStatus::WaitingApproval {
                let ghost before = task@.steps;
                task.steps[k].status = StepStatus::Running;
                task.steps[k].error = None;
                assert(task@.steps =~= before.update(k as int, task.steps@[k as int]@));
            } else {
                assert(task@.steps.update(k as int, task@.steps[k as int]) =~= task@.steps);
            }
        },
        None => {},
    }
}

#[verifier::spinoff_prover]
fn reject_in_task(task: &mut Task, emitted: &mut Vec<TaskEvent>, sid: Option<&String>, art: &JsonValue, msg: &str)
    requires
        old(emitted)@.len() == 0,
    ensures
        resolved_core(
            old(task)@,
            final(task)@,
            event_views(final(emitted)@),
            ApprovalStatus::Rejected,
            crate::task::opt_ref_str(sid),
            jv(*art),
            msg@,
        ),
{
    let ghost t0 = task@;
    let ghost k0 = named_step(t0.steps, crate::task::opt_ref_str(sid));
    let ghost step_fails = k0 is Some && fails_on_reject(t0.steps[k0->0].status);
    let ghost a: Seq<EventView> = if step_fails {
        seq![record_event(t0.id, Some(t0.steps[k0->0].id), TaskEventKind::StepFailed, msg@, jv(*art))]
    } else {
        Seq::<EventView>::empty()
    };
    match find_named_step(task, sid) {
        Some(k) => {
            assert(task@.steps[k as int] == task.steps@[k as int]@);
            if matches!(task.steps[k].status, StepStatus::Pending | StepStatus::WaitingApproval | StepStatus::Running) {
                let ghost before = task@.steps;
                task.steps[k].fail(msg);
                assert(task@.steps =~= before.update(k as int, task.steps@[k as int]@));
                let ev = TaskEvent::new(
                    task.id.as_str(),
                    Some(task.steps[k].id.clone()),
                    TaskEventKind::StepFailed,
                    own(msg),
                    art.deep_clone(),
                );
                emitted.push(ev);
            }
        },
        None => {},
    }
    assert(event_views(emitted@) =~= a);
    if !crate::task::task_status_is_terminal(task.status) {
        task.fail(msg);
        let ev = TaskEvent::new(task.id.as_str(), None, TaskEventKind::Failed, own(msg), art.deep_clone());
        let ghost evv = ev@;
        emitted.push(ev);
        assert(event_views(emitted@) =~= a + seq![evv]);
    } else {
        assert(event_views(emitted@) =~= a + Seq::<EventView>::empty());
    }
}

fn resolve_in_task(
    task: &mut Task,
    emitted: &mut Vec<TaskEvent>,
    status: ApprovalStatus,
    sid: Option<&String>,
    art: &JsonValue,
    msg: &str,
)
    requires
        old(emitted)@.len() == 0,
    ensures
        resolved_core(
            old(task)@,
            final(task)@,
            event_views(final(emitted)@),
            status,
            crate::task::opt_ref_str(sid),
            jv(*art),
            msg@,
        ),
{
    match status {
        ApprovalStatus::Approved => {
            approve_in_task(task, sid);
            assert(event_views(emitted@) =~= Seq::<EventView>::empty());
        },
        ApprovalStatus::Rejected => {
            reject_in_task(task, emitted, sid, art, msg);
        },
        _ => {
            assert(event_views(emitted@) =~= Seq::<EventView>::empty());
        },
    }
}

/// The artifact recording that a patch waits for approval.
pub open spec fn patch_approval_json(p: ProposalView, a: ApprovalView) -> Json {
    Json::Object(
        seq![
            ("kind"@, Json::Str("patchApproval"@)),
            ("patchId"@, Json::Str(p.id)),
            ("approvalId"@, Json::Str(a.id)),
            ("summary"@, Json::Str(p.summary)),
            ("status"@, Json::Str(status_text(a.status))),
            ("requestedBy"@, Json::Str(a.requested_by)),
            ("createdAt"@, Json::Int(a.created_at as int)),
            ("unifiedDiff"@, Json::Str(p.unified_diff)),
        ],
    )
}

/// The artifact recording that a patch waits for approval.
pub fn patch_approval_artifact(proposal: &PatchProposal, approval: &ApprovalRequest) -> (r: JsonValue)
    ensures
        jv(r) == patch_approval_json(proposal@, approval@),
{
    let mut f: Vec<(String, JsonValue)> = Vec::new();
    proof {
        assert(jv_fields(f@) =~= Seq::empty());
    }
    push_field(&mut f, "kind", jstr("patchApproval"));
    push_field(&mut f, "patchId", JsonValue::Str(proposal.id.clone()));
    push_field(&mut f, "approvalId", JsonValue::Str(approval.id.clone()));
    push_field(&mut f, "summary", JsonValue::Str(proposal.summary.clone()));
    push_field(&mut f, "status", jstr(status_value(&approval.status)));
    push_field(&mut f, "requestedBy", JsonValue::Str(approval.requested_by.clone()));
    push_field(&mut f, "createdAt", JsonValue::Int(approval.created_at));
    push_field(&mut f, "unifiedDiff", JsonValue::Str(proposal.unified_diff.clone()));
    let ghost fv = jv_fields(f@);
    let r = object(f);
    assert(patch_approval_json(proposal@, approval@)->Object_0 =~= fv);
    r
}

/// The artifact recording the decision on a patch approval.
pub open spec fn patch_approval_resolved_json(p: ProposalView, a: ApprovalView) -> Json {
    Json::Object(
        seq![
            ("kind"@, Json::Str("patchApprovalResolved"@)),
            ("patchId"@, Json::Str(p.id)),
            ("approvalId"@, Json::Str(a.id)),
            ("summary"@, Json::Str(p.summary)),
            ("status"@, Json::Str(status_text(a.status))),
            ("decidedBy"@, opt_text(a.decided_by)),
            ("decisionNote"@, opt_text(a.decision_note)),
            ("decidedAt"@, opt_int(a.decided_at)),
        ],
    )
}

/// The artifact recording the decision on a patch approval.
pub fn patch_approval_resolved_artifact(proposal: &PatchProposal, approval: &ApprovalRequest) -> (r: JsonValue)
    ensures
        jv(r) == patch_approval_resolved_json(proposal@, approval@),
{
    let mut f: Vec<(String, JsonValue)> = Vec::new();
    proof {
        assert(jv_fields(f@) =~= Seq::empty());
    }
    push_field(&mut f, "kind", jstr("patchApprovalResolved"));
    push_field(&mut f, "patchId", JsonValue::Str(proposal.id.clone()));
    push_field(&mut f, "approvalId", JsonValue::Str(approval.id.clone()));
    push_field(&mut f, "summary", JsonValue::Str(proposal.summary.clone()));
    push_field(&mut f, "status", jstr(status_value(&approval.status)));
    push_field(&mut f, "decidedBy", opt_string_json(&approval.decided_by));
    push_field(&mut f, "decisionNote", opt_string_json(&approval.decision_note));
    push_field(&mut f, "decidedAt", jopt_i64(approval.decided_at));
    let ghost fv = jv_fields(f@);
    let r = object(f);
    assert(patch_approval_resolved_json(proposal@, approval@)->Object_0 =~= fv);
    r
}

/// The label of a project command approval: the trimmed `command` of its
/// payload, or its title when that is absent or blank.
pub open spec fn command_label(a: ApprovalView) -> Seq<char> {
    match json_get_str(a.action_payload, "command"@) {
        Some(c) => match crate::text::clean_opt(c) {
            Some(t) => t,
            None => a.title,
        },
        None => a.title,
    }
}

/// The trimmed `workingDir` of a project command approval's payload, unless
/// absent or blank.
pub open spec fn command_working_dir(a: ApprovalView) -> Option<Seq<char>> {
    match json_get_str(a.action_payload, "workingDir"@) {
        Some(d) => crate::text::clean_opt(d),
        None => None,
    }
}

/// The label of a project command approval (see `command_label`).
pub fn command_label_from_approval(approval: &ApprovalRequest) -> (r: String)
    ensures
        r@ == command_label(approval@),
{
    match approval.action_payload.get_str("command") {
        Some(c) => match crate::text::clean_str(c.as_str()) {
            Some(t) => t,
            None => approval.title.clone(),
        },
        None => approval.title.clone(),
    }
}

/// The working directory of a project command approval (see
/// `command_working_dir`).
pub fn command_working_dir_from_approval(approval: &ApprovalRequest) -> (r: Option<String>)
    ensures
        opt_str(r) == command_working_dir(approval@),
{
    match approval.action_payload.get_str("workingDir") {
        Some(d) => crate::text::clean_str(d.as_str()),
        None => None,
    }
}

/// The artifact recording that a project command waits for approval.
pub open spec fn command_approval_json(a: ApprovalView) -> Json {
    Json::Object(
        seq![
            ("kind"@, Json::Str("commandApproval"@)),
            ("approvalId"@, Json::Str(a.id)),
            ("command"@, Json::Str(command_label(a))),
            ("workingDir"@, opt_text(command_working_dir(a))),
            ("status"@, Json::Str(status_text(a.status))),
            ("requestedBy"@, Json::Str(a.requested_by)),
            ("createdAt"@, Json::Int(a.created_at as int)),
        ],
    )
}

/// The artifact recording that a project command waits for approval.
pub fn command_approval_artifact(approval: &ApprovalRequest) -> (r: JsonValue)
    ensures
        jv(r) == command_approval_json(approval@),
{
    let mut f: Vec<(String, JsonValue)> = Vec::new();
    proof {
        assert(jv_fields(f@) =~= Seq::empty());
    }
    push_field(&mut f, "kind", jstr("commandApproval"));
    push_field(&mut f, "approvalId", JsonValue::Str(approval.id.clone()));
    push_field(&mut f, "command", JsonValue::Str(command_label_from_approval(approval)));
    push_field(&mut f, "workingDir", opt_string_json(&command_working_dir_from_approval(approval)));
    push_field(&mut f, "status", jstr(status_value(&approval.status)));
    push_field(&mut f, "requestedBy", JsonValue::Str(approval.requested_by.clone()));
    push_field(&mut f, "createdAt", JsonValue::Int(approval.created_at));
    let ghost fv = jv_fields(f@);
    let r = object(f);
    assert(command_approval_json(approval@)->Object_0 =~= fv);
    r
}

/// The artifact recording the decision on a project command approval.
pub open spec fn command_approval_resolved_json(a: ApprovalView) -> Json {
    Json::Object(
        seq![
            ("kind"@, Json::Str("commandApprovalResolved"@)),
            ("approvalId"@, Json::Str(a.id)),
            ("command"@, Json::Str(command_label(a))),
            ("workingDir"@, opt_text(command_working_dir(a))),
            ("status"@, Json::Str(status_text(a.status))),
            ("decidedBy"@, opt_text(a.decided_by)),
            ("decisionNote"@, opt_text(a.decision_note)),
            ("decidedAt"@, opt_int(a.decided_at)),
        ],
    )
}

/// The artifact recording the decision on a project command approval.
pub fn command_approval_resolved_artifact(approval: &ApprovalRequest) -> (r: JsonValue)
    ensures
        jv(r) == command_approval_resolved_json(approval@),
{
    let mut f: Vec<(String, JsonValue)> = Vec::new();
    proof {
        assert(jv_fields(f@) =~= Seq::empty());
    }
    push_field(&mut f, "kind", jstr("commandApprovalResolved"));
    push_field(&mut f, "approvalId", JsonValue::Str(approval.id.clone()));
    push_field(&mut f, "command", JsonValue::Str(command_label_from_approval(approval)));
    push_field(&mut f, "workingDir", opt_string_json(&command_working_dir_from_approval(approval)));
    push_field(&mut f, "status", jstr(status_value(&approval.status)));
    push_field(&mut f, "decidedBy", opt_string_json(&approval.decided_by));
    push_field(&mut f, "decisionNote", opt_string_json(&approval.decision_note));
    push_field(&mut f, "decidedAt", jopt_i64(approval.decided_at));
    let ghost fv = jv_fields(f@);
    let r = object(f);
    assert(command_approval_resolved_json(approval@)->Object_0 =~= fv);
    r
}

/// The action type of approvals for project commands.
pub open spec fn command_action() -> Seq<char> {
    "runtime.runProjectCommand"@
}


impl TaskRuntime {
    /// Records that a patch waits for approval: the task named by the
    /// proposal gets a `patchApproval` artifact (once per patch), waits for
    /// approval unless it is finished, the step named by the proposal waits
    /// too (see `waiting_step`), and an `ApprovalRequested` event is recorded.
    pub fn record_patch_approval_requested(&mut self, proposal: &PatchProposal, approval: &ApprovalRequest) -> (r: Option<Task>)
        requires
            old(self).wf(),
        ensures
            final(self).wf(),
            match record_task(old(self).tasks_v(), clean_opt_string(proposal.task_id)) {
                None => r is None && final(self).tasks_v() == old(self).tasks_v()
                    && final(self).events_v() == old(self).events_v(),
                Some(t) => if has_kind_artifact(t.artifacts, "patchApproval"@, "patchId"@, proposal@.id) {
                    r matches Some(x) && x@ == t && final(self).tasks_v() == old(self).tasks_v()
                        && final(self).events_v() == old(self).events_v()
                } else {
                    r matches Some(x) && exists|t1: TaskView|
                        artifact_added(t, t1, patch_approval_json(proposal@, approval@))
                            && requested_core(t1, x@, proposal@.step_id) && changed_one(
                            old(self).tasks_v(),
                            final(self).tasks_v(),
                            old(self).events_v(),
                            final(self).events_v(),
                            t.id,
                            x@,
                            seq![
                                record_event(
                                    t.id,
                                    proposal@.step_id,
                                    TaskEventKind::ApprovalRequested,
                                    "补丁等待审批："@ + proposal@.summary,
                                    patch_approval_json(proposal@, approval@),
                                ),
                            ],
                        )
                },
            },
    {
        let id = match clean_optional(proposal.task_id.as_ref()) {
            Some(id) => id,
            None => return None,
        };
        let artifact = patch_approval_artifact(proposal, approval);
        let i = match self.find_index(id.as_str()) {
            Some(i) => i,
            None => return None,
        };
        if has_kind_artifact_in(&self.tasks[i], "patchApproval", "patchId", proposal.id.as_str()) {
            return Some(self.tasks[i].duplicate());
        }
        let mut task = self.tasks[i].duplicate();
        let payload = artifact.deep_clone();
        task.add_artifact(artifact);
        let ghost t1 = task@;
        request_in_task(&mut task, proposal.step_id.as_ref());
        let ev = TaskEvent::new(
            id.as_str(),
            copy_opt_string(&proposal.step_id),
            TaskEventKind::ApprovalRequested,
            concat2("补丁等待审批：", proposal.summary.as_str()),
            payload,
        );
        let ghost evv = ev@;
        let mut emitted: Vec<TaskEvent> = Vec::new();
        emitted.push(ev);
        assert(event_views(emitted@) =~= seq![evv]);
        Some(self.store_record(i, task, emitted))
    }

    /// Records the decision on a patch approval: the task named by the
    /// proposal gets a `patchApprovalResolved` artifact (once per patch) and
    /// moves on as `resolved_core` says; an `ApprovalResolved` event ends the
    /// record.
    pub fn record_patch_approval_resolved(&mut self, proposal: &PatchProposal, approval: &ApprovalRequest) -> (r: Option<Task>)
        requires
            old(self).wf(),
        ensures
            final(self).wf(),
            match record_task(old(self).tasks_v(), clean_opt_string(proposal.task_id)) {
                None => r is None && final(self).tasks_v() == old(self).tasks_v()
                    && final(self).events_v() == old(self).events_v(),
                Some(t) => if has_kind_artifact(
                    t.artifacts,
                    "patchApprovalResolved"@,
                    "patchId"@,
                    proposal@.id,
                ) {
                    r matches Some(x) && x@ == t && final(self).tasks_v() == old(self).tasks_v()
                        && final(self).events_v() == old(self).events_v()
                } else {
                    r matches Some(x) && exists|t1: TaskView, em: Seq<EventView>|
                        artifact_added(t, t1, patch_approval_resolved_json(proposal@, approval@))
                            && resolved_core(
                            t1,
                            x@,
                            em,
                            approval@.status,
                            proposal@.step_id,
                            patch_approval_resolved_json(proposal@, approval@),
                            "补丁审批已拒绝："@ + proposal@.summary,
                        ) && changed_one(
                            old(self).tasks_v(),
                            final(self).tasks_v(),
                            old(self).events_v(),
                            final(self).events_v(),
                            t.id,
                            x@,
                            em + seq![
                                record_event(
                                    t.id,
                                    proposal@.step_id,
                                    TaskEventKind::ApprovalResolved,
                                    "补丁审批"@ + approval_status_text(approval@.status) + "："@
                                        + proposal@.summary,
                                    patch_approval_resolved_json(proposal@, approval@),
                                ),
                            ],
                        )
                },
            },
    {
        let id = match clean_optional(proposal.task_id.as_ref()) {
            Some(id) => id,
            None => return None,
        };
        let artifact = patch_approval_resolved_artifact(proposal, approval);
        let i = match self.find_index(id.as_str()) {
            Some(i) => i,
            None => return None,
        };
        if has_kind_artifact_in(&self.tasks[i], "patchApprovalResolved", "patchId", proposal.id.as_str()) {
            return Some(self.tasks[i].duplicate());
        }
        let mut task = self.tasks[i].duplicate();
        let payload = artifact.deep_clone();
        task.add_artifact(artifact.deep_clone());
        let ghost t1 = task@;
        let mut emitted: Vec<TaskEvent> = Vec::new();
        let msg = concat2("补丁审批已拒绝：", proposal.summary.as_str());
        resolve_in_task(&mut task, &mut emitted, approval.status, proposal.step_id.as_ref(), &artifact, msg.as_str());
        let ghost em = event_views(emitted@);
        let mut m = concat3("补丁审批", approval_status_label(&approval.status), "：");
        push_str(&mut m, proposal.summary.as_str());
        let ev = TaskEvent::new(
            id.as_str(),
            copy_opt_string(&proposal.step_id),
            TaskEventKind::ApprovalResolved,
            m,
            payload,
        );
        let ghost evv = ev@;
        emitted.push(ev);
        assert(event_views(emitted@) =~= em + seq![evv]);
        Some(self.store_record(i, task, emitted))
    }

}

/// What recording a project command approval request does: approvals of
/// other actions, or naming no known task, give `None` and change nothing;
/// a task that already has the `commandApproval` artifact of this approval
/// is returned unchanged; otherwise the artifact is added, the task and its
/// named step wait for approval (`requested_core`) and an
/// `ApprovalRequested` event is recorded.
pub open spec fn command_request_outcome(
    ts0: Seq<TaskView>,
    ts1: Seq<TaskView>,
    ev0: Seq<EventView>,
    ev1: Seq<EventView>,
    a: ApprovalView,
    task_id: Option<Seq<char>>,
    step_id: Option<Seq<char>>,
    r: Option<TaskView>,
) -> bool {
    if a.action_type != command_action() {
        r is None && ts1 == ts0 && ev1 == ev0
    } else { match record_task(ts0, task_id) {
        None => r is None && ts1 == ts0 && ev1 == ev0,
        Some(t) => if has_kind_artifact(t.artifacts, "commandApproval"@, "approvalId"@, a.id) {
            r == Some(t) && ts1 == ts0 && ev1 == ev0
        } else {
            r is Some && exists|t1: TaskView|
                artifact_added(t, t1, command_approval_json(a)) && requested_core(t1, r->0, step_id)
                    && changed_one(
                    ts0,
                    ts1,
                    ev0,
                    ev1,
                    t.id,
                    r->0,
                    seq![
                        record_event(
                            t.id,
                            step_id,
                            TaskEventKind::ApprovalRequested,
                            "项目命令等待审批："@ + command_label(a),
                            command_approval_json(a),
                        ),
                    ],
                )
        },
    } }
}

impl TaskRuntime {
    /// Adds the `commandApproval` artifact `artifact` to the task at `i` (named
    /// `id`) and records the request on it.
    fn add_command_request(
        &mut self,
        i: usize,
        approval: &ApprovalRequest,
        id: String,
        sid: Option<String>,
        artifact: JsonValue,
    ) -> (r: Task)
        requires
            old(self).wf(),
            i < old(self).tasks@.len(),
            i == crate::runtime::task_index(old(self).tasks_v(), id@),
            old(self).tasks_v()[i as int].id == id@,
            opt_str(sid) == clean_opt_string(approval.step_id),
            jv(artifact) == command_approval_json(approval@),
        ensures
            final(self).wf(),
            exists|t1: TaskView|
                artifact_added(old(self).tasks_v()[i as int], t1, command_approval_json(approval@))
                    && requested_core(t1, r@, clean_opt_string(approval.step_id)) && changed_one(
                    old(self).tasks_v(),
                    final(self).tasks_v(),
                    old(self).events_v(),
                    final(self).events_v(),
                    id@,
                    r@,
                    seq![
                        record_event(
                            id@,
                            clean_opt_string(approval.step_id),
                            TaskEventKind::ApprovalRequested,
                            "项目命令等待审批："@ + command_label(approval@),
                            command_approval_json(approval@),
                        ),
                    ],
                ),
    {
        let mut task = self.tasks[i].duplicate();
        let payload = artifact.deep_clone();
        task.add_artifact(artifact);
        let ghost t1 = task@;
        let sid_ref = sid.as_ref();
        assert(crate::task::opt_ref_str(sid_ref) == opt_str(sid));
        request_in_task(&mut task, sid_ref);
        let label = command_label_from_approval(approval);
        let ev = TaskEvent::new(
            id.as_str(),
            sid,
            TaskEventKind::ApprovalRequested,
            concat2("项目命令等待审批：", label.as_str()),
            payload,
        );
        let ghost evv = ev@;
        let mut emitted: Vec<TaskEvent> = Vec::new();
        emitted.push(ev);
        assert(event_views(emitted@) =~= seq![evv]);
        let res = self.store_record(i, task, emitted);
        assert(artifact_added(old(self).tasks_v()[i as int], t1, command_approval_json(approval@)));
        res
    }

    /// Records that a project command waits for approval. Only approvals of
    /// action `runtime.runProjectCommand` that name a known task (by trimmed
    /// id) are recorded; others give `None`. The task gets a
    /// `commandApproval` artifact (once per approval), waits for approval
    /// unless it is finished, the named step waits too, and an
    /// `ApprovalRequested` event is recorded.
    #[verifier::spinoff_prover]
    pub fn record_command_approval_requested(&mut self, approval: &ApprovalRequest) -> (r: Option<Task>)
        requires
            old(self).wf(),
        ensures
            final(self).wf(),
            command_request_outcome(
                old(self).tasks_v(),
                final(self).tasks_v(),
                old(self).events_v(),
                final(self).events_v(),
                approval@,
                clean_opt_string(approval.task_id),
                clean_opt_string(approval.step_id),
                match r {
                    Some(x) => Some(x@),
                    None => None,
                },
            ),
    {
        proof {
            reveal_strlit("runtime.runProjectCommand");
        }
        if !str_eq(approval.action_type.as_str(), "runtime.runProjectCommand") {
            return None;
        }
        let id = match clean_optional(approval.task_id.as_ref()) {
            Some(id) => id,
            None => return None,
        };
        let sid = clean_optional(approval.step_id.as_ref());
        assert(opt_str(sid) == clean_opt_string(approval.step_id));
        let artifact = command_approval_artifact(approval);
        let i = match self.find_index(id.as_str()) {
            Some(i) => i,
            None => return None,
        };
        if has_kind_artifact_in(&self.tasks[i], "commandApproval", "approvalId", approval.id.as_str()) {
            return Some(self.tasks[i].duplicate());
        }
        let res = self.add_command_request(i, approval, id, sid, artifact);
        Some(res)
    }

    /// Records the decision on a project command approval (only approvals of
    /// action `runtime.runProjectCommand` naming a known task): the task gets
    /// a `commandApprovalResolved` artifact (once per approval) and moves on
    /// as `resolved_core` says; an `ApprovalResolved` event ends the record.
    #[verifier::spinoff_prover]
    pub fn record_command_approval_resolved(&mut self, approval: &ApprovalRequest) -> (r: Option<Task>)
        requires
            old(self).wf(),
        ensures
            final(self).wf(),
            approval@.action_type != command_action() ==> r is None && final(self).tasks_v()
                == old(self).tasks_v() && final(self).events_v() == old(self).events_v(),
            approval@.action_type == command_action() ==> match record_task(
                old(self).tasks_v(),
                clean_opt_string(approval.task_id),
            ) {
                None => r is None && final(self).tasks_v() == old(self).tasks_v()
                    && final(self).events_v() == old(self).events_v(),
                Some(t) => if has_kind_artifact(
                    t.artifacts,
                    "commandApprovalResolved"@,
                    "approvalId"@,
                    approval@.id,
                ) {
                    r matches Some(x) && x@ == t && final(self).tasks_v() == old(self).tasks_v()
                        && final(self).events_v() == old(self).events_v()
                } else {
                    r matches Some(x) && exists|t1: TaskView, em: Seq<EventView>|
                        artifact_added(t, t1, command_approval_resolved_json(approval@))
                            && resolved_core(
                            t1,
                            x@,
                            em,
                            approval@.status,
                            clean_opt_string(approval.step_id),
                            command_approval_resolved_json(approval@),
                            "项目命令审批已拒绝："@ + command_label(approval@),
                        ) && changed_one(
                            old(self).tasks_v(),
                            final(self).tasks_v(),
                            old(self).events_v(),
                            final(self).events_v(),
                            t.id,
                            x@,
                            em + seq![
                                record_event(
                                    t.id,
                                    clean_opt_string(approval.step_id),
                                    TaskEventKind::ApprovalResolved,
                                    "项目命令审批"@ + approval_status_text(approval@.status) + "："@
                                        + command_label(approval@),
                                    command_approval_resolved_json(approval@),
                                ),
                            ],
                        )
                },
            },
    {
        proof {
            reveal_strlit("runtime.runProjectCommand");
        }
        if !str_eq(approval.action_type.as_str(), "runtime.runProjectCommand") {
            return None;
        }
        let id = match clean_optional(approval.task_id.as_ref()) {
            Some(id) => id,
            None => return None,
        };
        let sid = clean_optional(approval.step_id.as_ref());
        assert(opt_str(sid) == clean_opt_string(approval.step_id));
        let artifact = command_approval_resolved_artifact(approval);
        let i = match self.find_index(id.as_str()) {
            Some(i) => i,
            None => return None,
        };
        if has_kind_artifact_in(&self.tasks[i], "commandApprovalResolved", "approvalId", approval.id.as_str()) {
            return Some(self.tasks[i].duplicate());
        }
        let mut task = self.tasks[i].duplicate();
        let payload = artifact.deep_clone();
        task.add_artifact(artifact.deep_clone());
        let ghost t1 = task@;
        let label = command_label_from_approval(approval);
        let mut emitted: Vec<TaskEvent> = Vec::new();
        let msg = concat2("项目命令审批已拒绝：", label.as_str());
        let sid_ref = sid.as_ref();
        assert(crate::task::opt_ref_str(sid_ref) == opt_str(sid));
        resolve_in_task(&mut task, &mut emitted, approval.status, sid_ref, &artifact, msg.as_str());
        let ghost em = event_views(emitted@);
        let mut m = concat3("项目命令审批", approval_status_label(&approval.status), "：");
        push_str(&mut m, label.as_str());
        let ev = TaskEvent::new(id.as_str(), sid, TaskEventKind::ApprovalResolved, m, payload);
        let ghost evv = ev@;
        emitted.push(ev);
        assert(event_views(emitted@) =~= em + seq![evv]);
        Some(self.store_record(i, task, emitted))
    }
}


// ------------------------------------------------------------------
// Command runs
// ------------------------------------------------------------------
/// The first 2000 characters of command output, with a note when more was
/// cut off.
pub open spec fn preview_text(s: Seq<char>) -> Seq<char> {
    if s.len() > 2000 {
        s.take(2000) + "\n[preview truncated]"@
    } else {
        s
    }
}

/// A preview of command output (see `preview_text`).
pub fn output_preview(output: &str) -> (r: String)
    ensures
        r@ == preview_text(output@),
{
    let cs = crate::text::chars_of(output);
    if cs.len() > 2000 {
        let mut p = crate::text::string_of_range(&cs, 0, 2000);
        push_str(&mut p, "\n[preview truncated]");
        p
    } else {
        own(output)
    }
}

/// An exit code as JSON (`null` when the process had none).
pub open spec fn exit_json(c: Option<i32>) -> Json {
    match c {
        Some(v) => Json::Int(v as int),
        None => Json::Null,
    }
}

fn exit_code_json(c: Option<i32>) -> (r: JsonValue)
    ensures
        jv(r) == exit_json(c),
{
    match c {
        Some(v) => JsonValue::Int(v as i64),
        None => JsonValue::Null,
    }
}

/// The artifact recording a project command run.
pub open spec fn command_run_json(a: ApprovalView, run: crate::command::RunView) -> Json {
    Json::Object(
        seq![
            ("kind"@, Json::Str("commandRun"@)),
            ("approvalId"@, Json::Str(a.id)),
            ("runId"@, Json::Str(run.id)),
            ("command"@, Json::Str(run.command)),
            ("workingDir"@, Json::Str(run.working_dir)),
            ("success"@, Json::Bool(run.success)),
            ("exitCode"@, exit_json(run.exit_code)),
            ("durationMs"@, Json::Int(run.duration_ms as int)),
            ("timedOut"@, Json::Bool(run.timed_out)),
            ("stdoutTruncated"@, Json::Bool(run.stdout_truncated)),
            ("stderrTruncated"@, Json::Bool(run.stderr_truncated)),
            ("stdoutPreview"@, Json::Str(preview_text(run.stdout))),
            ("stderrPreview"@, Json::Str(preview_text(run.stderr))),
            ("createdAt"@, Json::Str(run.created_at)),
        ],
    )
}

/// The artifact recording a project command run.
pub fn command_run_artifact(approval: &ApprovalRequest, run: &ProjectCommandRunResponse) -> (r: JsonValue)
    ensures
        jv(r) == command_run_json(approval@, run@),
{
    let mut f: Vec<(String, JsonValue)> = Vec::new();
    proof {
        assert(jv_fields(f@) =~= Seq::empty());
    }
    push_field(&mut f, "kind", jstr("commandRun"));
    push_field(&mut f, "approvalId", JsonValue::Str(approval.id.clone()));
    push_field(&mut f, "runId", JsonValue::Str(run.id.clone()));
    push_field(&mut f, "command", JsonValue::Str(run.command.clone()));
    push_field(&mut f, "workingDir", JsonValue::Str(run.working_dir.clone()));
    push_field(&mut f, "success", JsonValue::Bool(run.success));
    push_field(&mut f, "exitCode", exit_code_json(run.exit_code));
    push_field(&mut f, "durationMs", JsonValue::UInt(run.duration_ms));
    push_field(&mut f, "timedOut", JsonValue::Bool(run.timed_out));
    push_field(&mut f, "stdoutTruncated", JsonValue::Bool(run.stdout_truncated));
    push_field(&mut f, "stderrTruncated", JsonValue::Bool(run.stderr_truncated));
    push_field(&mut f, "stdoutPreview", JsonValue::Str(output_preview(run.stdout.as_str())));
    push_field(&mut f, "stderrPreview", JsonValue::Str(output_preview(run.stderr.as_str())));
    push_field(&mut f, "createdAt", JsonValue::Str(run.created_at.clone()));
    let ghost fv = jv_fields(f@);
    let r = object(f);
    assert(command_run_json(approval@, run@)->Object_0 =~= fv);
    r
}

/// The result stored on a step completed by an approved command run.
pub open spec fn command_run_result(a: ApprovalView, run: crate::command::RunView) -> Json {
    Json::Object(
        seq![
            ("approvalId"@, Json::Str(a.id)),
            ("runId"@, Json::Str(run.id)),
            ("command"@, Json::Str(run.command)),
            ("workingDir"@, Json::Str(run.working_dir)),
            ("success"@, Json::Bool(run.success)),
            ("exitCode"@, exit_json(run.exit_code)),
        ],
    )
}

fn command_run_result_json(approval: &ApprovalRequest, run: &ProjectCommandRunResponse) -> (r: JsonValue)
    ensures
        jv(r) == command_run_result(approval@, run@),
{
    let mut f: Vec<(String, JsonValue)> = Vec::new();
    proof {
        assert(jv_fields(f@) =~= Seq::empty());
    }
    push_field(&mut f, "approvalId", JsonValue::Str(approval.id.clone()));
    push_field(&mut f, "runId", JsonValue::Str(run.id.clone()));
    push_field(&mut f, "command", JsonValue::Str(run.command.clone()));
    push_field(&mut f, "workingDir", JsonValue::Str(run.working_dir.clone()));
    push_field(&mut f, "success", JsonValue::Bool(run.success));
    push_field(&mut f, "exitCode", exit_code_json(run.exit_code));
    let ghost fv = jv_fields(f@);
    let r = object(f);
    assert(command_run_result(approval@, run@)->Object_0 =~= fv);
    r
}

/// The label of a run's outcome: timed out, passed or failed.
pub open spec fn run_status_text(run: crate::command::RunView) -> Seq<char> {
    if run.timed_out {
        "超时"@
    } else if run.success {
        "通过"@
    } else {
        "失败"@
    }
}

/// The label of a run's outcome.
pub fn command_run_status_label(run: &ProjectCommandRunResponse) -> (r: &'static str)
    ensures
        r@ == run_status_text(run@),
{
    if run.timed_out {
        "超时"
    } else if run.success {
        "通过"
    } else {
        "失败"
    }
}

/// After a failed check: the named step fails unless it already failed,
/// and the task fails unless it already failed, each with an event carrying
/// `payload`.
pub open spec fn failure_core(
    t: TaskView,
    t2: TaskView,
    em: Seq<EventView>,
    sid: Option<Seq<char>>,
    payload: Json,
    msg: Seq<char>,
) -> bool {
    let k = named_step(t.steps, sid);
    let step_fails = k is Some && t.steps[k->0].status != StepStatus::Failed;
    &&& t2.steps.len() == t.steps.len()
    &&& if step_fails {
        t2.steps == t.steps.update(k->0, t2.steps[k->0]) && step_failed(t.steps[k->0], t2.steps[k->0], msg)
    } else {
        t2.steps == t.steps
    }
    &&& if t.status == TaskStatus::Failed {
        t2 == TaskView { steps: t2.steps, ..t }
    } else {
        t2 == TaskView {
            status: TaskStatus::Failed,
            error: Some(msg),
            steps: t2.steps,
            updated_at: t2.updated_at,
            ..t
        }
    }
    &&& em == (if step_fails {
        seq![record_event(t.id, Some(t.steps[k->0].id), TaskEventKind::StepFailed, msg, payload)]
    } else {
        Seq::<EventView>::empty()
    }) + (if t.status == TaskStatus::Failed {
        Seq::<EventView>::empty()
    } else {
        seq![record_event(t.id, None, TaskEventKind::Failed, msg, payload)]
    })
}

#[verifier::spinoff_prover]
fn fail_for_check(task: &mut Task, emitted: &mut Vec<TaskEvent>, sid: Option<&String>, payload: &JsonValue, msg: &str)
    requires
        old(emitted)@.len() == 0,
    ensures
        failure_core(
            old(task)@,
            final(task)@,
            event_views(final(emitted)@),
            crate::task::opt_ref_str(sid),
            jv(*payload),
            msg@,
        ),
{
    let ghost t0 = task@;
    let ghost k0 = named_step(t0.steps, crate::task::opt_ref_str(sid));
    let ghost step_fails = k0 is Some && t0.steps[k0->0].status != StepStatus::Failed;
    let ghost a: Seq<EventView> = if step_fails {
        seq![record_event(t0.id, Some(t0.steps[k0->0].id), TaskEventKind::StepFailed, msg@, jv(*payload))]
    } else {
        Seq::<EventView>::empty()
    };
    match find_named_step(task, sid) {
        Some(k) => {
            assert(task@.steps[k as int] == task.steps@[k as int]@);
            if task.steps[k].status != StepStatus::Failed {
                let ghost before = task@.steps;
                task.steps[k].fail(msg);
                assert(task@.steps =~= before.update(k as int, task.steps@[k as int]@));
                let ev = TaskEvent::new(
                    task.id.as_str(),
                    Some(task.steps[k].id.clone()),
                    TaskEventKind::StepFailed,
                    own(msg),
                    payload.deep_clone(),
                );
                emitted.push(ev);
            }
        },
        None => {},
    }
    assert(event_views(emitted@) =~= a);
    if task.status != TaskStatus::Failed {
        task.fail(msg);
        let ev = TaskEvent::new(task.id.as_str(), None, TaskEventKind::Failed, own(msg), payload.deep_clone());
        let ghost evv = ev@;
        emitted.push(ev);
        assert(event_views(emitted@) =~= a + seq![evv]);
    } else {
        assert(event_views(emitted@) =~= a + Seq::<EventView>::empty());
    }
}

/// `b` is step `a` completed with `result`.
pub open spec fn step_completed(a: StepView, b: StepView, result: Json) -> bool {
    b == StepView {
        status: StepStatus::Completed,
        result: Some(result),
        completed_at: b.completed_at,
        error: None,
        ..a
    } && b.completed_at is Some
}

/// After a passed check: the named step completes with `result` if it had
/// not finished (pending, waiting or running), with a `StepCompleted`
/// event; nothing else changes.
pub open spec fn passed_core(
    t: TaskView,
    t2: TaskView,
    em: Seq<EventView>,
    sid: Option<Seq<char>>,
    result: Json,
    msg: Seq<char>,
) -> bool {
    let k = named_step(t.steps, sid);
    if k is Some && fails_on_reject(t.steps[k->0].status) {
        &&& t2 == TaskView { steps: t.steps.update(k->0, t2.steps[k->0]), ..t }
        &&& step_completed(t.steps[k->0], t2.steps[k->0], result)
        &&& em == seq![record_event(t.id, Some(t.steps[k->0].id), TaskEventKind::StepCompleted, msg, result)]
    } else {
        t2 == t && em == Seq::<EventView>::empty()
    }
}

fn complete_for_check(task: &mut Task, emitted: &mut Vec<TaskEvent>, sid: Option<&String>, result: JsonValue, msg: &str)
    requires
        old(emitted)@.len() == 0,
    ensures
        passed_core(
            old(task)@,
            final(task)@,
            event_views(final(emitted)@),
            crate::task::opt_ref_str(sid),
            jv(result),
            msg@,
        ),
{
    match find_named_step(task, sid) {
        Some(k) => {
            assert(task@.steps[k as int] == task.steps@[k as int]@);
            if matches!(task.steps[k].status, StepStatus::Pending | StepStatus::WaitingApproval | StepStatus::Running) {
                let ghost before = task@.steps;
                let payload = result.deep_clone();
                task.steps[k].complete(result);
                assert(task@.steps =~= before.update(k as int, task.steps@[k as int]@));
                let ev = TaskEvent::new(
                    task.id.as_str(),
                    Some(task.steps[k].id.clone()),
                    TaskEventKind::StepCompleted,
                    own(msg),
                    payload,
                );
                let ghost evv = ev@;
                emitted.push(ev);
                assert(event_views(emitted@) =~= seq![evv]);
            } else {
                assert(event_views(emitted@) =~= Seq::<EventView>::empty());
            }
        },
        None => {
            assert(event_views(emitted@) =~= Seq::<EventView>::empty());
        },
    }
}

/// How a task moves on after a command run (following its artifact): a
/// failed run fails the named step and the task (unless cancelled); a
/// successful run completes the named step and then the task if all its
/// steps are done (unless finished); otherwise nothing more.
pub open spec fn run_core(
    t: TaskView,
    t2: TaskView,
    em: Seq<EventView>,
    a: ApprovalView,
    run: crate::command::RunView,
    sid: Option<Seq<char>>,
    art: Json,
) -> bool {
    if !run.success && t.status != TaskStatus::Cancelled {
        failure_core(t, t2, em, sid, art, "项目命令执行失败："@ + run.command)
    } else if run.success && !is_terminal(t.status) {
        exists|t1: TaskView, e1: Seq<EventView>, e2: Seq<EventView>|
            passed_core(t, t1, e1, sid, command_run_result(a, run), "已审批项目命令执行通过，步骤已完成。"@)
                && crate::runtime::completed_if_ready(t1, t2, e2) && em == e1 + e2
    } else {
        t2 == t && em == Seq::<EventView>::empty()
    }
}


fn run_in_task(
    task: &mut Task,
    emitted: &mut Vec<TaskEvent>,
    approval: &ApprovalRequest,
    run: &ProjectCommandRunResponse,
    sid: Option<&String>,
    art: &JsonValue,
)
    requires
        old(emitted)@.len() == 0,
    ensures
        run_core(
            old(task)@,
            final(task)@,
            event_views(final(emitted)@),
            approval@,
            run@,
            crate::task::opt_ref_str(sid),
            jv(*art),
        ),
{
    if !run.success && task.status != TaskStatus::Cancelled {
        let msg = concat2("项目命令执行失败：", run.command.as_str());
        fail_for_check(task, emitted, sid, art, msg.as_str());
    } else if run.success && !crate::task::task_status_is_terminal(task.status) {
        let ghost t0 = task@;
        let result = command_run_result_json(approval, run);
        complete_for_check(task, emitted, sid, result, "已审批项目命令执行通过，步骤已完成。");
        let ghost t1 = task@;
        let ghost e1 = event_views(emitted@);
        crate::runtime::complete_task_if_ready(task, emitted);
        proof {
            let e2 = choose|em: Seq<EventView>|
                crate::runtime::completed_if_ready(t1, task@, em) && event_views(emitted@) == e1 + em;
            assert(passed_core(t0, t1, e1, crate::task::opt_ref_str(sid), command_run_result(approval@, run@), "已审批项目命令执行通过，步骤已完成。"@));
        }
    } else {
        assert(event_views(emitted@) =~= Seq::<EventView>::empty());
    }
}

impl TaskRuntime {
    /// Records a project command run (only for approvals of action
    /// `runtime.runProjectCommand` naming a known task): the task gets a
    /// `commandRun` artifact (once per approval) and moves on as `run_core`
    /// says; an `ArtifactCreated` event ends the record.
    #[verifier::spinoff_prover]
    pub fn record_command_run(&mut self, approval: &ApprovalRequest, run: &ProjectCommandRunResponse) -> (r: Option<Task>)
        requires
            old(self).wf(),
        ensures
            final(self).wf(),
            approval@.action_type != command_action() ==> r is None && final(self).tasks_v()
                == old(self).tasks_v() && final(self).events_v() == old(self).events_v(),
            approval@.action_type == command_action() ==> match record_task(
                old(self).tasks_v(),
                clean_opt_string(approval.task_id),
            ) {
                None => r is None && final(self).tasks_v() == old(self).tasks_v()
                    && final(self).events_v() == old(self).events_v(),
                Some(t) => if has_kind_artifact(t.artifacts, "commandRun"@, "approvalId"@, approval@.id) {
                    r matches Some(x) && x@ == t && final(self).tasks_v() == old(self).tasks_v()
                        && final(self).events_v() == old(self).events_v()
                } else {
                    r matches Some(x) && exists|t1: TaskView, em: Seq<EventView>|
                        artifact_added(t, t1, command_run_json(approval@, run@)) && run_core(
                            t1,
                            x@,
                            em,
                            approval@,
                            run@,
                            clean_opt_string(approval.step_id),
                            command_run_json(approval@, run@),
                        ) && changed_one(
                            old(self).tasks_v(),
                            final(self).tasks_v(),
                            old(self).events_v(),
                            final(self).events_v(),
                            t.id,
                            x@,
                            em + seq![
                                record_event(
                                    t.id,
                                    clean_opt_string(approval.step_id),
                                    TaskEventKind::ArtifactCreated,
                                    "项目命令执行"@ + run_status_text(run@) + "："@ + run@.command,
                                    command_run_json(approval@, run@),
                                ),
                            ],
                        )
                },
            },
    {
        proof {
            reveal_strlit("runtime.runProjectCommand");
        }
        if !str_eq(approval.action_type.as_str(), "runtime.runProjectCommand") {
            return None;
        }
        let id = match clean_optional(approval.task_id.as_ref()) {
            Some(id) => id,
            None => return None,
        };
        let sid = clean_optional(approval.step_id.as_ref());
        assert(opt_str(sid) == clean_opt_string(approval.step_id));
        let artifact = command_run_artifact(approval, run);
        let i = match self.find_index(id.as_str()) {
            Some(i) => i,
            None => return None,
        };
        if has_kind_artifact_in(&self.tasks[i], "commandRun", "approvalId", approval.id.as_str()) {
            return Some(self.tasks[i].duplicate());
        }
        let mut task = self.tasks[i].duplicate();
        let payload = artifact.deep_clone();
        task.add_artifact(artifact.deep_clone());
        let ghost t1 = task@;
        let mut emitted: Vec<TaskEvent> = Vec::new();
        let sid_ref = sid.as_ref();
        assert(crate::task::opt_ref_str(sid_ref) == opt_str(sid));
        run_in_task(&mut task, &mut emitted, approval, run, sid_ref, &artifact);
        let ghost em = event_views(emitted@);
        let mut m = concat3("项目命令执行", command_run_status_label(run), "：");
        push_str(&mut m, run.command.as_str());
        let ev = TaskEvent::new(id.as_str(), sid, TaskEventKind::ArtifactCreated, m, payload);
        let ghost evv = ev@;
        emitted.push(ev);
        assert(event_views(emitted@) =~= em + seq![evv]);
        Some(self.store_record(i, task, emitted))
    }
}


// ------------------------------------------------------------------
// Patch verification
// ------------------------------------------------------------------
/// The models of a list of command runs.
pub open spec fn run_views(v: Seq<ProjectCommandRunResponse>) -> Seq<crate::command::RunView> {
    v.map_values(|r: ProjectCommandRunResponse| r@)
}

/// How many of the runs succeeded.
pub open spec fn success_count(runs: Seq<crate::command::RunView>) -> nat
    decreases runs.len(),
{
    if runs.len() == 0 {
        0
    } else {
        success_count(runs.drop_last()) + if runs.last().success {
            1nat
        } else {
            0nat
        }
    }
}

/// The outcome of verifying a patch: `failed` when a command failed or could
/// not run, `skipped` when no command ran, else `passed`.
pub open spec fn verification_status_text(runs: Seq<crate::command::RunView>, n_errors: nat) -> Seq<char> {
    if n_errors > 0 || success_count(runs) < runs.len() {
        "failed"@
    } else if runs.len() == 0 {
        "skipped"@
    } else {
        "passed"@
    }
}

/// The label of a verification outcome.
pub open spec fn verification_label_text(status: Seq<char>) -> Seq<char> {
    if status == "passed"@ {
        "通过"@
    } else if status == "failed"@ {
        "失败"@
    } else {
        "跳过"@
    }
}

/// The label of a verification outcome.
pub fn patch_verification_status_label(status: &str) -> (r: &'static str)
    ensures
        r@ == verification_label_text(status@),
{
    if str_eq(status, "passed") {
        "通过"
    } else if str_eq(status, "failed") {
        "失败"
    } else {
        "跳过"
    }
}

fn count_successes(runs: &Vec<ProjectCommandRunResponse>) -> (n: usize)
    ensures
        n == success_count(run_views(runs@)),
        n <= runs@.len(),
{
    let ghost rv = run_views(runs@);
    let mut n: usize = 0;
    let mut i: usize = 0;
    while i < runs.len()
        invariant
            i <= runs@.len(),
            rv == run_views(runs@),
            n == success_count(rv.take(i as int)),
            n <= i,
        decreases runs.len() - i,
    {
        assert(rv.take(i + 1).drop_last() =~= rv.take(i as int));
        assert(rv[i as int] == runs@[i as int]@);
        if runs[i].success {
            n += 1;
        }
        i += 1;
    }
    assert(rv.take(runs@.len() as int) =~= rv);
    n
}

/// The outcome of verifying a patch (see `verification_status_text`).
pub fn patch_verification_status(runs: &Vec<ProjectCommandRunResponse>, errors: &Vec<JsonValue>) -> (r: &'static str)
    ensures
        r@ == verification_status_text(run_views(runs@), errors@.len()),
{
    let ok = count_successes(runs);
    if errors.len() > 0 || ok < runs.len() {
        "failed"
    } else if runs.len() == 0 {
        "skipped"
    } else {
        "passed"
    }
}

/// A run as summarized in a verification artifact.
pub open spec fn run_summary_json(run: crate::command::RunView) -> Json {
    Json::Object(
        seq![
            ("id"@, Json::Str(run.id)),
            ("command"@, Json::Str(run.command)),
            ("workingDir"@, Json::Str(run.working_dir)),
            ("success"@, Json::Bool(run.success)),
            ("exitCode"@, exit_json(run.exit_code)),
            ("durationMs"@, Json::Int(run.duration_ms as int)),
            ("timedOut"@, Json::Bool(run.timed_out)),
            ("createdAt"@, Json::Str(run.created_at)),
        ],
    )
}

fn run_summary(run: &ProjectCommandRunResponse) -> (r: JsonValue)
    ensures
        jv(r) == run_summary_json(run@),
{
    let mut f: Vec<(String, JsonValue)> = Vec::new();
    proof {
        assert(jv_fields(f@) =~= Seq::empty());
    }
    push_field(&mut f, "id", JsonValue::Str(run.id.clone()));
    push_field(&mut f, "command", JsonValue::Str(run.command.clone()));
    push_field(&mut f, "workingDir", JsonValue::Str(run.working_dir.clone()));
    push_field(&mut f, "success", JsonValue::Bool(run.success));
    push_field(&mut f, "exitCode", exit_code_json(run.exit_code));
    push_field(&mut f, "durationMs", JsonValue::UInt(run.duration_ms));
    push_field(&mut f, "timedOut", JsonValue::Bool(run.timed_out));
    push_field(&mut f, "createdAt", JsonValue::Str(run.created_at.clone()));
    let ghost fv = jv_fields(f@);
    let r = object(f);
    assert(run_summary_json(run@)->Object_0 =~= fv);
    r
}

fn run_summaries(runs: &Vec<ProjectCommandRunResponse>) -> (r: JsonValue)
    ensures
        jv(r) == Json::Array(Seq::new(runs@.len(), |i: int| run_summary_json(runs@[i]@))),
{
    let mut out: Vec<JsonValue> = Vec::new();
    let mut i: usize = 0;
    while i < runs.len()
        invariant
            i <= runs@.len(),
            crate::json::jv_items(out@) == Seq::new(i as nat, |k: int| run_summary_json(runs@[k]@)),
        decreases runs.len() - i,
    {
        let ghost before = out@;
        let x = run_summary(&runs[i]);
        out.push(x);
        proof {
            assert(out@.drop_last() =~= before);
            assert(crate::json::jv_items(out@) =~= Seq::new((i + 1) as nat, |k: int| run_summary_json(runs@[k]@)));
        }
        i += 1;
    }
    JsonValue::Array(out)
}

fn copy_json_items(items: &Vec<JsonValue>) -> (r: JsonValue)
    ensures
        jv(r) == Json::Array(crate::task::json_views(items@)),
{
    let mut out: Vec<JsonValue> = Vec::new();
    let mut i: usize = 0;
    while i < items.len()
        invariant
            i <= items@.len(),
            crate::json::jv_items(out@) == crate::task::json_views(items@).take(i as int),
        decreases items.len() - i,
    {
        let ghost before = out@;
        out.push(items[i].deep_clone());
        proof {
            assert(out@.drop_last() =~= before);
            assert(crate::json::jv_items(out@) =~= crate::task::json_views(items@).take(i + 1));
        }
        i += 1;
    }
    assert(crate::task::json_views(items@).take(items@.len() as int) =~= crate::task::json_views(items@));
    JsonValue::Array(out)
}

/// A revert result as JSON.
pub open spec fn revert_json(r: RevertView) -> Json {
    Json::Object(
        seq![
            ("patchId"@, Json::Str(r.patch_id)),
            ("status"@, Json::Str(proposal_status_text(r.status))),
            ("files"@, text_list(r.files)),
            ("revertedAt"@, Json::Int(r.reverted_at as int)),
            ("alreadyReverted"@, Json::Bool(r.already_reverted)),
        ],
    )
}

fn revert_result_json(r: &PatchRevertResult) -> (j: JsonValue)
    ensures
        jv(j) == revert_json(r@),
{
    let mut f: Vec<(String, JsonValue)> = Vec::new();
    proof {
        assert(jv_fields(f@) =~= Seq::empty());
    }
    push_field(&mut f, "patchId", JsonValue::Str(r.patch_id.clone()));
    push_field(&mut f, "status", jstr(proposal_status_value(&r.status)));
    push_field(&mut f, "files", text_array(&r.files));
    push_field(&mut f, "revertedAt", JsonValue::Int(r.reverted_at));
    push_field(&mut f, "alreadyReverted", JsonValue::Bool(r.already_reverted));
    let ghost fv = jv_fields(f@);
    let j = object(f);
    assert(revert_json(r@)->Object_0 =~= fv);
    j
}

/// An automatic rollback as JSON.
pub open spec fn auto_rollback_json(a: AutoRollbackView) -> Json {
    Json::Object(
        seq![
            ("triggeredBy"@, Json::Str(a.triggered_by)),
            ("reverted"@, Json::Bool(a.reverted)),
            ("error"@, opt_text(a.error)),
            ("result"@, match a.result {
                Some(r) => revert_json(r),
                None => Json::Null,
            }),
        ],
    )
}

/// An automatic rollback as JSON.
pub fn auto_rollback_value(a: &PatchAutoRollbackResult) -> (j: JsonValue)
    ensures
        jv(j) == auto_rollback_json(a@),
{
    let mut f: Vec<(String, JsonValue)> = Vec::new();
    proof {
        assert(jv_fields(f@) =~= Seq::empty());
    }
    push_field(&mut f, "triggeredBy", JsonValue::Str(a.triggered_by.clone()));
    push_field(&mut f, "reverted", JsonValue::Bool(a.reverted));
    push_field(&mut f, "error", opt_string_json(&a.error));
    let res = match &a.result {
        Some(r) => revert_result_json(r),
        None => JsonValue::Null,
    };
    push_field(&mut f, "result", res);
    let ghost fv = jv_fields(f@);
    let j = object(f);
    assert(auto_rollback_json(a@)->Object_0 =~= fv);
    j
}

/// The model of an optional automatic rollback.
pub open spec fn opt_rollback(a: Option<&PatchAutoRollbackResult>) -> Option<AutoRollbackView> {
    match a {
        Some(x) => Some(x@),
        None => None,
    }
}

/// The artifact recording a patch verification made at `at`.
pub open spec fn patch_verification_json(
    p: ProposalView,
    approval_id: Seq<char>,
    runs: Seq<crate::command::RunView>,
    errors: Seq<Json>,
    auto: Option<AutoRollbackView>,
    at: i64,
) -> Json {
    let base = seq![
        ("kind"@, Json::Str("patchVerification"@)),
        ("patchId"@, Json::Str(p.id)),
        ("approvalId"@, Json::Str(approval_id)),
        ("summary"@, Json::Str(p.summary)),
        ("status"@, Json::Str(verification_status_text(runs, errors.len()))),
        ("verifiedAt"@, Json::Int(at as int)),
        ("commandCount"@, Json::Int((runs.len() + errors.len()) as int)),
        ("successCount"@, Json::Int(success_count(runs) as int)),
        ("failedCount"@, Json::Int(runs.len() - success_count(runs) + errors.len())),
        ("runs"@, Json::Array(Seq::new(runs.len(), |i: int| run_summary_json(runs[i])))),
        ("errors"@, Json::Array(errors)),
    ];
    Json::Object(
        match auto {
            Some(a) => base.push(("autoRollback"@, auto_rollback_json(a))),
            None => base,
        },
    )
}

/// The artifact recording a patch verification made at `at`.
pub fn patch_verification_artifact(
    proposal: &PatchProposal,
    approval_id: &str,
    runs: &Vec<ProjectCommandRunResponse>,
    errors: &Vec<JsonValue>,
    auto_rollback: Option<&PatchAutoRollbackResult>,
    at: i64,
) -> (r: JsonValue)
    requires
        runs@.len() + errors@.len() <= u64::MAX,
    ensures
        jv(r) == patch_verification_json(
            proposal@,
            approval_id@,
            run_views(runs@),
            crate::task::json_views(errors@),
            opt_rollback(auto_rollback),
            at,
        ),
{
    let ok = count_successes(runs);
    let mut f: Vec<(String, JsonValue)> = Vec::new();
    proof {
        assert(jv_fields(f@) =~= Seq::empty());
    }
    push_field(&mut f, "kind", jstr("patchVerification"));
    push_field(&mut f, "patchId", JsonValue::Str(proposal.id.clone()));
    push_field(&mut f, "approvalId", jstr(approval_id));
    push_field(&mut f, "summary", JsonValue::Str(proposal.summary.clone()));
    push_field(&mut f, "status", jstr(patch_verification_status(runs, errors)));
    push_field(&mut f, "verifiedAt", JsonValue::Int(at));
    push_field(&mut f, "commandCount", JsonValue::UInt(runs.len() as u64 + errors.len() as u64));
    push_field(&mut f, "successCount", JsonValue::UInt(ok as u64));
    push_field(&mut f, "failedCount", JsonValue::UInt((runs.len() - ok) as u64 + errors.len() as u64));
    push_field(&mut f, "runs", run_summaries(runs));
    push_field(&mut f, "errors", copy_json_items(errors));
    let ghost base = jv_fields(f@);
    proof {
        let rv = run_views(runs@);
        assert(Seq::new(runs@.len(), |i: int| run_summary_json(runs@[i]@)) =~= Seq::new(
            rv.len(),
            |i: int| run_summary_json(rv[i]),
        ));
    }
    match auto_rollback {
        Some(a) => push_field(&mut f, "autoRollback", auto_rollback_value(a)),
        None => {},
    }
    let ghost fv = jv_fields(f@);
    let r = object(f);
    proof {
        let spec = patch_verification_json(
            proposal@,
            approval_id@,
            run_views(runs@),
            crate::task::json_views(errors@),
            opt_rollback(auto_rollback),
            at,
        );
        assert(spec->Object_0 =~= fv);
    }
    r
}


/// What a failed verification says about the patch left behind.
pub open spec fn rollback_summary(auto: Option<AutoRollbackView>) -> Seq<char> {
    match auto {
        Some(a) => if a.reverted {
            "已自动回滚补丁。"@
        } else {
            "自动回滚失败，需要人工处理。"@
        },
        None => "补丁仍保留在工作区，需要修复或手动回滚。"@,
    }
}

/// The message of a failed verification.
pub open spec fn verification_failure_text(p: ProposalView, auto: Option<AutoRollbackView>) -> Seq<char> {
    "补丁验证失败："@ + p.summary + "。"@ + rollback_summary(auto)
}

/// The message of a failed verification.
pub fn patch_verification_failure_message(proposal: &PatchProposal, auto_rollback: Option<&PatchAutoRollbackResult>) -> (r: String)
    ensures
        r@ == verification_failure_text(proposal@, opt_rollback(auto_rollback)),
{
    let summary = match auto_rollback {
        Some(a) => if a.reverted {
            "已自动回滚补丁。"
        } else {
            "自动回滚失败，需要人工处理。"
        },
        None => "补丁仍保留在工作区，需要修复或手动回滚。",
    };
    let mut m = concat3("补丁验证失败：", proposal.summary.as_str(), "。");
    push_str(&mut m, summary);
    m
}

/// The payload of the events of a failed verification.
pub open spec fn verification_failure_json(p: ProposalView, status: Seq<char>, auto: Option<AutoRollbackView>) -> Json {
    Json::Object(
        seq![
            ("patchId"@, Json::Str(p.id)),
            ("status"@, Json::Str(status)),
            ("autoRollback"@, match auto {
                Some(a) => auto_rollback_json(a),
                None => Json::Null,
            }),
        ],
    )
}

/// The payload of the events of a failed verification.
pub fn patch_verification_failure_payload(
    proposal: &PatchProposal,
    status: &str,
    auto_rollback: Option<&PatchAutoRollbackResult>,
) -> (r: JsonValue)
    ensures
        jv(r) == verification_failure_json(proposal@, status@, opt_rollback(auto_rollback)),
{
    let mut f: Vec<(String, JsonValue)> = Vec::new();
    proof {
        assert(jv_fields(f@) =~= Seq::empty());
    }
    push_field(&mut f, "patchId", JsonValue::Str(proposal.id.clone()));
    push_field(&mut f, "status", jstr(status));
    let ar = match auto_rollback {
        Some(a) => auto_rollback_value(a),
        None => JsonValue::Null,
    };
    push_field(&mut f, "autoRollback", ar);
    let ghost fv = jv_fields(f@);
    let r = object(f);
    assert(verification_failure_json(proposal@, status@, opt_rollback(auto_rollback))->Object_0 =~= fv);
    r
}

/// The result stored on a step completed by a passed verification.
pub open spec fn verification_result_json(p: ProposalView, approval_id: Seq<char>, status: Seq<char>) -> Json {
    Json::Object(
        seq![
            ("patchId"@, Json::Str(p.id)),
            ("approvalId"@, Json::Str(approval_id)),
            ("summary"@, Json::Str(p.summary)),
            ("verificationStatus"@, Json::Str(status)),
        ],
    )
}

fn verification_result(proposal: &PatchProposal, approval_id: &str, status: &str) -> (r: JsonValue)
    ensures
        jv(r) == verification_result_json(proposal@, approval_id@, status@),
{
    let mut f: Vec<(String, JsonValue)> = Vec::new();
    proof {
        assert(jv_fields(f@) =~= Seq::empty());
    }
    push_field(&mut f, "patchId", JsonValue::Str(proposal.id.clone()));
    push_field(&mut f, "approvalId", jstr(approval_id));
    push_field(&mut f, "summary", JsonValue::Str(proposal.summary.clone()));
    push_field(&mut f, "verificationStatus", jstr(status));
    let ghost fv = jv_fields(f@);
    let r = object(f);
    assert(verification_result_json(proposal@, approval_id@, status@)->Object_0 =~= fv);
    r
}

/// How a task moves on after a patch verification (following its
/// artifact): a failed verification fails the step named by the proposal
/// and the task (unless cancelled); otherwise, unless the task is finished,
/// the named step completes and then the task if all its steps are done.
pub open spec fn verification_core(
    t: TaskView,
    t2: TaskView,
    em: Seq<EventView>,
    p: ProposalView,
    approval_id: Seq<char>,
    status: Seq<char>,
    auto: Option<AutoRollbackView>,
) -> bool {
    if status == "failed"@ && t.status != TaskStatus::Cancelled {
        failure_core(
            t,
            t2,
            em,
            p.step_id,
            verification_failure_json(p, status, auto),
            verification_failure_text(p, auto),
        )
    } else if !is_terminal(t.status) {
        exists|t1: TaskView, e1: Seq<EventView>, e2: Seq<EventView>|
            passed_core(
                t,
                t1,
                e1,
                p.step_id,
                verification_result_json(p, approval_id, status),
                "补丁验证"@ + verification_label_text(status) + "，步骤已恢复并完成。"@,
            ) && crate::runtime::completed_if_ready(t1, t2, e2) && em == e1 + e2
    } else {
        t2 == t && em == Seq::<EventView>::empty()
    }
}

fn verify_in_task(
    task: &mut Task,
    emitted: &mut Vec<TaskEvent>,
    proposal: &PatchProposal,
    approval_id: &str,
    status: &str,
    auto_rollback: Option<&PatchAutoRollbackResult>,
)
    requires
        old(emitted)@.len() == 0,
    ensures
        verification_core(
            old(task)@,
            final(task)@,
            event_views(final(emitted)@),
            proposal@,
            approval_id@,
            status@,
            opt_rollback(auto_rollback),
        ),
{
    proof {
        reveal_strlit("failed");
    }
    let sid = proposal.step_id.as_ref();
    assert(crate::task::opt_ref_str(sid) == proposal@.step_id);
    if str_eq(status, "failed") && task.status != TaskStatus::Cancelled {
        let msg = patch_verification_failure_message(proposal, auto_rollback);
        let payload = patch_verification_failure_payload(proposal, status, auto_rollback);
        fail_for_check(task, emitted, sid, &payload, msg.as_str());
    } else if !crate::task::task_status_is_terminal(task.status) {
        let ghost t0 = task@;
        let result = verification_result(proposal, approval_id, status);
        let mut m = concat3("补丁验证", patch_verification_status_label(status), "，步骤已恢复并完成。");
        complete_for_check(task, emitted, sid, result, m.as_str());
        let ghost t1 = task@;
        let ghost e1 = event_views(emitted@);
        crate::runtime::complete_task_if_ready(task, emitted);
        proof {
            let e2 = choose|em: Seq<EventView>|
                crate::runtime::completed_if_ready(t1, task@, em) && event_views(emitted@) == e1 + em;
            assert(passed_core(
                t0,
                t1,
                e1,
                proposal@.step_id,
                verification_result_json(proposal@, approval_id@, status@),
                "补丁验证"@ + verification_label_text(status@) + "，步骤已恢复并完成。"@,
            ));
        }
    } else {
        assert(event_views(emitted@) =~= Seq::<EventView>::empty());
    }
}

impl TaskRuntime {
    /// Records the verification of an applied patch: the task named by the
    /// proposal gets a `patchVerification` artifact (once per patch; stamped
    /// with the time of recording) and moves on as `verification_core` says;
    /// an `ArtifactCreated` event ends the record.
    #[verifier::spinoff_prover]
    pub fn record_patch_verification(
        &mut self,
        proposal: &PatchProposal,
        approval_id: &str,
        runs: &Vec<ProjectCommandRunResponse>,
        errors: &Vec<JsonValue>,
        auto_rollback: Option<&PatchAutoRollbackResult>,
    ) -> (r: Option<Task>)
        requires
            old(self).wf(),
            runs@.len() + errors@.len() <= u64::MAX,
        ensures
            final(self).wf(),
            match record_task(old(self).tasks_v(), clean_opt_string(proposal.task_id)) {
                None => r is None && final(self).tasks_v() == old(self).tasks_v()
                    && final(self).events_v() == old(self).events_v(),
                Some(t) => if has_kind_artifact(t.artifacts, "patchVerification"@, "patchId"@, proposal@.id) {
                    r matches Some(x) && x@ == t && final(self).tasks_v() == old(self).tasks_v()
                        && final(self).events_v() == old(self).events_v()
                } else {
                    r matches Some(x) && exists|at: i64, t1: TaskView, em: Seq<EventView>|
                        artifact_added(
                            t,
                            t1,
                            patch_verification_json(
                                proposal@,
                                approval_id@,
                                run_views(runs@),
                                crate::task::json_views(errors@),
                                opt_rollback(auto_rollback),
                                at,
                            ),
                        ) && verification_core(
                            t1,
                            x@,
                            em,
                            proposal@,
                            approval_id@,
                            verification_status_text(run_views(runs@), errors@.len()),
                            opt_rollback(auto_rollback),
                        ) && changed_one(
                            old(self).tasks_v(),
                            final(self).tasks_v(),
                            old(self).events_v(),
                            final(self).events_v(),
                            t.id,
                            x@,
                            em + seq![
                                record_event(
                                    t.id,
                                    proposal@.step_id,
                                    TaskEventKind::ArtifactCreated,
                                    "补丁验证"@ + verification_label_text(
                                        verification_status_text(run_views(runs@), errors@.len()),
                                    ) + "："@ + proposal@.summary,
                                    patch_verification_json(
                                        proposal@,
                                        approval_id@,
                                        run_views(runs@),
                                        crate::task::json_views(errors@),
                                        opt_rollback(auto_rollback),
                                        at,
                                    ),
                                ),
                            ],
                        )
                },
            },
    {
        let id = match clean_optional(proposal.task_id.as_ref()) {
            Some(id) => id,
            None => return None,
        };
        let at = crate::clock::now_millis();
        let artifact = patch_verification_artifact(proposal, approval_id, runs, errors, auto_rollback, at);
        let i = match self.find_index(id.as_str()) {
            Some(i) => i,
            None => return None,
        };
        if has_kind_artifact_in(&self.tasks[i], "patchVerification", "patchId", proposal.id.as_str()) {
            return Some(self.tasks[i].duplicate());
        }
        let status = patch_verification_status(runs, errors);
        let mut task = self.tasks[i].duplicate();
        let payload = artifact.deep_clone();
        task.add_artifact(artifact);
        let ghost t1 = task@;
        let mut emitted: Vec<TaskEvent> = Vec::new();
        verify_in_task(&mut task, &mut emitted, proposal, approval_id, status, auto_rollback);
        let ghost em = event_views(emitted@);
        let mut m = concat3("补丁验证", patch_verification_status_label(status), "：");
        push_str(&mut m, proposal.summary.as_str());
        let ev = TaskEvent::new(id.as_str(), copy_opt_string(&proposal.step_id), TaskEventKind::ArtifactCreated, m, payload);
        let ghost evv = ev@;
        emitted.push(ev);
        assert(event_views(emitted@) =~= em + seq![evv]);
        Some(self.store_record(i, task, emitted))
    }
}

} // verus!
