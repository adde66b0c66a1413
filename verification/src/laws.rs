//! Properties of the library that span its operations.
use vstd::prelude::*;
use crate::agents::{capability_names};
use crate::api::{catalog, meta_from, named_from};
use crate::approval::{ApprovalStatus, ApprovalView};
use crate::audit::{redacted, redacted_fields, sensitive_key, MAX_OBJECT_KEYS, min_len};
use crate::command::{allowed_index, allowlist, has_shell_meta, inspection_of};
use crate::control::{cancelled_task, changed_one, is_open, lemma_lookup_replace, retried_task, retry_resets};
use crate::json::{Json, json_get_str, lookup};
use crate::patch::{ApplyView, AutoRollbackView, ProposalView, RevertView};
use crate::project::{strictly_sorted, text_lt};
use crate::records::{verification_core, patch_verification_json, artifact_added, has_kind_artifact, patch_applied_json, patch_reverted_json, record_task};
use crate::runtime::{has_task, lookup_task, replace_task, task_index, unique_ids};
use crate::task::{StepStatus, TaskStatus, TaskView, EventView};
use crate::text::clean_opt;
use crate::sending::{has_api_key, request_context_json, transient_context_json, SettingsView};
use crate::json::json_get;
use crate::plan::{index_from, agent_named, deps_from, envelope_plan, original_ids, plan_steps_from, step_id_of, LlmStepView, PlanStepView};
use crate::records::{success_count, verification_status_text};
use crate::command::RunView;
use crate::plan::goal_plan_steps;
use crate::tool_args::path_token;
use crate::tooling::strip_end_by;
use crate::memory::{last_turns, merged, remembered, TurnView, SHORT_TERM_MEMORY_SIZE};

verus! {

// ------------------------------------------------------------------
// Cancelling and retrying
// ------------------------------------------------------------------
/// A cancelled task is cancelled and has no pending or running step left;
/// every step that was already finished is untouched.
pub proof fn law_cancel_closes_open_steps(t: TaskView, t2: TaskView, reason: Seq<char>)
    requires
        cancelled_task(t, t2, reason),
    ensures
        t2.status == TaskStatus::Cancelled,
        t2.steps.len() == t.steps.len(),
        forall|k: int| 0 <= k < t2.steps.len() ==> !is_open(#[trigger] t2.steps[k].status),
        forall|k: int| 0 <= k < t.steps.len() && !is_open(t.steps[k].status) ==> t2.steps[k] == #[trigger] t.steps[k],
{
    assert forall|k: int| 0 <= k < t2.steps.len() implies !is_open(#[trigger] t2.steps[k].status) by {
        assert(crate::control::cancelled_step(t.steps[k], t2.steps[k], reason));
    }
}

/// A retry keeps every completed (or timed-out) step as it was and puts
/// every other step back to pending with the same attempt count, so the
/// work already done is not redone.
pub proof fn law_retry_keeps_completed_steps(t: TaskView, t2: TaskView)
    requires
        retried_task(t, t2),
    ensures
        t2.steps.len() == t.steps.len(),
        forall|k: int|
            0 <= k < t.steps.len() && t.steps[k].status == StepStatus::Completed ==> #[trigger] t2.steps[k]
                == t.steps[k],
        forall|k: int|
            0 <= k < t.steps.len() && retry_resets(t.steps[k].status) ==> (#[trigger] t2.steps[k]).status
                == StepStatus::Pending && t2.steps[k].attempts == t.steps[k].attempts && t2.steps[k].id
                == t.steps[k].id,
        t2.status == TaskStatus::Planning || t2.status == TaskStatus::Running,
{
    assert forall|k: int|
        0 <= k < t.steps.len() && t.steps[k].status == StepStatus::Completed implies #[trigger] t2.steps[k]
        == t.steps[k] by {
        assert(crate::control::retried_step(t.steps[k], t2.steps[k]));
    }
    assert forall|k: int| 0 <= k < t.steps.len() && retry_resets(t.steps[k].status) implies (
    #[trigger] t2.steps[k]).status == StepStatus::Pending && t2.steps[k].attempts == t.steps[k].attempts
        && t2.steps[k].id == t.steps[k].id by {
        assert(crate::control::retried_step(t.steps[k], t2.steps[k]));
    }
}

/// Cancelling a task and then retrying it reopens every step the
/// cancellation closed and keeps every step completed before it.
pub proof fn law_retry_after_cancel_reopens_skipped_steps(t: TaskView, t1: TaskView, t2: TaskView, reason: Seq<char>)
    requires
        cancelled_task(t, t1, reason),
        retried_task(t1, t2),
    ensures
        t2.steps.len() == t.steps.len(),
        forall|k: int| 0 <= k < t.steps.len() && is_open(t.steps[k].status) ==> (#[trigger] t2.steps[k]).status
            == StepStatus::Pending,
        forall|k: int|
            0 <= k < t.steps.len() && t.steps[k].status == StepStatus::Completed ==> #[trigger] t2.steps[k]
                == t.steps[k],
{
    assert forall|k: int| 0 <= k < t.steps.len() && is_open(t.steps[k].status) implies (
    #[trigger] t2.steps[k]).status == StepStatus::Pending by {
        assert(crate::control::cancelled_step(t.steps[k], t1.steps[k], reason));
        assert(crate::control::retried_step(t1.steps[k], t2.steps[k]));
    }
    assert forall|k: int|
        0 <= k < t.steps.len() && t.steps[k].status == StepStatus::Completed implies #[trigger] t2.steps[k]
        == t.steps[k] by {
        assert(crate::control::cancelled_step(t.steps[k], t1.steps[k], reason));
        assert(crate::control::retried_step(t1.steps[k], t2.steps[k]));
    }
}

// ------------------------------------------------------------------
// Records are made once
// ------------------------------------------------------------------
/// An artifact added to a task makes the task hold an artifact of that
/// artifact's kind and key.
pub proof fn law_added_artifact_is_found(t: TaskView, t2: TaskView, art: Json, kind: Seq<char>, key: Seq<char>, id: Seq<char>)
    requires
        artifact_added(t, t2, art),
        json_get_str(art, "kind"@) == Some(kind),
        json_get_str(art, key) == Some(id),
    ensures
        has_kind_artifact(t2.artifacts, kind, key, id),
{
    let i = t.artifacts.len() as int;
    assert(t2.artifacts[i] == art);
}

/// After a patch is recorded as applied, recording it again finds the
/// record: the task now holds a `patchApplied` artifact for that patch, so
/// the second call leaves the runtime unchanged.
pub proof fn law_patch_applied_recorded_once(
    tasks: Seq<TaskView>,
    tasks2: Seq<TaskView>,
    events: Seq<EventView>,
    events2: Seq<EventView>,
    t: TaskView,
    x: TaskView,
    emitted: Seq<EventView>,
    task_id: Seq<char>,
    p: ProposalView,
    r: ApplyView,
    approval_id: Seq<char>,
)
    requires
        unique_ids(tasks),
        lookup_task(tasks, task_id) == Some(t),
        artifact_added(t, x, patch_applied_json(p, r, approval_id)),
        changed_one(tasks, tasks2, events, events2, t.id, x, emitted),
    ensures
        lookup_task(tasks2, task_id) == Some(x),
        has_kind_artifact(x.artifacts, "patchApplied"@, "patchId"@, p.id),
{
    reveal_strlit("kind");
    reveal_strlit("patchId");
    let j = patch_applied_json(p, r, approval_id);
    assert(json_get_str(j, "kind"@) == Some("patchApplied"@));
    assert("kind"@.len() == 4 && "patchId"@.len() == 7);
    assert("kind"@ != "patchId"@);
    let fs = j->Object_0;
    assert(fs.drop_first()[0] == ("patchId"@, Json::Str(p.id)));
    assert(lookup(fs.drop_first(), "patchId"@) == Some(Json::Str(p.id)));
    assert(lookup(fs, "patchId"@) == Some(Json::Str(p.id)));
    assert(json_get_str(j, "patchId"@) == Some(p.id));
    law_added_artifact_is_found(t, x, j, "patchApplied"@, "patchId"@, p.id);
    assert(tasks[task_index(tasks, task_id)].id == task_id);
    lemma_lookup_replace(tasks, task_id, x);
}

/// After a patch is recorded as reverted, recording it again finds the
/// record: the task now holds a `patchReverted` artifact for that patch.
pub proof fn law_patch_reverted_recorded_once(
    tasks: Seq<TaskView>,
    tasks2: Seq<TaskView>,
    events: Seq<EventView>,
    events2: Seq<EventView>,
    t: TaskView,
    x: TaskView,
    emitted: Seq<EventView>,
    task_id: Seq<char>,
    p: ProposalView,
    r: RevertView,
)
    requires
        unique_ids(tasks),
        lookup_task(tasks, task_id) == Some(t),
        artifact_added(t, x, patch_reverted_json(p, r)),
        changed_one(tasks, tasks2, events, events2, t.id, x, emitted),
    ensures
        lookup_task(tasks2, task_id) == Some(x),
        has_kind_artifact(x.artifacts, "patchReverted"@, "patchId"@, p.id),
{
    reveal_strlit("kind");
    reveal_strlit("patchId");
    let j = patch_reverted_json(p, r);
    assert(json_get_str(j, "kind"@) == Some("patchReverted"@));
    assert("kind"@.len() == 4 && "patchId"@.len() == 7);
    assert("kind"@ != "patchId"@);
    let fs = j->Object_0;
    assert(fs.drop_first()[0] == ("patchId"@, Json::Str(p.id)));
    assert(lookup(fs.drop_first(), "patchId"@) == Some(Json::Str(p.id)));
    assert(lookup(fs, "patchId"@) == Some(Json::Str(p.id)));
    assert(json_get_str(j, "patchId"@) == Some(p.id));
    law_added_artifact_is_found(t, x, j, "patchReverted"@, "patchId"@, p.id);
    assert(tasks[task_index(tasks, task_id)].id == task_id);
    lemma_lookup_replace(tasks, task_id, x);
}

/// Whatever recording a verification does to a task's status and steps, it
/// keeps the task's artifacts.
pub proof fn lemma_verification_keeps_artifacts(
    t: TaskView,
    t2: TaskView,
    em: Seq<EventView>,
    p: ProposalView,
    approval_id: Seq<char>,
    status: Seq<char>,
    auto: Option<AutoRollbackView>,
)
    requires
        verification_core(t, t2, em, p, approval_id, status, auto),
    ensures
        t2.artifacts == t.artifacts,
        t2.id == t.id,
{
    if status == "failed"@ && t.status != TaskStatus::Cancelled {
    } else if !crate::task::is_terminal(t.status) {
        let (t1, e1, e2) = choose|t1: TaskView, e1: Seq<EventView>, e2: Seq<EventView>|
            crate::records::passed_core(
                t,
                t1,
                e1,
                p.step_id,
                crate::records::verification_result_json(p, approval_id, status),
                "补丁验证"@ + crate::records::verification_label_text(status) + "，步骤已恢复并完成。"@,
            ) && crate::runtime::completed_if_ready(t1, t2, e2) && em == e1 + e2;
        assert(t1.artifacts == t.artifacts);
    }
}

/// After a patch's verification is recorded, recording it again finds the
/// record: the task holds a `patchVerification` artifact for that patch, so
/// a second call returns the task and changes nothing.
pub proof fn law_patch_verification_recorded_once(
    tasks: Seq<TaskView>,
    tasks2: Seq<TaskView>,
    events: Seq<EventView>,
    events2: Seq<EventView>,
    t: TaskView,
    t1: TaskView,
    x: TaskView,
    emitted: Seq<EventView>,
    task_id: Seq<char>,
    p: ProposalView,
    approval_id: Seq<char>,
    runs: Seq<crate::command::RunView>,
    errors: Seq<Json>,
    auto: Option<AutoRollbackView>,
    at: i64,
    status: Seq<char>,
    em: Seq<EventView>,
)
    requires
        unique_ids(tasks),
        lookup_task(tasks, task_id) == Some(t),
        artifact_added(t, t1, patch_verification_json(p, approval_id, runs, errors, auto, at)),
        verification_core(t1, x, em, p, approval_id, status, auto),
        changed_one(tasks, tasks2, events, events2, t.id, x, emitted),
    ensures
        lookup_task(tasks2, task_id) == Some(x),
        has_kind_artifact(x.artifacts, "patchVerification"@, "patchId"@, p.id),
{
    reveal_strlit("kind");
    reveal_strlit("patchId");
    let j = patch_verification_json(p, approval_id, runs, errors, auto, at);
    assert(json_get_str(j, "kind"@) == Some("patchVerification"@));
    assert("kind"@.len() == 4 && "patchId"@.len() == 7);
    assert("kind"@ != "patchId"@);
    let fs = j->Object_0;
    assert(fs.drop_first()[0] == ("patchId"@, Json::Str(p.id)));
    assert(lookup(fs.drop_first(), "patchId"@) == Some(Json::Str(p.id)));
    assert(lookup(fs, "patchId"@) == Some(Json::Str(p.id)));
    assert(json_get_str(j, "patchId"@) == Some(p.id));
    law_added_artifact_is_found(t, t1, j, "patchVerification"@, "patchId"@, p.id);
    lemma_verification_keeps_artifacts(t1, x, em, p, approval_id, status, auto);
    assert(tasks[task_index(tasks, task_id)].id == task_id);
    lemma_lookup_replace(tasks, task_id, x);
}

// ------------------------------------------------------------------
// Approvals
// ------------------------------------------------------------------
/// A pending request that was decided is no longer pending, so a second
/// decision on it is refused.
pub proof fn law_request_decided_once(a: ApprovalView, a2: ApprovalView, approved: bool)
    requires
        a.status == ApprovalStatus::Pending,
        a2 == (ApprovalView {
            status: if approved {
                ApprovalStatus::Approved
            } else {
                ApprovalStatus::Rejected
            },
            ..a2
        }),
    ensures
        a2.status != ApprovalStatus::Pending,
        approved ==> a2.status == ApprovalStatus::Approved,
        !approved ==> a2.status == ApprovalStatus::Rejected,
{
}

// ------------------------------------------------------------------
// Commands
// ------------------------------------------------------------------
/// A command request that inspection admits has no shell control
/// character, and an allowed one is exactly an allowlist entry.
pub proof fn law_allowed_command_is_listed(command: Seq<char>, working_dir: Seq<char>)
    requires
        inspection_of(command, working_dir) is Ok,
    ensures
        !has_shell_meta(command),
        ({
            let (c, d, allowed) = inspection_of(command, working_dir)->Ok_0;
            allowed ==> exists|i: int| 0 <= i < 4 && #[trigger] allowlist()[i].command == c && allowlist()[i].working_dir == d
        }),
{
    let (c, d, allowed) = inspection_of(command, working_dir)->Ok_0;
    if allowed {
        let i = allowed_index(c, d)->Some_0;
        assert(allowlist()[i].command == c && allowlist()[i].working_dir == d);
    }
}

// ------------------------------------------------------------------
// Routing
// ------------------------------------------------------------------
/// A message with no chosen agent goes to the coordinator, which can be
/// talked to directly.
pub proof fn law_default_route_is_selectable()
    ensures
        meta_from("Planner"@, 0) == catalog()[0],
        meta_from("Planner"@, 0).selectable,
        meta_from("Planner"@, 0).id == "coordinator"@,
{
    assert(catalog()[0].runtime_name == "Planner"@);
}

// ------------------------------------------------------------------
// Audit summaries
// ------------------------------------------------------------------
proof fn lemma_redacted_fields_index(fields: Seq<(Seq<char>, Json)>, depth: nat)
    ensures
        redacted_fields(fields, depth).len() == fields.len(),
        forall|k: int|
            0 <= k < fields.len() ==> #[trigger] redacted_fields(fields, depth)[k] == (
                fields[k].0,
                redacted(fields[k].1, Some(fields[k].0), depth),
            ),
    decreases fields.len(),
{
    if fields.len() > 0 {
        lemma_redacted_fields_index(fields.drop_last(), depth);
        assert forall|k: int| 0 <= k < fields.len() implies #[trigger] redacted_fields(fields, depth)[k] == (
            fields[k].0,
            redacted(fields[k].1, Some(fields[k].0), depth),
        ) by {
            if k < fields.len() - 1 {
                assert(fields.drop_last()[k] == fields[k]);
            }
        }
    }
}

/// The summary of a tool call's arguments keeps the names of the first
/// fields in order and never shows the value of one whose name suggests a
/// secret.
pub proof fn law_sensitive_arguments_redacted(fields: Seq<(Seq<char>, Json)>, k: int)
    requires
        0 <= k < fields.len(),
        k < MAX_OBJECT_KEYS,
        sensitive_key(fields[k].0),
    ensures
        ({
            let s = redacted(Json::Object(fields), None, 0);
            s matches Json::Object(out) && out[k] == (fields[k].0, Json::Str("[redacted]"@))
        }),
{
    let kept = fields.take(min_len(fields.len(), MAX_OBJECT_KEYS as nat) as int);
    lemma_redacted_fields_index(kept, 1);
    let s = redacted(Json::Object(fields), None, 0);
    let out = s->Object_0;
    assert(out[k] == redacted_fields(kept, 1)[k]);
}

// ------------------------------------------------------------------
// Sorted names
// ------------------------------------------------------------------
/// Names in strictly increasing order hold no name twice.
pub proof fn law_sorted_names_distinct(s: Seq<Seq<char>>)
    requires
        strictly_sorted(s),
    ensures
        forall|i: int, j: int| 0 <= i < j < s.len() ==> s[i] != s[j],
{
    assert forall|i: int, j: int| 0 <= i < j < s.len() implies s[i] != s[j] by {
        if s[i] == s[j] {
            assert(text_lt(s[i], s[j]));
            crate::project::lemma_lt_irreflexive(s[i]);
        }
    }
}

// ------------------------------------------------------------------
// Memory
// ------------------------------------------------------------------
/// Short-term memory is always the last `SHORT_TERM_MEMORY_SIZE` turns
/// stored: remembering a turn in a memory that is not over-full gives the
/// last turns of the old ones followed by the new one, and never more than
/// the limit.
pub proof fn law_memory_keeps_last_turns(turns: Seq<TurnView>, t: TurnView)
    requires
        turns.len() <= SHORT_TERM_MEMORY_SIZE,
    ensures
        remembered(turns, t) == last_turns(turns.push(t), SHORT_TERM_MEMORY_SIZE as nat),
        remembered(turns, t).len() <= SHORT_TERM_MEMORY_SIZE,
        remembered(turns, t).last() == t,
{
    if turns.len() >= SHORT_TERM_MEMORY_SIZE {
        assert(turns.skip(1).push(t) =~= turns.push(t).skip(1));
    }
}

/// Merging long-term results keeps the short-term ones first, in order, and
/// holds every long-term result; nothing is added twice.
pub proof fn law_merge_keeps_all_results(found: Seq<Seq<char>>, long_term: Seq<Seq<char>>)
    ensures
        merged(found, long_term).len() >= found.len(),
        merged(found, long_term).take(found.len() as int) == found,
        forall|k: int| 0 <= k < long_term.len() ==> merged(found, long_term).contains(#[trigger] long_term[k]),
        found.no_duplicates() ==> merged(found, long_term).no_duplicates(),
    decreases long_term.len(),
{
    if long_term.len() > 0 {
        let rest = long_term.drop_last();
        law_merge_keeps_all_results(found, rest);
        let before = merged(found, rest);
        let x = long_term.last();
        if !before.contains(x) {
            assert(before.push(x).take(found.len() as int) =~= before.take(found.len() as int));
            assert(before.push(x)[before.len() as int] == x);
            assert forall|k: int| 0 <= k < long_term.len() implies before.push(x).contains(#[trigger] long_term[k]) by {
                if k < long_term.len() - 1 {
                    assert(rest[k] == long_term[k]);
                    assert(before.contains(rest[k]));
                    let j = choose|j: int| 0 <= j < before.len() && before[j] == rest[k];
                    assert(before.push(x)[j] == long_term[k]);
                }
            }
        } else {
            assert forall|k: int| 0 <= k < long_term.len() implies before.contains(#[trigger] long_term[k]) by {
                if k < long_term.len() - 1 {
                    assert(rest[k] == long_term[k]);
                }
            }
        }
    }
}

// ------------------------------------------------------------------
// Model keys
// ------------------------------------------------------------------
/// A message's model key never enters its request context (the one that is
/// kept): that context has no `apiKey` field, and two settings that differ
/// only in the key, both set or both unset, give the same context. Only the
/// transient context carries the key, and it is `null` without one.
pub proof fn law_request_context_omits_api_key(s1: SettingsView, s2: SettingsView)
    ensures
        json_get(json_get(request_context_json(s1), "frontendLlmSettings"@).unwrap(), "apiKey"@) is None,
        (s1.model == s2.model && s1.api_base_url == s2.api_base_url && s1.max_tokens == s2.max_tokens
            && s1.temperature == s2.temperature && has_api_key(s1) == has_api_key(s2)) ==> request_context_json(s1)
            == request_context_json(s2),
        !has_api_key(s1) ==> transient_context_json(s1) == Json::Null,
{
    reveal_strlit("apiKey");
    reveal_strlit("model");
    reveal_strlit("apiBaseUrl");
    reveal_strlit("maxTokens");
    reveal_strlit("temperature");
    reveal_strlit("hasApiKey");
    reveal_strlit("frontendLlmSettings");
    let inner = request_context_json(s1)->Object_0[0].1->Object_0;
    assert(json_get(request_context_json(s1), "frontendLlmSettings"@) == Some(Json::Object(inner)));
    assert(inner.len() == 5);
    assert(lookup(inner, "apiKey"@) is None) by {
        assert("apiKey"@.len() == 6);
        assert("model"@.len() == 5);
        assert("apiBaseUrl"@.len() == 10);
        assert("maxTokens"@.len() == 9);
        assert("temperature"@.len() == 11);
        assert("hasApiKey"@.len() == 9);
        assert("model"@ != "apiKey"@);
        assert("apiBaseUrl"@ != "apiKey"@);
        assert("maxTokens"@ != "apiKey"@);
        assert("temperature"@ != "apiKey"@);
        assert("hasApiKey"@ != "apiKey"@);
        let i1 = inner.drop_first();
        let i2 = i1.drop_first();
        let i3 = i2.drop_first();
        let i4 = i3.drop_first();
        let i5 = i4.drop_first();
        assert(i5.len() == 0);
        assert(lookup(i5, "apiKey"@) is None);
        assert(i4[0].0 == "hasApiKey"@);
        assert(lookup(i4, "apiKey"@) is None);
        assert(i3[0].0 == "temperature"@);
        assert(lookup(i3, "apiKey"@) is None);
        assert(i2[0].0 == "maxTokens"@);
        assert(lookup(i2, "apiKey"@) is None);
        assert(i1[0].0 == "apiBaseUrl"@);
        assert(lookup(i1, "apiKey"@) is None);
    }
}

// ------------------------------------------------------------------
// Plans written by a model
// ------------------------------------------------------------------
/// The agents a checked plan may name.
pub open spec fn plan_agent(a: Seq<char>) -> bool {
    a == "Planner"@ || a == "Tool"@ || a == "Executor"@ || a == "Memory"@ || a == "Echo"@
}

/// Dependencies that name, each once, the task ids of steps before step `k`
/// (counted from 0).
pub open spec fn earlier_deps(ds: Seq<Seq<char>>, task_id: Seq<char>, k: int) -> bool {
    &&& ds.no_duplicates()
    &&& forall|x: int| 0 <= x < ds.len() ==> is_earlier_step_id(#[trigger] ds[x], task_id, k)
}

/// The task id of the step at position `j` (from 0).
pub open spec fn step_id_at(task_id: Seq<char>, j: int) -> Seq<char> {
    step_id_of(task_id, (j + 1) as nat)
}

/// Whether `id` is the task id of a step before position `k`.
pub open spec fn is_earlier_step_id(id: Seq<char>, task_id: Seq<char>, k: int) -> bool {
    exists|j: int| 0 <= j < k && id == #[trigger] step_id_at(task_id, j)
}

/// A checked step at position `k`.
pub open spec fn checked_step(s: PlanStepView, task_id: Seq<char>, k: int) -> bool {
    &&& s.step_id == step_id_of(task_id, (k + 1) as nat)
    &&& s.order == k + 1
    &&& s.pending
    &&& plan_agent(s.agent)
    &&& s.instruction.len() > 0
    &&& earlier_deps(s.depends_on, task_id, k)
}

proof fn lemma_index_from_at_least(ids: Seq<Seq<char>>, x: Seq<char>, k: int)
    ensures
        index_from(ids, x, k) matches Some(j) ==> k <= j,
    decreases ids.len() - k,
{
    if 0 <= k < ids.len() && ids[k] != x {
        lemma_index_from_at_least(ids, x, k + 1);
    }
}

proof fn lemma_deps_from_earlier(
    deps: Seq<Seq<char>>,
    ids: Seq<Seq<char>>,
    task_id: Seq<char>,
    cur: int,
    orig: Seq<char>,
    d: int,
    acc: Seq<Seq<char>>,
)
    requires
        earlier_deps(acc, task_id, cur),
        deps_from(deps, ids, task_id, cur, orig, d, acc) is Ok,
    ensures
        earlier_deps(deps_from(deps, ids, task_id, cur, orig, d, acc)->Ok_0, task_id, cur),
    decreases deps.len() - d,
{
    if d < 0 || d >= deps.len() {
    } else {
        let dep = crate::text::trim(deps[d]);
        if dep.len() == 0 {
            lemma_deps_from_earlier(deps, ids, task_id, cur, orig, d + 1, acc);
        } else {
            let j = index_from(ids, dep, 0)->Some_0;
            lemma_index_from_at_least(ids, dep, 0);
            assert(0 <= j < cur);
            let iid = step_id_of(task_id, (j + 1) as nat);
            let next = if acc.contains(iid) { acc } else { acc.push(iid) };
            assert(earlier_deps(next, task_id, cur)) by {
                if !acc.contains(iid) {
                    assert forall|x: int| 0 <= x < next.len() implies is_earlier_step_id(#[trigger] next[x], task_id, cur) by {
                        if x < acc.len() {
                            assert(next[x] == acc[x]);
                        } else {
                            assert(next[x] == step_id_at(task_id, j));
                        }
                    }
                    assert forall|x: int, y: int| 0 <= x < y < next.len() implies next[x] != next[y] by {
                        if y == acc.len() as int {
                            assert(acc.contains(acc[x]));
                        }
                    }
                }
            }
            lemma_deps_from_earlier(deps, ids, task_id, cur, orig, d + 1, next);
        }
    }
}

proof fn lemma_agent_named_allowed(name: Seq<char>)
    requires
        agent_named(name) is Some,
    ensures
        plan_agent(agent_named(name)->Some_0),
{
}

proof fn lemma_plan_steps_checked(
    steps: Seq<LlmStepView>,
    ids: Seq<Seq<char>>,
    task_id: Seq<char>,
    i: int,
    acc: Seq<PlanStepView>,
)
    requires
        0 <= i <= steps.len(),
        steps.len() < u32::MAX,
        acc.len() == i,
        forall|k: int| 0 <= k < acc.len() ==> checked_step(#[trigger] acc[k], task_id, k),
        plan_steps_from(steps, ids, task_id, i, acc) is Ok,
    ensures
        plan_steps_from(steps, ids, task_id, i, acc)->Ok_0.len() == steps.len(),
        forall|k: int|
            0 <= k < steps.len() ==> checked_step(
                #[trigger] plan_steps_from(steps, ids, task_id, i, acc)->Ok_0[k],
                task_id,
                k,
            ),
    decreases steps.len() - i,
{
    if i < steps.len() {
        let s = steps[i];
        let a = agent_named(s.agent)->Some_0;
        lemma_agent_named_allowed(s.agent);
        let ds = deps_from(s.depends_on, ids, task_id, i, ids[i], 0, Seq::empty())->Ok_0;
        assert(earlier_deps(Seq::<Seq<char>>::empty(), task_id, i));
        lemma_deps_from_earlier(s.depends_on, ids, task_id, i, ids[i], 0, Seq::empty());
        let step = crate::plan::pending_step(
            step_id_of(task_id, (i + 1) as nat),
            (i + 1) as u32,
            a,
            crate::text::trim(s.instruction),
            ds,
        );
        let next = acc.push(step);
        assert(checked_step(step, task_id, i));
        assert forall|k: int| 0 <= k < next.len() implies checked_step(#[trigger] next[k], task_id, k) by {
            if k < acc.len() {
                assert(next[k] == acc[k]);
            }
        }
        lemma_plan_steps_checked(steps, ids, task_id, i + 1, next);
    }
}

/// A plan a model wrote, once checked, has between 1 and 12 steps; the
/// `k`-th (from 0) is pending, has the task id `{task}-{k+1}` and order
/// `k+1`, names one of the agents a plan may use, has a non-blank
/// instruction, and depends, each once, only on earlier steps.
pub proof fn law_llm_plan_is_valid(
    goal: Seq<char>,
    task_id: Seq<char>,
    env_goal: Option<Seq<char>>,
    steps: Seq<LlmStepView>,
)
    requires
        envelope_plan(goal, task_id, env_goal, steps) is Ok,
    ensures
        ({
            let ps = envelope_plan(goal, task_id, env_goal, steps)->Ok_0.1;
            &&& 1 <= ps.len() <= 12
            &&& forall|k: int| 0 <= k < ps.len() ==> checked_step(#[trigger] ps[k], task_id, k)
        }),
{
    let ids = original_ids(steps);
    lemma_plan_steps_checked(steps, ids, task_id, 0, Seq::empty());
}


// ------------------------------------------------------------------
// Patch verification outcome
// ------------------------------------------------------------------
proof fn lemma_success_count(runs: Seq<RunView>)
    ensures
        success_count(runs) <= runs.len(),
        success_count(runs) == runs.len() <==> forall|i: int| 0 <= i < runs.len() ==> #[trigger] runs[i].success,
    decreases runs.len(),
{
    if runs.len() > 0 {
        lemma_success_count(runs.drop_last());
        assert forall|i: int| 0 <= i < runs.len() - 1 implies #[trigger] runs.drop_last()[i] == runs[i] by {}
        if success_count(runs) == runs.len() {
            assert forall|i: int| 0 <= i < runs.len() implies #[trigger] runs[i].success by {
                if i < runs.len() - 1 {
                    assert(runs.drop_last()[i].success);
                }
            }
        }
    }
}

/// A patch verification passes only when at least one command ran, every
/// command ran, and every run succeeded: one command that could not run, or
/// one failed run, makes it fail; it is skipped only when nothing ran and
/// nothing failed to run.
pub proof fn law_verification_fails_on_any_error(runs: Seq<RunView>, n_errors: nat)
    ensures
        n_errors > 0 ==> verification_status_text(runs, n_errors) == "failed"@,
        (exists|i: int| 0 <= i < runs.len() && !(#[trigger] runs[i].success)) ==> verification_status_text(
            runs,
            n_errors,
        ) == "failed"@,
        verification_status_text(runs, n_errors) == "passed"@ <==> (n_errors == 0 && runs.len() > 0 && forall|
            i: int,
        | 0 <= i < runs.len() ==> #[trigger] runs[i].success),
        verification_status_text(runs, n_errors) == "skipped"@ <==> (n_errors == 0 && runs.len() == 0),
{
    reveal_strlit("failed");
    reveal_strlit("passed");
    reveal_strlit("skipped");
    assert("passed"@ != "failed"@) by {
        assert("passed"@[0] != "failed"@[0]);
    }
    assert("skipped"@ != "failed"@) by {
        assert("skipped"@.len() != "failed"@.len());
    }
    assert("skipped"@ != "passed"@) by {
        assert("skipped"@.len() != "passed"@.len());
    }
    lemma_success_count(runs);
}

// ------------------------------------------------------------------
// Rule-based plans
// ------------------------------------------------------------------
/// Every rule-based plan is a chain of one to three pending steps: step `k`
/// (from 0) has id `task_id-(k+1)` and order `k+1`, its instruction ends
/// with the goal, the first step depends on nothing, and each later step
/// depends exactly on the step before it.
pub proof fn law_goal_plan_is_a_chain(goal: Seq<char>, task_id: Seq<char>)
    ensures
        1 <= goal_plan_steps(goal, task_id).len() <= 3,
        goal_plan_steps(goal, task_id)[0].depends_on == Seq::<Seq<char>>::empty(),
        forall|k: int|
            0 <= k < goal_plan_steps(goal, task_id).len() ==> {
                let s = #[trigger] goal_plan_steps(goal, task_id)[k];
                &&& s.step_id == step_id_of(task_id, (k + 1) as nat)
                &&& s.order == k + 1
                &&& s.pending
                &&& s.instruction.len() >= goal.len()
                &&& s.instruction.subrange(s.instruction.len() - goal.len(), s.instruction.len() as int) == goal
            },
        forall|k: int|
            0 < k < goal_plan_steps(goal, task_id).len() ==> (#[trigger] goal_plan_steps(goal, task_id)[k]).depends_on
                == seq![step_id_of(task_id, k as nat)],
{
    let ps = goal_plan_steps(goal, task_id);
    assert forall|k: int| 0 <= k < ps.len() implies {
        let s = #[trigger] ps[k];
        &&& s.step_id == step_id_of(task_id, (k + 1) as nat)
        &&& s.order == k + 1
        &&& s.pending
        &&& s.instruction.len() >= goal.len()
        &&& s.instruction.subrange(s.instruction.len() - goal.len(), s.instruction.len() as int) == goal
    } by {
        let ins = ps[k].instruction;
        let head = ins.subrange(0, ins.len() - goal.len());
        assert(ins.subrange(ins.len() - goal.len(), ins.len() as int) =~= goal);
    }
}

// ------------------------------------------------------------------
// Paths inferred from an instruction
// ------------------------------------------------------------------
proof fn lemma_strip_end_by(s: Seq<char>, p: spec_fn(char) -> bool)
    ensures
        strip_end_by(s, p).len() <= s.len(),
        strip_end_by(s, p) == s.subrange(0, strip_end_by(s, p).len() as int),
        forall|k: int| strip_end_by(s, p).len() <= k < s.len() ==> p(#[trigger] s[k]),
        strip_end_by(s, p).len() > 0 ==> !p(strip_end_by(s, p).last()),
    decreases s.len(),
{
    if s.len() > 0 && p(s.last()) {
        lemma_strip_end_by(s.drop_last(), p);
        let r = strip_end_by(s, p);
        assert(r =~= s.subrange(0, r.len() as int));
        assert forall|k: int| r.len() <= k < s.len() implies p(#[trigger] s[k]) by {
            if k < s.len() - 1 {
                assert(s.drop_last()[k] == s[k]);
            }
        }
    } else {
        assert(s =~= s.subrange(0, s.len() as int));
    }
}

/// A path inferred from a token never keeps trailing dots after a name that
/// holds a dot (`src/main.rs.` gives `src/main.rs`): when the path ends with
/// a dot, no dot stands before its final run of dots.
pub proof fn law_path_token_drops_trailing_dots(token: Seq<char>)
    ensures
        path_token(token) matches Some(p) ==> p.len() > 0 && (p.last() == '.' ==> forall|i: int, j: int|
            0 <= i < j < p.len() && #[trigger] p[i] == '.' ==> #[trigger] p[j] == '.'),
{
    let a = crate::tooling::strip_by(token, |c: char| crate::tool_args::is_token_trim(c));
    let dot = |c: char| c == '.';
    let no_dots = strip_end_by(a, dot);
    lemma_strip_end_by(a, dot);
    if let Some(p) = path_token(token) {
        if p.last() == '.' {
            assert(p == a);
            assert(!crate::text::has_char(no_dots, '.'));
            assert forall|i: int, j: int| 0 <= i < j < p.len() && #[trigger] p[i] == '.' implies #[trigger] p[j]
                == '.' by {
                if i < no_dots.len() {
                    assert(no_dots[i] == a[i]);
                }
            }
        }
    }
}

} // verus!
