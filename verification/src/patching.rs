//! Building, approving and applying patch proposals.
//!
//! Resolving a path against the workspace and reading or writing a file is
//! the caller's part: it hands in, for each file, the resolved path and the
//! current contents (or the error it met), and writes the files this module
//! says to write.
use vstd::prelude::*;
use crate::approval::{blank_message, clean_required, name_or};
use crate::clock::{new_uuid, now_millis};
use crate::command::{has_parent_part, join_parts, join_slash, path_parts, split_path};
use crate::diff::{build_unified_diff, unified_diff};
use crate::error::AgentError;
use crate::patch::{
    ApplyView, CreatePatchProposalRequest, FileChangeView, PatchApplyResult, PatchChangeType, PatchFileChange,
    PatchFileInput, PatchProposal, PatchProposalStatus, ProposalView, change_views,
};
use crate::task::{opt_str, strs};
use crate::text::{
    chars_of, clean_opt, clean_optional, clean_str, concat2, concat3, own, push_str, str_contains, str_ends_with,
    str_eq, to_lowercase, trim, trim_str, unicode_lowercase, ends_with, contains,
};
use crate::tooling::slashes;
use crate::workspace::{blocked_name, skipped_name};

verus! {

broadcast use vstd::std_specs::vec::group_vec_axioms;

/// Most files one proposal may change.
pub const MAX_FILES_PER_PROPOSAL: usize = 10;

/// Largest old or new file content, in UTF-8 bytes.
pub const MAX_FILE_CONTENT_BYTES: usize = 131072;

/// Largest combined diff of a proposal, in UTF-8 bytes.
pub const MAX_TOTAL_DIFF_BYTES: usize = 524288;

// ------------------------------------------------------------------
// Sizes in bytes
// ------------------------------------------------------------------
/// The number of bytes UTF-8 uses for `c`.
pub open spec fn char_width(c: char) -> nat {
    if (c as u32) < 0x80 {
        1
    } else if (c as u32) < 0x800 {
        2
    } else if (c as u32) < 0x10000 {
        3
    } else {
        4
    }
}

/// The length of `s` in UTF-8 bytes (what `str::len` returns).
pub open spec fn utf8_len(s: Seq<char>) -> nat
    decreases s.len(),
{
    if s.len() == 0 {
        0
    } else {
        utf8_len(s.drop_last()) + char_width(s.last())
    }
}

proof fn lemma_utf8_take_step(s: Seq<char>, i: int)
    requires
        0 <= i < s.len(),
    ensures
        utf8_len(s.take(i + 1)) == utf8_len(s.take(i)) + char_width(s[i]),
{
    assert(s.take(i + 1).drop_last() =~= s.take(i));
}

proof fn lemma_utf8_take_mono(s: Seq<char>, i: int, j: int)
    requires
        0 <= i <= j <= s.len(),
    ensures
        utf8_len(s.take(i)) <= utf8_len(s.take(j)),
    decreases j - i,
{
    if i < j {
        lemma_utf8_take_mono(s, i, j - 1);
        lemma_utf8_take_step(s, j - 1);
    }
}

fn width_of(c: char) -> (w: usize)
    ensures
        w == char_width(c),
{
    let u = c as u32;
    if u < 0x80 {
        1
    } else if u < 0x800 {
        2
    } else if u < 0x10000 {
        3
    } else {
        4
    }
}

/// Whether `s` is longer than `limit` UTF-8 bytes.
pub fn byte_len_exceeds(s: &str, limit: usize) -> (b: bool)
    requires
        limit <= usize::MAX - 4,
    ensures
        b == (utf8_len(s@) > limit),
{
    let cs = chars_of(s);
    let mut total: usize = 0;
    let mut i: usize = 0;
    proof {
        assert(cs@.take(0) =~= Seq::<char>::empty());
    }
    while i < cs.len()
        invariant
            cs@ == s@,
            i <= cs@.len(),
            total == utf8_len(cs@.take(i as int)),
            total <= limit,
            limit <= usize::MAX - 4,
        decreases cs.len() - i,
    {
        proof {
            lemma_utf8_take_step(cs@, i as int);
        }
        total = total + width_of(cs[i]);
        i += 1;
        if total > limit {
            proof {
                lemma_utf8_take_mono(cs@, i as int, cs@.len() as int);
                assert(cs@.take(cs@.len() as int) =~= cs@);
            }
            return true;
        }
    }
    assert(cs@.take(cs@.len() as int) =~= cs@);
    false
}

/// The message when a content is too large.
pub open spec fn too_large_message(label: Seq<char>) -> Seq<char> {
    label + "超过大小限制 131072 bytes"@
}

/// Refuses a file content larger than `MAX_FILE_CONTENT_BYTES`, naming it
/// by `label`.
pub fn validate_content_size(label: &str, value: &str) -> (r: Result<(), AgentError>)
    ensures
        r is Err <==> utf8_len(value@) > MAX_FILE_CONTENT_BYTES,
        r matches Err(e) ==> crate::command::error_says(e, too_large_message(label@)),
{
    if byte_len_exceeds(value, MAX_FILE_CONTENT_BYTES) {
        return Err(AgentError::MessageFormat(concat2(label, "超过大小限制 131072 bytes")));
    }
    Ok(())
}

// ------------------------------------------------------------------
// Paths
// ------------------------------------------------------------------
/// The message when a patch path is blank.
pub const EMPTY_PATH_MESSAGE: &'static str = "补丁文件路径不能为空";

/// The message when a patch path leaves the workspace.
pub open spec fn outside_message(path: Seq<char>) -> Seq<char> {
    "路径 ["@ + path + "] 不允许访问 workspace 外部"@
}

/// A patch path relative to the workspace: trimmed, backslashes read as
/// slashes, not absolute, with no `..` part and at least one name, written
/// with single slashes and without `.` parts. The error is its message.
pub open spec fn rel_patch_path(path: Seq<char>) -> Result<Seq<char>, Seq<char>> {
    let t = trim(path);
    let n = slashes(t);
    if t.len() == 0 {
        Err(EMPTY_PATH_MESSAGE@)
    } else if n[0] == '/' || has_parent_part(path_parts(n)) {
        Err(outside_message(path))
    } else if path_parts(n).len() == 0 {
        Err(EMPTY_PATH_MESSAGE@)
    } else {
        Ok(join_slash(path_parts(n)))
    }
}

fn to_slashes(s: &str) -> (r: String)
    ensures
        r@ == slashes(s@),
{
    let cs = chars_of(s);
    let mut r = String::new();
    let mut i: usize = 0;
    while i < cs.len()
        invariant
            i <= cs@.len(),
            cs@ == s@,
            r@ == slashes(cs@).take(i as int),
        decreases cs.len() - i,
    {
        let c = if cs[i] == '\\' {
            '/'
        } else {
            cs[i]
        };
        r.push(c);
        assert(r@ =~= slashes(cs@).take(i + 1));
        i += 1;
    }
    assert(slashes(cs@).take(cs@.len() as int) =~= slashes(cs@));
    r
}

/// A patch path relative to the workspace (see `rel_patch_path`).
pub fn normalize_rel_path(path: &str) -> (r: Result<String, AgentError>)
    ensures
        match rel_patch_path(path@) {
            Ok(p) => r matches Ok(s) && s@ == p,
            Err(m) => r matches Err(e) && crate::command::error_says(e, m),
        },
{
    let t = trim_str(path);
    if t.as_str().is_empty() {
        return Err(AgentError::MessageFormat(own(EMPTY_PATH_MESSAGE)));
    }
    let n = to_slashes(t.as_str());
    let ncs = chars_of(n.as_str());
    let parts = split_path(n.as_str());
    let mut has_parent = false;
    let mut i: usize = 0;
    while i < parts.len()
        invariant
            i <= parts@.len(),
            has_parent == exists|j: int| 0 <= j < i && strs(parts@)[j] == ".."@,
        decreases parts.len() - i,
    {
        assert(strs(parts@)[i as int] == parts@[i as int]@);
        if str_eq(parts[i].as_str(), "..") {
            has_parent = true;
        }
        i += 1;
    }
    if ncs[0] == '/' || has_parent {
        return Err(AgentError::MessageFormat(concat3("路径 [", path, "] 不允许访问 workspace 外部")));
    }
    if parts.len() == 0 {
        return Err(AgentError::MessageFormat(own(EMPTY_PATH_MESSAGE)));
    }
    Ok(join_parts(&parts))
}

/// Whether a resolved file may not be patched: some component of its path,
/// lower-cased, is a build or tool directory, or its lower-cased name looks
/// like it holds secrets.
pub fn is_blocked_path(components: &Vec<String>, file_name: Option<&str>) -> (b: bool)
    ensures
        b == ((exists|i: int| 0 <= i < components@.len() && skipped_name(unicode_lowercase(#[trigger] components@[i]@)))
            || match file_name {
            Some(n) => blocked_name(unicode_lowercase(n@)),
            None => false,
        }),
{
    let mut i: usize = 0;
    while i < components.len()
        invariant
            i <= components@.len(),
            forall|j: int| 0 <= j < i ==> !skipped_name(unicode_lowercase(#[trigger] components@[j]@)),
        decreases components.len() - i,
    {
        let lower = to_lowercase(components[i].as_str());
        let n = lower.as_str();
        if str_eq(n, ".git") || str_eq(n, "node_modules") || str_eq(n, "target") || str_eq(n, "dist")
            || str_eq(n, "build") || str_eq(n, ".next") || str_eq(n, ".tauri") || str_eq(n, ".vite") {
            assert(skipped_name(unicode_lowercase(components@[i as int]@)));
            return true;
        }
        i += 1;
    }
    crate::workspace::is_blocked_file(file_name)
}

/// The name recorded for whoever applied a patch: the trimmed value, if it
/// is not blank.
pub fn clean_applied_by(value: Option<&str>) -> (r: Option<String>)
    ensures
        opt_str(r) == match value {
            Some(v) => clean_opt(v@),
            None => None,
        },
{
    match value {
        Some(v) => clean_str(v),
        None => None,
    }
}

// ------------------------------------------------------------------
// Proposal state
// ------------------------------------------------------------------
impl PatchProposal {
    /// Links the proposal to its approval request; it now waits for that
    /// approval. The update time is the current time.
    pub fn attach_approval(&mut self, approval_id: String)
        ensures
            final(self)@ == (ProposalView {
                approval_id: Some(approval_id@),
                status: PatchProposalStatus::PendingApproval,
                updated_at: final(self)@.updated_at,
                ..old(self)@
            }),
    {
        self.approval_id = Some(approval_id);
        self.status = PatchProposalStatus::PendingApproval;
        self.updated_at = now_millis();
    }

    /// Sets the status; the update time is the current time.
    pub fn set_status(&mut self, status: PatchProposalStatus)
        ensures
            final(self)@ == (ProposalView { status, updated_at: final(self)@.updated_at, ..old(self)@ }),
    {
        self.status = status;
        self.updated_at = now_millis();
    }

    /// Records that the proposal was applied at `applied_at` by `applied_by`.
    pub fn mark_applied(&mut self, applied_at: i64, applied_by: Option<String>)
        ensures
            final(self)@ == (ProposalView {
                status: PatchProposalStatus::Applied,
                applied_at: Some(applied_at),
                applied_by: opt_str(applied_by),
                updated_at: applied_at,
                ..old(self)@
            }),
    {
        self.status = PatchProposalStatus::Applied;
        self.applied_at = Some(applied_at);
        self.applied_by = applied_by;
        self.updated_at = applied_at;
    }
}

// ------------------------------------------------------------------
// Building a proposal
// ------------------------------------------------------------------
/// A requested file as found in the workspace: its path relative to the
/// workspace and its current contents, or the error met reading them.
#[derive(Debug)]
pub struct ResolvedFile {
    pub path: String,
    pub current: Result<String, AgentError>,
}

/// An error as the contracts describe it: one handed in by the caller, or
/// a malformed-request error with this message.
pub enum ErrorView {
    Passed(AgentError),
    Says(Seq<char>),
}

/// Whether `e` is the error `v` describes.
pub open spec fn error_is(e: AgentError, v: ErrorView) -> bool {
    match v {
        ErrorView::Passed(x) => e == x,
        ErrorView::Says(m) => crate::command::error_says(e, m),
    }
}

/// The change a requested file makes, given how it was resolved: a failed
/// resolution fails; then contents over the size limit, an unchanged file,
/// an unreadable file and a file whose current contents differ from the
/// old contents are refused, in this order.
pub open spec fn file_change_of(input: PatchFileInput, resolved: Result<ResolvedFile, AgentError>) -> Result<FileChangeView, ErrorView> {
    match resolved {
        Err(e) => Err(ErrorView::Passed(e)),
        Ok(rf) => {
            let path = rf.path@;
            if utf8_len(input.old_content@) > MAX_FILE_CONTENT_BYTES {
                Err(ErrorView::Says(too_large_message("原始内容"@)))
            } else if utf8_len(input.new_content@) > MAX_FILE_CONTENT_BYTES {
                Err(ErrorView::Says(too_large_message("目标内容"@)))
            } else if input.old_content@ == input.new_content@ {
                Err(ErrorView::Says("文件 ["@ + path + "] 没有内容变化"@))
            } else {
                match rf.current {
                    Err(e) => Err(ErrorView::Passed(e)),
                    Ok(c) => if c@ != input.old_content@ {
                        Err(ErrorView::Says("文件 ["@ + path + "] 当前内容与提案基线不一致，请刷新后重新生成 diff"@))
                    } else {
                        Ok(
                            FileChangeView {
                                path,
                                change_type: PatchChangeType::Modify,
                                old_content: input.old_content@,
                                new_content: input.new_content@,
                                diff: unified_diff(path, input.old_content@, input.new_content@),
                            },
                        )
                    },
                }
            }
        },
    }
}

/// The change a requested file makes (see `file_change_of`).
pub fn build_file_change(input: PatchFileInput, resolved: Result<ResolvedFile, AgentError>) -> (r: Result<PatchFileChange, AgentError>)
    ensures
        match file_change_of(input, resolved) {
            Ok(v) => r matches Ok(c) && c@ == v,
            Err(v) => r matches Err(e) && error_is(e, v),
        },
{
    let rf = match resolved {
        Err(e) => return Err(e),
        Ok(rf) => rf,
    };
    validate_content_size("原始内容", input.old_content.as_str())?;
    validate_content_size("目标内容", input.new_content.as_str())?;
    if str_eq(input.old_content.as_str(), input.new_content.as_str()) {
        return Err(AgentError::MessageFormat(concat3("文件 [", rf.path.as_str(), "] 没有内容变化")));
    }
    let current = match rf.current {
        Err(e) => return Err(e),
        Ok(c) => c,
    };
    if !str_eq(current.as_str(), input.old_content.as_str()) {
        return Err(
            AgentError::MessageFormat(
                concat3("文件 [", rf.path.as_str(), "] 当前内容与提案基线不一致，请刷新后重新生成 diff"),
            ),
        );
    }
    let diff = build_unified_diff(rf.path.as_str(), input.old_content.as_str(), input.new_content.as_str());
    Ok(
        PatchFileChange {
            path: rf.path,
            change_type: PatchChangeType::Modify,
            old_content: input.old_content,
            new_content: input.new_content,
            diff,
        },
    )
}

/// The changes of the files from position `k` on after `acc`, or the first
/// error.
pub open spec fn file_changes_from(
    inputs: Seq<PatchFileInput>,
    resolved: Seq<Result<ResolvedFile, AgentError>>,
    k: int,
    acc: Seq<FileChangeView>,
) -> Result<Seq<FileChangeView>, ErrorView>
    decreases inputs.len() - k,
{
    if k < 0 || k >= inputs.len() {
        Ok(acc)
    } else {
        match file_change_of(inputs[k], resolved[k]) {
            Err(v) => Err(v),
            Ok(c) => file_changes_from(inputs, resolved, k + 1, acc.push(c)),
        }
    }
}

/// The parts joined by line feeds.
pub open spec fn join_lines(parts: Seq<Seq<char>>) -> Seq<char>
    decreases parts.len(),
{
    if parts.len() == 0 {
        Seq::empty()
    } else if parts.len() == 1 {
        parts[0]
    } else {
        join_lines(parts.drop_last()) + "\n"@ + parts.last()
    }
}

/// The diffs of some file changes.
pub open spec fn diffs_of(files: Seq<FileChangeView>) -> Seq<Seq<char>> {
    files.map_values(|f: FileChangeView| f.diff)
}

/// What building a proposal gives: the trimmed summary, the file changes
/// and the combined diff; or the error. A blank summary, no files and more
/// than `MAX_FILES_PER_PROPOSAL` files are refused first, then the first
/// failing file, then a combined diff over `MAX_TOTAL_DIFF_BYTES`.
pub open spec fn proposal_outcome(
    input: CreatePatchProposalRequest,
    resolved: Seq<Result<ResolvedFile, AgentError>>,
) -> Result<(Seq<char>, Seq<FileChangeView>, Seq<char>), ErrorView> {
    match clean_opt(input.summary@) {
        None => Err(ErrorView::Says(blank_message("补丁摘要"@))),
        Some(summary) => if input.files@.len() == 0 {
            Err(ErrorView::Says("补丁提案至少需要包含一个文件变更"@))
        } else if input.files@.len() > MAX_FILES_PER_PROPOSAL {
            Err(ErrorView::Says("单个补丁提案最多支持 10 个文件"@))
        } else {
            match file_changes_from(input.files@, resolved, 0, Seq::empty()) {
                Err(v) => Err(v),
                Ok(files) => {
                    let diff = join_lines(diffs_of(files));
                    if utf8_len(diff) > MAX_TOTAL_DIFF_BYTES {
                        Err(ErrorView::Says("补丁 diff 超过大小限制 524288 bytes"@))
                    } else {
                        Ok((summary, files, diff))
                    }
                },
            }
        },
    }
}

proof fn lemma_join_lines_push(parts: Seq<Seq<char>>, p: Seq<char>)
    ensures
        join_lines(parts.push(p)) == if parts.len() == 0 {
            p
        } else {
            join_lines(parts) + "\n"@ + p
        },
{
    assert(parts.push(p).drop_last() =~= parts);
}

fn join_diffs(files: &Vec<PatchFileChange>) -> (r: String)
    ensures
        r@ == join_lines(diffs_of(change_views(files@))),
{
    let ghost ds = diffs_of(change_views(files@));
    let mut r = String::new();
    let mut i: usize = 0;
    while i < files.len()
        invariant
            i <= files@.len(),
            ds == diffs_of(change_views(files@)),
            ds.len() == files@.len(),
            r@ == join_lines(ds.take(i as int)),
        decreases files.len() - i,
    {
        proof {
            assert(ds.take(i + 1) =~= ds.take(i as int).push(ds[i as int]));
            lemma_join_lines_push(ds.take(i as int), ds[i as int]);
            assert(ds[i as int] == files@[i as int].diff@);
        }
        if i > 0 {
            push_str(&mut r, "\n");
        }
        push_str(&mut r, files[i].diff.as_str());
        proof {
            if i == 0 {
                assert(r@ =~= ds[0]);
            }
        }
        i += 1;
    }
    assert(ds.take(files@.len() as int) =~= ds);
    r
}

/// Builds a draft proposal from a request, given how each requested file
/// was resolved (`resolved[i]` for `input.files[i]`). See
/// `proposal_outcome`; the proposal gets a fresh id, the cleaned task and
/// step ids, `system` as requester when none is given, and the current time.
#[verifier::loop_isolation(false)]
pub fn build_patch_proposal(input: CreatePatchProposalRequest, resolved: Vec<Result<ResolvedFile, AgentError>>) -> (r: Result<PatchProposal, AgentError>)
    requires
        resolved@.len() == input.files@.len(),
    ensures
        match proposal_outcome(input, resolved@) {
            Err(v) => r matches Err(e) && error_is(e, v),
            Ok((summary, files, diff)) => r matches Ok(p) && p@.summary == summary && p@.files == files
                && p@.unified_diff == diff && p@.status == PatchProposalStatus::Draft && p@.approval_id is None
                && p@.task_id == crate::text::clean_opt_string(input.task_id) && p@.step_id
                == crate::text::clean_opt_string(input.step_id) && p@.requested_by == name_or(
                opt_str(input.requested_by),
                "system"@,
            ) && p@.created_at == p@.updated_at && p@.applied_at is None && p@.applied_by is None
                && p@.reverted_at is None && p@.reverted_by is None,
        },
{
    let summary = clean_required("补丁摘要", input.summary.as_str())?;
    if input.files.len() == 0 {
        return Err(AgentError::MessageFormat(own("补丁提案至少需要包含一个文件变更")));
    }
    if input.files.len() > MAX_FILES_PER_PROPOSAL {
        return Err(AgentError::MessageFormat(own("单个补丁提案最多支持 10 个文件")));
    }
    let ghost inputs = input.files@;
    let ghost res0 = resolved@;
    let ghost whole = input;
    assert(proposal_outcome(whole, res0) == match file_changes_from(inputs, res0, 0, Seq::empty()) {
        Err(v) => Err(v),
        Ok(files) => {
            let diff = join_lines(diffs_of(files));
            if utf8_len(diff) > MAX_TOTAL_DIFF_BYTES {
                Err(ErrorView::Says("补丁 diff 超过大小限制 524288 bytes"@))
            } else {
                Ok((summary@, files, diff))
            }
        },
    });
    let CreatePatchProposalRequest { summary: _, files: file_inputs, task_id, step_id, requested_by } = input;
    let mut file_inputs = file_inputs;
    let mut resolved = resolved;
    let mut files: Vec<PatchFileChange> = Vec::new();
    let mut k: usize = 0;
    let n = file_inputs.len();
    proof {
        assert(file_inputs@.skip(0) =~= inputs);
        assert(resolved@.skip(0) =~= res0);
        assert(change_views(files@) =~= Seq::<FileChangeView>::empty());
    }
    while k < n
        invariant
            n == inputs.len(),
            res0.len() == n,
            k <= n,
            file_inputs@ == inputs.skip(k as int),
            resolved@ == res0.skip(k as int),
            file_changes_from(inputs, res0, 0, Seq::empty()) == file_changes_from(
                inputs,
                res0,
                k as int,
                change_views(files@),
            ),
        decreases n - k,
    {
        let fi = file_inputs.remove(0);
        let rs = resolved.remove(0);
        proof {
            assert(fi == inputs[k as int]);
            assert(rs == res0[k as int]);
            assert(file_inputs@ =~= inputs.skip(k + 1));
            assert(resolved@ =~= res0.skip(k + 1));
        }
        let ghost before = change_views(files@);
        let c = match build_file_change(fi, rs) {
            Ok(c) => c,
            Err(e) => {
                proof {
                    let v = file_change_of(inputs[k as int], res0[k as int]).get_Err_0();
                    assert(file_changes_from(inputs, res0, k as int, before) == Err::<Seq<FileChangeView>, ErrorView>(v));
                    assert(error_is(e, v));
                }
                return Err(e);
            },
        };
        files.push(c);
        assert(change_views(files@) =~= before.push(c@));
        k += 1;
    }
    let unified_diff = join_diffs(&files);
    if byte_len_exceeds(unified_diff.as_str(), MAX_TOTAL_DIFF_BYTES) {
        return Err(AgentError::MessageFormat(own("补丁 diff 超过大小限制 524288 bytes")));
    }
    let requested_by = match requested_by {
        Some(v) => {
            let t = trim_str(v.as_str());
            if t.as_str().is_empty() {
                own("system")
            } else {
                t
            }
        },
        None => own("system"),
    };
    let now = now_millis();
    Ok(
        PatchProposal {
            id: new_uuid(),
            task_id: clean_optional(task_id.as_ref()),
            step_id: clean_optional(step_id.as_ref()),
            approval_id: None,
            summary,
            status: PatchProposalStatus::Draft,
            files,
            unified_diff,
            requested_by,
            created_at: now,
            updated_at: now,
            applied_at: None,
            applied_by: None,
            reverted_at: None,
            reverted_by: None,
        },
    )
}

// ------------------------------------------------------------------
// Applying a proposal
// ------------------------------------------------------------------
/// How a proposal status is written in messages.
pub open spec fn status_debug(s: PatchProposalStatus) -> Seq<char> {
    match s {
        PatchProposalStatus::Draft => "Draft"@,
        PatchProposalStatus::PendingApproval => "PendingApproval"@,
        PatchProposalStatus::Approved => "Approved"@,
        PatchProposalStatus::Rejected => "Rejected"@,
        PatchProposalStatus::Applied => "Applied"@,
        PatchProposalStatus::Reverted => "Reverted"@,
    }
}

fn status_debug_text(s: PatchProposalStatus) -> (r: &'static str)
    ensures
        r@ == status_debug(s),
{
    match s {
        PatchProposalStatus::Draft => "Draft",
        PatchProposalStatus::PendingApproval => "PendingApproval",
        PatchProposalStatus::Approved => "Approved",
        PatchProposalStatus::Rejected => "Rejected",
        PatchProposalStatus::Applied => "Applied",
        PatchProposalStatus::Reverted => "Reverted",
    }
}

/// A file as found when a patch is applied: its resolved path and current
/// contents.
#[derive(Debug)]
pub struct CurrentFile {
    pub path: String,
    pub content: String,
}

/// What to do to apply a proposal: nothing, because it was applied before
/// (with the result to report), or write these new contents to these paths.
#[derive(Debug)]
pub enum ApplyStep {
    AlreadyApplied(PatchApplyResult),
    Write(Vec<(String, String)>),
}

/// The writes applying the files from position `k` on needs, after `acc`,
/// or the first error: a file that could not be read, or whose contents no
/// longer match the proposal's old contents.
pub open spec fn writes_from(
    files: Seq<FileChangeView>,
    current: Seq<Result<CurrentFile, AgentError>>,
    k: int,
    acc: Seq<(Seq<char>, Seq<char>)>,
) -> Result<Seq<(Seq<char>, Seq<char>)>, ErrorView>
    decreases files.len() - k,
{
    if k < 0 || k >= files.len() {
        Ok(acc)
    } else {
        match current[k] {
            Err(e) => Err(ErrorView::Passed(e)),
            Ok(cf) => if cf.content@ != files[k].old_content {
                Err(ErrorView::Says("文件 ["@ + cf.path@ + "] 当前内容与补丁基线不一致，已拒绝应用"@))
            } else {
                writes_from(files, current, k + 1, acc.push((cf.path@, files[k].new_content)))
            },
        }
    }
}

/// The model of a list of writes.
pub open spec fn write_views(w: Seq<(String, String)>) -> Seq<(Seq<char>, Seq<char>)> {
    w.map_values(|p: (String, String)| (p.0@, p.1@))
}

/// The paths of a proposal's files.
pub open spec fn file_paths(files: Seq<FileChangeView>) -> Seq<Seq<char>> {
    files.map_values(|f: FileChangeView| f.path)
}

/// Decides how to apply a proposal, given the current state of each of its
/// files (`current[i]` for `files[i]`). An applied proposal is reported as
/// already applied, with its paths and its application time (set to the
/// current time if it had none). A proposal that is not approved is
/// refused. Otherwise every file must still hold the proposal's old
/// contents; then the new contents are to be written.
#[verifier::loop_isolation(false)]
pub fn plan_patch_apply(proposal: &mut PatchProposal, current: Vec<Result<CurrentFile, AgentError>>) -> (r: Result<ApplyStep, AgentError>)
    requires
        current@.len() == old(proposal).files@.len(),
    ensures
        old(proposal)@.status == PatchProposalStatus::Applied ==> (r matches Ok(ApplyStep::AlreadyApplied(a))
            && a@.patch_id == old(proposal)@.id && a@.status == PatchProposalStatus::Applied && a@.files
            == file_paths(old(proposal)@.files) && a@.already_applied && a@.auto_rollback is None
            && final(proposal)@.applied_at == Some(a@.applied_at) && (old(proposal)@.applied_at matches Some(t)
            ==> a@.applied_at == t) && final(proposal)@ == (ProposalView {
            applied_at: final(proposal)@.applied_at,
            ..old(proposal)@
        })),
        old(proposal)@.status != PatchProposalStatus::Applied ==> final(proposal)@ == old(proposal)@,
        (old(proposal)@.status != PatchProposalStatus::Applied && old(proposal)@.status
            != PatchProposalStatus::Approved) ==> (r matches Err(e) && crate::command::error_says(
            e,
            "补丁提案 ["@ + old(proposal)@.id + "] 当前状态为 "@ + status_debug(old(proposal)@.status)
                + "，不能应用"@,
        )),
        old(proposal)@.status == PatchProposalStatus::Approved ==> match writes_from(
            old(proposal)@.files,
            current@,
            0,
            Seq::empty(),
        ) {
            Err(v) => r matches Err(e) && error_is(e, v),
            Ok(w) => r matches Ok(ApplyStep::Write(ws)) && write_views(ws@) == w,
        },
{
    if proposal.status == PatchProposalStatus::Applied {
        let applied_at = match proposal.applied_at {
            Some(t) => t,
            None => {
                let now = now_millis();
                proposal.applied_at = Some(now);
                now
            },
        };
        let mut paths: Vec<String> = Vec::new();
        let mut i: usize = 0;
        while i < proposal.files.len()
            invariant
                i <= proposal.files@.len(),
                strs(paths@) == file_paths(change_views(proposal.files@)).take(i as int),
            decreases proposal.files.len() - i,
        {
            let ghost before = strs(paths@);
            paths.push(own(proposal.files[i].path.as_str()));
            proof {
                let fp = file_paths(change_views(proposal.files@));
                assert(change_views(proposal.files@)[i as int] == proposal.files@[i as int]@);
                assert(fp[i as int] == proposal.files@[i as int].path@);
                assert(strs(paths@) =~= before.push(proposal.files@[i as int].path@));
                assert(fp.take(i + 1) =~= fp.take(i as int).push(fp[i as int]));
            }
            i += 1;
        }
        assert(file_paths(change_views(proposal.files@)).take(proposal.files@.len() as int) =~= file_paths(
            change_views(proposal.files@),
        ));
        return Ok(
            ApplyStep::AlreadyApplied(
                PatchApplyResult {
                    patch_id: own(proposal.id.as_str()),
                    status: PatchProposalStatus::Applied,
                    files: paths,
                    applied_at,
                    already_applied: true,
                    auto_rollback: None,
                },
            ),
        );
    }
    if proposal.status != PatchProposalStatus::Approved {
        let mut m = own("补丁提案 [");
        push_str(&mut m, proposal.id.as_str());
        push_str(&mut m, "] 当前状态为 ");
        push_str(&mut m, status_debug_text(proposal.status));
        push_str(&mut m, "，不能应用");
        return Err(AgentError::MessageFormat(m));
    }
    let ghost fs = change_views(proposal.files@);
    let ghost cur0 = current@;
    let n = current.len();
    let mut current = current;
    let mut writes: Vec<(String, String)> = Vec::new();
    let mut k: usize = 0;
    proof {
        assert(cur0.skip(0) =~= cur0);
        assert(write_views(writes@) =~= Seq::<(Seq<char>, Seq<char>)>::empty());
    }
    while k < n
        invariant
            n == cur0.len(),
            fs.len() == n,
            fs == change_views(proposal.files@),
            *proposal == *old(proposal),
            proposal.status == PatchProposalStatus::Approved,
            k <= n,
            current@ == cur0.skip(k as int),
            writes_from(fs, cur0, 0, Seq::empty()) == writes_from(fs, cur0, k as int, write_views(writes@)),
        decreases n - k,
    {
        let c = current.remove(0);
        proof {
            assert(c == cur0[k as int]);
            assert(current@ =~= cur0.skip(k + 1));
        }
        let cf = match c {
            Err(e) => {
                assert(writes_from(fs, cur0, k as int, write_views(writes@)) == Err::<Seq<(Seq<char>, Seq<char>)>, ErrorView>(ErrorView::Passed(e)));
                assert(fs == old(proposal)@.files);
                return Err(e);
            },
            Ok(cf) => cf,
        };
        let f = &proposal.files[k];
        assert(fs[k as int] == f@);
        if !str_eq(cf.content.as_str(), f.old_content.as_str()) {
            return Err(AgentError::MessageFormat(concat3("文件 [", cf.path.as_str(), "] 当前内容与补丁基线不一致，已拒绝应用")));
        }
        let ghost before = write_views(writes@);
        let nc = own(f.new_content.as_str());
        writes.push((cf.path, nc));
        assert(write_views(writes@) =~= before.push((cf.path@, fs[k as int].new_content)));
        k += 1;
    }
    Ok(ApplyStep::Write(writes))
}

/// Records a proposal as applied once its files were written: applied now
/// by the cleaned `applied_by`, reporting the written paths.
pub fn finish_patch_apply(proposal: &mut PatchProposal, applied_by: Option<&str>, paths: Vec<String>) -> (r: PatchApplyResult)
    ensures
        final(proposal)@ == (ProposalView {
            status: PatchProposalStatus::Applied,
            applied_at: Some(r@.applied_at),
            applied_by: match applied_by {
                Some(v) => clean_opt(v@),
                None => None,
            },
            updated_at: r@.applied_at,
            ..old(proposal)@
        }),
        r@.patch_id == old(proposal)@.id,
        r@.status == PatchProposalStatus::Applied,
        r@.files == strs(paths@),
        !r@.already_applied,
        r@.auto_rollback is None,
{
    let applied_at = now_millis();
    proposal.mark_applied(applied_at, clean_applied_by(applied_by));
    PatchApplyResult {
        patch_id: own(proposal.id.as_str()),
        status: PatchProposalStatus::Applied,
        files: paths,
        applied_at,
        already_applied: false,
        auto_rollback: None,
    }
}

} // verus!
