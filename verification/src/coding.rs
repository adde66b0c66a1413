//! What the coder agent drafts: the files a change should touch, the
//! changes it suggests and the patch proposal draft it answers with.
use vstd::prelude::*;
use crate::agents::{clipped, summarize_text};
use crate::json::{Json, JsonValue, jv, jv_fields, jv_items, json_get, lemma_jv_fields_len, lemma_jv_items_len, push_field, object, jstr, jstr_array};
use crate::review::context_step_id;
use crate::text::{collapse_ws, own, str_eq, trim};

verus! {

broadcast use vstd::std_specs::vec::group_vec_axioms;

/// The most files a draft targets.
pub const MAX_TARGET_FILES: usize = 12;

/// The most files a draft suggests changes for.
pub const MAX_SUGGESTED_CHANGES: usize = 6;

/// The views of a list of strings.
pub open spec fn strs(v: Seq<String>) -> Seq<Seq<char>> {
    v.map_values(|s: String| s@)
}

/// Keys whose string values name a file.
pub open spec fn is_file_key(k: Seq<char>) -> bool {
    k == "path"@ || k == "file"@ || k == "filePath"@
}

/// `acc` with the trimmed file named by the field `(k, v)` added, when `k`
/// names a file and the trimmed text is neither empty nor already there.
pub open spec fn add_field_file(acc: Seq<Seq<char>>, k: Seq<char>, v: Json) -> Seq<Seq<char>> {
    match v {
        Json::Str(s) => if is_file_key(k) && trim(s).len() > 0 && !acc.contains(trim(s)) {
            acc.push(trim(s))
        } else {
            acc
        },
        _ => acc,
    }
}

/// The files named anywhere inside `j`, appended to `acc` in the order the
/// fields and items come, each once.
pub open spec fn collect_files(j: Json, acc: Seq<Seq<char>>) -> Seq<Seq<char>>
    decreases j,
{
    match j {
        Json::Object(fields) => collect_field_files(fields, acc),
        Json::Array(items) => collect_item_files(items, acc),
        _ => acc,
    }
}

/// The files named by a list of fields and inside their values.
pub open spec fn collect_field_files(fields: Seq<(Seq<char>, Json)>, acc: Seq<Seq<char>>) -> Seq<Seq<char>>
    decreases fields,
{
    if fields.len() == 0 {
        acc
    } else {
        let before = collect_field_files(fields.drop_last(), acc);
        let (k, v) = fields.last();
        collect_files(v, add_field_file(before, k, v))
    }
}

/// The files named inside a list of values.
pub open spec fn collect_item_files(items: Seq<Json>, acc: Seq<Seq<char>>) -> Seq<Seq<char>>
    decreases items,
{
    if items.len() == 0 {
        acc
    } else {
        collect_files(items.last(), collect_item_files(items.drop_last(), acc))
    }
}

/// At most the first `MAX_TARGET_FILES` of `s`.
pub open spec fn first_twelve(s: Seq<Seq<char>>) -> Seq<Seq<char>> {
    if s.len() <= 12 {
        s
    } else {
        s.take(12)
    }
}

/// The files a draft targets: those named in the dependency results, then
/// in the rework suggestions, the first twelve.
pub open spec fn target_files(deps: Seq<Json>, rework: Seq<Json>) -> Seq<Seq<char>> {
    first_twelve(collect_item_files(rework, collect_item_files(deps, Seq::empty())))
}

fn has_string(files: &Vec<String>, s: &str) -> (b: bool)
    ensures
        b == strs(files@).contains(s@),
{
    let mut i: usize = 0;
    while i < files.len()
        invariant
            i <= files@.len(),
            forall|k: int| 0 <= k < i ==> files@[k]@ != s@,
        decreases files.len() - i,
    {
        if str_eq(files[i].as_str(), s) {
            assert(strs(files@)[i as int] == s@);
            return true;
        }
        i += 1;
    }
    proof {
        if strs(files@).contains(s@) {
            let k = choose|k: int| 0 <= k < strs(files@).len() && strs(files@)[k] == s@;
            assert(files@[k]@ == s@);
        }
    }
    false
}

/// Adds to `files` the file named anywhere inside `value` (see
/// `collect_files`).
pub fn collect_string_fields(value: &JsonValue, files: &mut Vec<String>)
    ensures
        strs(final(files)@) == collect_files(jv(*value), strs(old(files)@)),
    decreases value,
{
    match value {
        JsonValue::Object(fields) => {
            let ghost fv = jv_fields(fields@);
            let ghost start = strs(files@);
            proof {
                lemma_jv_fields_len(fields@);
            }
            let mut i: usize = 0;
            while i < fields.len()
                invariant
                    *value == JsonValue::Object(*fields),
                    fv == jv_fields(fields@),
                    fv.len() == fields@.len(),
                    forall|k: int| 0 <= k < fields@.len() ==> #[trigger] fv[k] == (fields@[k].0@, jv(fields@[k].1)),
                    i <= fields@.len(),
                    strs(files@) == collect_field_files(fv.take(i as int), start),
                decreases fields.len() - i,
            {
                proof {
                    assert(decreases_to!(*value => value->Object_0));
                    assert(decreases_to!(*fields => fields@));
                    assert(decreases_to!(fields@ => fields@[i as int]));
                    assert(decreases_to!(fields@[i as int] => fields@[i as int].1));
                    assert(fv.take(i + 1).drop_last() =~= fv.take(i as int));
                    assert(fv.take(i + 1).last() == fv[i as int]);
                }
                let key = fields[i].0.as_str();
                let is_key = str_eq(key, "path") || str_eq(key, "file") || str_eq(key, "filePath");
                if is_key {
                    match &fields[i].1 {
                        JsonValue::Str(s) => {
                            match crate::text::clean_str(s.as_str()) {
                                Some(t) => {
                                    if !has_string(files, t.as_str()) {
                                        let ghost before = files@;
                                        files.push(t);
                                        assert(strs(files@) =~= strs(before).push(trim(s@)));
                                    }
                                },
                                None => {},
                            }
                        },
                        _ => {},
                    }
                }
                collect_string_fields(&fields[i].1, files);
                i += 1;
            }
            assert(fv.take(fields@.len() as int) =~= fv);
        },
        JsonValue::Array(items) => {
            let ghost iv = jv_items(items@);
            let ghost start = strs(files@);
            proof {
                lemma_jv_items_len(items@);
            }
            let mut i: usize = 0;
            while i < items.len()
                invariant
                    *value == JsonValue::Array(*items),
                    iv == jv_items(items@),
                    iv.len() == items@.len(),
                    forall|k: int| 0 <= k < items@.len() ==> #[trigger] iv[k] == jv(items@[k]),
                    i <= items@.len(),
                    strs(files@) == collect_item_files(iv.take(i as int), start),
                decreases items.len() - i,
            {
                proof {
                    assert(decreases_to!(*value => value->Array_0));
                    assert(decreases_to!(*items => items@));
                    assert(decreases_to!(items@ => items@[i as int]));
                    assert(iv.take(i + 1).drop_last() =~= iv.take(i as int));
                }
                collect_string_fields(&items[i], files);
                i += 1;
            }
            assert(iv.take(items@.len() as int) =~= iv);
        },
        _ => {},
    }
}

/// Adds to `files` the files named inside each of `values`, in order.
fn collect_from_all(values: &Vec<JsonValue>, files: &mut Vec<String>)
    ensures
        strs(final(files)@) == collect_item_files(jv_items(values@), strs(old(files)@)),
{
    let ghost iv = jv_items(values@);
    let ghost start = strs(files@);
    proof {
        lemma_jv_items_len(values@);
    }
    let mut i: usize = 0;
    while i < values.len()
        invariant
            iv == jv_items(values@),
            iv.len() == values@.len(),
            forall|k: int| 0 <= k < values@.len() ==> #[trigger] iv[k] == jv(values@[k]),
            i <= values@.len(),
            strs(files@) == collect_item_files(iv.take(i as int), start),
        decreases values.len() - i,
    {
        assert(iv.take(i + 1).drop_last() =~= iv.take(i as int));
        collect_string_fields(&values[i], files);
        i += 1;
    }
    assert(iv.take(values@.len() as int) =~= iv);
}

/// The files a draft targets (see `target_files`).
pub fn collect_target_files(dependency_results: &Vec<JsonValue>, rework_suggestions: &Vec<JsonValue>) -> (r: Vec<String>)
    ensures
        strs(r@) == target_files(jv_items(dependency_results@), jv_items(rework_suggestions@)),
{
    let mut files: Vec<String> = Vec::new();
    assert(strs(files@) =~= Seq::empty());
    collect_from_all(dependency_results, &mut files);
    collect_from_all(rework_suggestions, &mut files);
    let ghost all = strs(files@);
    files.truncate(MAX_TARGET_FILES);
    assert(strs(files@) =~= first_twelve(all));
    files
}

/// Why the suggested changes are made: to fix a failed verification when
/// there are rework suggestions, else to reach the goal with a minimal change.
pub open spec fn change_reason(no_rework: bool) -> Seq<char> {
    if no_rework {
        "根据当前实现目标补充最小代码改动。"@
    } else {
        "根据验证失败命令、stderr 摘要和回滚状态修复问题。"@
    }
}

/// One suggested change.
pub open spec fn change_json(path: Json, no_rework: bool, instruction: Seq<char>) -> Json {
    Json::Object(
        seq![
            ("path"@, path),
            ("reason"@, Json::Str(change_reason(no_rework))),
            ("instruction"@, Json::Str(clipped(collapse_ws(instruction), 240))),
            ("requiresOldContent"@, Json::Bool(true)),
            ("requiresNewContent"@, Json::Bool(true)),
        ],
    )
}

/// The changes a draft suggests: one without a path when no file is
/// targeted, else one for each of the first six target files.
pub open spec fn suggested_changes_json(targets: Seq<Seq<char>>, no_rework: bool, instruction: Seq<char>) -> Seq<Json> {
    if targets.len() == 0 {
        seq![change_json(Json::Null, no_rework, instruction)]
    } else {
        let n = if targets.len() <= 6 {
            targets.len()
        } else {
            6
        };
        Seq::new(n, |i: int| change_json(Json::Str(targets[i]), no_rework, instruction))
    }
}

fn change_value(path: JsonValue, no_rework: bool, instruction: &str) -> (r: JsonValue)
    ensures
        jv(r) == change_json(jv(path), no_rework, instruction@),
{
    let mut f: Vec<(String, JsonValue)> = Vec::new();
    assert(jv_fields(f@) =~= Seq::empty());
    push_field(&mut f, "path", path);
    let reason = if no_rework {
        "根据当前实现目标补充最小代码改动。"
    } else {
        "根据验证失败命令、stderr 摘要和回滚状态修复问题。"
    };
    push_field(&mut f, "reason", jstr(reason));
    push_field(&mut f, "instruction", JsonValue::Str(summarize_text(instruction, 240)));
    push_field(&mut f, "requiresOldContent", JsonValue::Bool(true));
    push_field(&mut f, "requiresNewContent", JsonValue::Bool(true));
    assert(jv_fields(f@) =~= change_json(jv(path), no_rework, instruction@)->Object_0);
    object(f)
}

/// The changes a draft suggests (see `suggested_changes_json`).
pub fn suggested_changes(target_files: &Vec<String>, no_rework: bool, instruction: &str) -> (r: Vec<JsonValue>)
    ensures
        jv_items(r@) == suggested_changes_json(strs(target_files@), no_rework, instruction@),
{
    let mut out: Vec<JsonValue> = Vec::new();
    if target_files.len() == 0 {
        let c = change_value(JsonValue::Null, no_rework, instruction);
        out.push(c);
        proof {
            crate::json::lemma_jv_items_push(Seq::empty(), c);
            assert(out@ =~= Seq::<JsonValue>::empty().push(c));
            assert(jv_items(Seq::<JsonValue>::empty()) =~= Seq::empty());
            assert(jv_items(out@) =~= suggested_changes_json(strs(target_files@), no_rework, instruction@));
        }
        return out;
    }
    let ghost ts = strs(target_files@);
    let n: usize = if target_files.len() <= MAX_SUGGESTED_CHANGES {
        target_files.len()
    } else {
        MAX_SUGGESTED_CHANGES
    };
    let mut i: usize = 0;
    assert(jv_items(out@) =~= Seq::empty());
    while i < n
        invariant
            n <= target_files@.len(),
            ts == strs(target_files@),
            i <= n,
            jv_items(out@) == Seq::new(i as nat, |k: int| change_json(Json::Str(ts[k]), no_rework, instruction@)),
        decreases n - i,
    {
        let c = change_value(jstr(target_files[i].as_str()), no_rework, instruction);
        let ghost before = out@;
        out.push(c);
        proof {
            crate::json::lemma_jv_items_push(before, c);
            assert(out@ =~= before.push(c));
            assert(ts[i as int] == target_files@[i as int]@);
            assert(jv_items(out@) =~= Seq::new((i + 1) as nat, |k: int| change_json(Json::Str(ts[k]), no_rework, instruction@)));
        }
        i += 1;
    }
    out
}

/// The array under `key` in a context, or nothing.
pub open spec fn array_or_empty(context: Json, key: Seq<char>) -> Seq<Json> {
    match json_get(context, key) {
        Some(Json::Array(items)) => items,
        _ => Seq::empty(),
    }
}

/// The reply text of a draft.
pub open spec fn draft_summary(no_rework: bool) -> Seq<char> {
    if no_rework {
        "已生成补丁草案：等待用户把草案转换为 patch proposal。"@
    } else {
        "已根据验证失败上下文生成返工补丁草案。"@
    }
}

/// The patch proposal draft the coder answers with, drafted at `at`.
pub open spec fn draft_json(content: Seq<char>, context: Json, task_id: Option<Seq<char>>, at: i64) -> Json {
    let deps = array_or_empty(context, "dependencyResults"@);
    let rework = array_or_empty(context, "reworkSuggestions"@);
    let targets = target_files(deps, rework);
    Json::Object(
        seq![
            ("kind"@, Json::Str("PatchProposalDraft"@)),
            ("summary"@, Json::Str(clipped(collapse_ws(content), 160))),
            ("targetFiles"@, Json::Array(targets.map_values(|t: Seq<char>| Json::Str(t)))),
            ("suggestedChanges"@, Json::Array(suggested_changes_json(targets, rework.len() == 0, content))),
            ("reworkSuggestions"@, Json::Array(rework)),
            ("dependencyCount"@, Json::Int(deps.len() as int)),
            ("requiresPatchProposal"@, Json::Bool(true)),
            ("directFileWritesAllowed"@, Json::Bool(false)),
            ("nextAction"@, Json::Str("将草案转换为 create_patch_proposal 请求，并继续走审批、应用和验证闭环。"@)),
            ("draftedAt"@, Json::Int(at as int)),
            (
                "taskId"@,
                match task_id {
                    Some(t) => Json::Str(t),
                    None => Json::Null,
                },
            ),
            ("stepId"@, context_step_id(context)),
        ],
    )
}

fn array_clone(context: &JsonValue, key: &str) -> (r: Vec<JsonValue>)
    ensures
        jv_items(r@) == array_or_empty(jv(*context), key@),
{
    match context.get(key) {
        Some(JsonValue::Array(items)) => {
            let mut out: Vec<JsonValue> = Vec::new();
            let mut i: usize = 0;
            proof {
                lemma_jv_items_len(items@);
            }
            assert(jv_items(out@) =~= Seq::empty());
            while i < items.len()
                invariant
                    i <= items@.len(),
                    jv_items(items@).len() == items@.len(),
                    forall|k: int| 0 <= k < items@.len() ==> #[trigger] jv_items(items@)[k] == jv(items@[k]),
                    jv_items(out@) == jv_items(items@).take(i as int),
                decreases items.len() - i,
            {
                let c = items[i].deep_clone();
                let ghost before = out@;
                out.push(c);
                proof {
                    crate::json::lemma_jv_items_push(before, c);
                    assert(out@ =~= before.push(c));
                    assert(jv_items(items@).take(i + 1) =~= jv_items(items@).take(i as int).push(jv(items@[i as int])));
                }
                i += 1;
            }
            assert(jv_items(items@).take(items@.len() as int) =~= jv_items(items@));
            out
        },
        _ => {
            let out: Vec<JsonValue> = Vec::new();
            assert(jv_items(out@) =~= Seq::empty());
            out
        },
    }
}

/// The reply text and patch proposal draft the coder answers with (see
/// `draft_json`).
pub fn patch_draft(content: &str, context: &JsonValue, task_id: Option<&String>, drafted_at: i64) -> (r: (String, JsonValue))
    ensures
        r.0@ == draft_summary(array_or_empty(jv(*context), "reworkSuggestions"@).len() == 0),
        jv(r.1) == draft_json(content@, jv(*context), crate::task::opt_ref_str(task_id), drafted_at),
{
    let rework = array_clone(context, "reworkSuggestions");
    let deps = array_clone(context, "dependencyResults");
    proof {
        lemma_jv_items_len(rework@);
        lemma_jv_items_len(deps@);
    }
    let targets = collect_target_files(&deps, &rework);
    let no_rework = rework.len() == 0;
    let summary = if no_rework {
        own("已生成补丁草案：等待用户把草案转换为 patch proposal。")
    } else {
        own("已根据验证失败上下文生成返工补丁草案。")
    };
    let changes = suggested_changes(&targets, no_rework, content);
    let target_json = jstr_array(&targets);
    assert(Seq::new(targets@.len(), |i: int| Json::Str(targets@[i]@)) =~= strs(targets@).map_values(
        |t: Seq<char>| Json::Str(t),
    ));
    let dep_count = deps.len();
    let step_id = match context.get("stepId") {
        Some(v) => v.deep_clone(),
        None => JsonValue::Null,
    };
    let mut f: Vec<(String, JsonValue)> = Vec::new();
    assert(jv_fields(f@) =~= Seq::empty());
    push_field(&mut f, "kind", jstr("PatchProposalDraft"));
    push_field(&mut f, "summary", JsonValue::Str(summarize_text(content, 160)));
    push_field(&mut f, "targetFiles", target_json);
    push_field(&mut f, "suggestedChanges", JsonValue::Array(changes));
    push_field(&mut f, "reworkSuggestions", JsonValue::Array(rework));
    push_field(&mut f, "dependencyCount", JsonValue::UInt(dep_count as u64));
    push_field(&mut f, "requiresPatchProposal", JsonValue::Bool(true));
    push_field(&mut f, "directFileWritesAllowed", JsonValue::Bool(false));
    push_field(&mut f, "nextAction", jstr("将草案转换为 create_patch_proposal 请求，并继续走审批、应用和验证闭环。"));
    push_field(&mut f, "draftedAt", JsonValue::Int(drafted_at));
    push_field(
        &mut f,
        "taskId",
        match task_id {
            Some(t) => jstr(t.as_str()),
            None => JsonValue::Null,
        },
    );
    push_field(&mut f, "stepId", step_id);
    assert(jv_fields(f@) =~= draft_json(content@, jv(*context), crate::task::opt_ref_str(task_id), drafted_at)->Object_0);
    (summary, object(f))
}

} // verus!
