//! What the tester agent plans: the checks an instruction mentions, and
//! whether earlier results block testing.
use vstd::prelude::*;
use crate::json::{Json, JsonValue, jv, jv_fields, jv_items, json_get, lemma_jv_fields_len, lemma_jv_items_len, push_field, object, jstr};
use crate::json_text::to_json_text;
use crate::review::{meaningful_error, is_meaningful_error, review_text, context_step_id, dep_items};
use crate::text::{contains, own, push_str, str_contains, str_eq};

verus! {

broadcast use vstd::std_specs::vec::group_vec_axioms;

/// The checks the tester knows, in the order it lists them.
pub open spec fn test_candidates() -> Seq<Seq<char>> {
    seq![
        "cargo test"@,
        "cargo check"@,
        "npm test -- --run"@,
        "npm run build"@,
        "npm.cmd test -- --run"@,
        "npm.cmd run build"@,
    ]
}

fn candidate(i: usize) -> (r: &'static str)
    requires
        i < 6,
    ensures
        r@ == test_candidates()[i as int],
{
    if i == 0 {
        "cargo test"
    } else if i == 1 {
        "cargo check"
    } else if i == 2 {
        "npm test -- --run"
    } else if i == 3 {
        "npm run build"
    } else if i == 4 {
        "npm.cmd test -- --run"
    } else {
        "npm.cmd run build"
    }
}

/// A recommended check: run `command` once approved.
pub open spec fn command_entry(command: Seq<char>) -> Json {
    Json::Object(
        seq![
            ("command"@, Json::Str(command)),
            ("requiresApproval"@, Json::Bool(true)),
            ("source"@, Json::Str("instruction-or-context"@)),
        ],
    )
}

/// The recommended checks among the first `n` known ones that `text`
/// mentions.
pub open spec fn mentioned_commands(text: Seq<char>, n: int) -> Seq<Json>
    decreases n,
{
    if n <= 0 || n > 6 {
        Seq::empty()
    } else {
        mentioned_commands(text, n - 1) + if contains(text, test_candidates()[n - 1]) {
            seq![command_entry(test_candidates()[n - 1])]
        } else {
            Seq::empty()
        }
    }
}

/// The checks an instruction and its context mention.
pub fn collect_recommended_commands(content: &str, context: &JsonValue) -> (r: Vec<JsonValue>)
    ensures
        jv_items(r@) == mentioned_commands(review_text(content@, jv(*context)), 6),
{
    let mut text = own(content);
    push_str(&mut text, "\n");
    let ctx_text = to_json_text(context);
    push_str(&mut text, ctx_text.as_str());
    proof {
        reveal_strlit("\n");
        assert(text@ =~= review_text(content@, jv(*context)));
    }
    let mut out: Vec<JsonValue> = Vec::new();
    let mut i: usize = 0;
    assert(jv_items(out@) =~= Seq::empty());
    while i < 6
        invariant
            i <= 6,
            text@ == review_text(content@, jv(*context)),
            jv_items(out@) == mentioned_commands(text@, i as int),
        decreases 6 - i,
    {
        let c = candidate(i);
        if str_contains(text.as_str(), c) {
            let mut f: Vec<(String, JsonValue)> = Vec::new();
            assert(jv_fields(f@) =~= Seq::empty());
            push_field(&mut f, "command", jstr(c));
            push_field(&mut f, "requiresApproval", JsonValue::Bool(true));
            push_field(&mut f, "source", jstr("instruction-or-context"));
            assert(jv_fields(f@) =~= seq![
                ("command"@, Json::Str(c@)),
                ("requiresApproval"@, Json::Bool(true)),
                ("source"@, Json::Str("instruction-or-context"@)),
            ]);
            let entry = object(f);
            assert(jv(entry) == command_entry(c@));
            proof {
                crate::json::lemma_jv_items_push(out@, entry);
            }
            out.push(entry);
        }
        i += 1;
    }
    out
}

/// Whether a value holds a failure signal anywhere: an object that says
/// `success: false` or `passed: false`, has status `failed` or `blocked`,
/// or carries an error; or such a value inside it.
pub open spec fn failure_signal(j: Json) -> bool
    decreases j,
{
    match j {
        Json::Object(fields) => json_get(j, "success"@) == Some(Json::Bool(false)) || json_get(j, "passed"@)
            == Some(Json::Bool(false)) || json_get(j, "status"@) == Some(Json::Str("failed"@)) || json_get(
            j,
            "status"@,
        ) == Some(Json::Str("blocked"@)) || (json_get(j, "error"@) is Some && meaningful_error(
            json_get(j, "error"@),
        )) || fields_signal(fields),
        Json::Array(items) => items_signal(items),
        _ => false,
    }
}

/// Whether some value among the fields holds a failure signal.
pub open spec fn fields_signal(fields: Seq<(Seq<char>, Json)>) -> bool
    decreases fields,
{
    if fields.len() == 0 {
        false
    } else {
        fields_signal(fields.drop_last()) || failure_signal(fields.last().1)
    }
}

/// Whether some item holds a failure signal.
pub open spec fn items_signal(items: Seq<Json>) -> bool
    decreases items,
{
    if items.len() == 0 {
        false
    } else {
        items_signal(items.drop_last()) || failure_signal(items.last())
    }
}

fn bool_is(v: Option<&JsonValue>, b: bool) -> (r: bool)
    ensures
        r == (match v {
            Some(x) => jv(*x) == Json::Bool(b),
            None => false,
        }),
{
    match v {
        Some(JsonValue::Bool(x)) => *x == b,
        _ => false,
    }
}

fn text_is(v: Option<&JsonValue>, t: &str) -> (r: bool)
    ensures
        r == (match v {
            Some(x) => jv(*x) == Json::Str(t@),
            None => false,
        }),
{
    match v {
        Some(JsonValue::Str(x)) => str_eq(x.as_str(), t),
        _ => false,
    }
}

proof fn lemma_fields_signal_prefix(fv: Seq<(Seq<char>, Json)>, n: int)
    requires
        0 <= n <= fv.len(),
        fields_signal(fv.take(n)),
    ensures
        fields_signal(fv),
    decreases fv.len() - n,
{
    if n < fv.len() {
        assert(fv.take(n + 1).drop_last() =~= fv.take(n));
        lemma_fields_signal_prefix(fv, n + 1);
    } else {
        assert(fv.take(n) =~= fv);
    }
}

proof fn lemma_items_signal_prefix(iv: Seq<Json>, n: int)
    requires
        0 <= n <= iv.len(),
        items_signal(iv.take(n)),
    ensures
        items_signal(iv),
    decreases iv.len() - n,
{
    if n < iv.len() {
        assert(iv.take(n + 1).drop_last() =~= iv.take(n));
        lemma_items_signal_prefix(iv, n + 1);
    } else {
        assert(iv.take(n) =~= iv);
    }
}

/// Whether a value holds a failure signal anywhere (see `failure_signal`).
pub fn value_contains_failure_signal(value: &JsonValue) -> (b: bool)
    ensures
        b == failure_signal(jv(*value)),
    decreases value,
{
    match value {
        JsonValue::Object(fields) => {
            if bool_is(value.get("success"), false) || bool_is(value.get("passed"), false) {
                return true;
            }
            let status = value.get("status");
            if text_is(status, "failed") || text_is(status, "blocked") {
                return true;
            }
            let err = value.get("error");
            if err.is_some() && is_meaningful_error(err) {
                return true;
            }
            let ghost fv = jv_fields(fields@);
            proof {
                lemma_jv_fields_len(fields@);
            }
            let mut i: usize = 0;
            while i < fields.len()
                invariant
                    *value == JsonValue::Object(*fields),
                    fv == jv_fields(fields@),
                    fv.len() == fields@.len(),
                    forall|k: int| 0 <= k < fields@.len() ==> #[trigger] fv[k] == (fields@[k].0@, jv(fields@[k].1)),
                    i <= fields@.len(),
                    !fields_signal(fv.take(i as int)),
                decreases fields.len() - i,
            {
                proof {
                    assert(decreases_to!(*value => value->Object_0));
                    assert(decreases_to!(*fields => fields@));
                    assert(decreases_to!(fields@ => fields@[i as int]));
                    assert(decreases_to!(fields@[i as int] => fields@[i as int].1));
                    assert(fv.take(i + 1).drop_last() =~= fv.take(i as int));
                }
                if value_contains_failure_signal(&fields[i].1) {
                    proof {
                        lemma_fields_signal_prefix(fv, i + 1);
                    }
                    return true;
                }
                i += 1;
            }
            assert(fv.take(fields@.len() as int) =~= fv);
            false
        },
        JsonValue::Array(items) => {
            let ghost iv = jv_items(items@);
            proof {
                lemma_jv_items_len(items@);
            }
            let mut i: usize = 0;
            while i < items.len()
                invariant
                    *value == JsonValue::Array(*items),
                    iv == jv_items(items@),
                    iv.len() == items@.len(),
                    forall|k: int| 0 <= k < items@.len() ==> #[trigger] iv[k] == jv(items@[k]),
                    i <= items@.len(),
                    !items_signal(iv.take(i as int)),
                decreases items.len() - i,
            {
                proof {
                    assert(decreases_to!(*value => value->Array_0));
                    assert(decreases_to!(*items => items@));
                    assert(decreases_to!(items@ => items@[i as int]));
                    assert(iv.take(i + 1).drop_last() =~= iv.take(i as int));
                }
                if value_contains_failure_signal(&items[i]) {
                    proof {
                        lemma_items_signal_prefix(iv, i + 1);
                    }
                    return true;
                }
                i += 1;
            }
            assert(iv.take(items@.len() as int) =~= iv);
            false
        },
        _ => false,
    }
}

/// How many of the first `n` results hold a failure signal.
pub open spec fn failing_count(items: Seq<Json>, n: int) -> nat
    decreases n,
{
    if n <= 0 || n > items.len() {
        0
    } else {
        failing_count(items, n - 1) + if failure_signal(items[n - 1]) {
            1nat
        } else {
            0nat
        }
    }
}

/// The report the tester answers with, tested at `at`.
pub open spec fn test_report_json(content: Seq<char>, context: Json, task_id: Option<Seq<char>>, at: i64) -> Json {
    let failures = match dep_items(context) {
        Some(v) => failing_count(v, v.len() as int),
        None => 0,
    };
    Json::Object(
        seq![
            ("kind"@, Json::Str("TestReport"@)),
            ("status"@, Json::Str(if failures > 0 { "blocked"@ } else { "ready"@ })),
            ("summary"@, Json::Str(test_summary(failures > 0))),
            ("recommendedCommands"@, Json::Array(mentioned_commands(review_text(content, context), 6))),
            ("dependencyFailureCount"@, Json::Int(failures as int)),
            ("requiresControlledCommandRunner"@, Json::Bool(true)),
            ("directCommandExecutionAllowed"@, Json::Bool(false)),
            ("testedAt"@, Json::Int(at as int)),
            (
                "taskId"@,
                match task_id {
                    Some(t) => Json::Str(t),
                    None => Json::Null,
                },
            ),
            ("stepId"@, context_step_id(context)),
        ],
    )
}

/// The summary of a test plan.
pub open spec fn test_summary(blocked: bool) -> Seq<char> {
    if blocked {
        "测试计划已生成，但前置步骤包含失败信号，需要先返工。"@
    } else {
        "测试计划已生成，等待通过受控命令执行验证。"@
    }
}

/// The summary and report the tester answers with (see `test_report_json`).
pub fn test_report(content: &str, context: &JsonValue, task_id: Option<&String>, tested_at: i64) -> (r: (String, JsonValue))
    ensures
        jv(r.1) == test_report_json(content@, jv(*context), crate::task::opt_ref_str(task_id), tested_at),
        r.0@ == test_summary(match dep_items(jv(*context)) {
            Some(v) => failing_count(v, v.len() as int) > 0,
            None => false,
        }),
{
    let ghost ctx = jv(*context);
    let mut failures: u64 = 0;
    match context.get("dependencyResults") {
        Some(JsonValue::Array(items)) => {
            let ghost iv = jv_items(items@);
            proof {
                lemma_jv_items_len(items@);
            }
            let mut i: usize = 0;
            while i < items.len()
                invariant
                    iv == jv_items(items@),
                    iv.len() == items@.len(),
                    forall|k: int| 0 <= k < items@.len() ==> #[trigger] iv[k] == jv(items@[k]),
                    i <= items@.len(),
                    failures == failing_count(iv, i as int),
                    failures <= i,
                decreases items.len() - i,
            {
                assert(iv[i as int] == jv(items@[i as int]));
                if value_contains_failure_signal(&items[i]) {
                    failures = failures + 1;
                }
                i += 1;
            }
        },
        _ => {},
    }
    let blocked = failures > 0;
    let summary = if blocked {
        own("测试计划已生成，但前置步骤包含失败信号，需要先返工。")
    } else {
        own("测试计划已生成，等待通过受控命令执行验证。")
    };
    let commands = collect_recommended_commands(content, context);
    let step_id = match context.get("stepId") {
        Some(v) => v.deep_clone(),
        None => JsonValue::Null,
    };
    let mut f: Vec<(String, JsonValue)> = Vec::new();
    assert(jv_fields(f@) =~= Seq::empty());
    push_field(&mut f, "kind", jstr("TestReport"));
    push_field(&mut f, "status", jstr(if blocked { "blocked" } else { "ready" }));
    push_field(&mut f, "summary", jstr(summary.as_str()));
    push_field(&mut f, "recommendedCommands", JsonValue::Array(commands));
    push_field(&mut f, "dependencyFailureCount", JsonValue::UInt(failures));
    push_field(&mut f, "requiresControlledCommandRunner", JsonValue::Bool(true));
    push_field(&mut f, "directCommandExecutionAllowed", JsonValue::Bool(false));
    push_field(&mut f, "testedAt", JsonValue::Int(tested_at));
    push_field(
        &mut f,
        "taskId",
        match task_id {
            Some(t) => jstr(t.as_str()),
            None => JsonValue::Null,
        },
    );
    push_field(&mut f, "stepId", step_id);
    assert(jv_fields(f@) =~= test_report_json(content@, ctx, crate::task::opt_ref_str(task_id), tested_at)->Object_0);
    (summary, object(f))
}

} // verus!
