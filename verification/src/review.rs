//! What the review agent finds in the results it is given, and the report
//! it answers with.
use vstd::prelude::*;
use crate::json::{Json, JsonValue, jv, jv_fields, jv_items, json_get, lemma_jv_fields_len, lemma_jv_items_len, push_field, object, jstr};
use crate::json_text::{json_text, to_json_text};
use crate::text::{contains, own, push_str, str_contains, trim, trim_str};

verus! {

broadcast use vstd::std_specs::vec::group_vec_axioms;

/// One thing a review found: how severe it is, what it is, the detail and
/// what to do.
#[derive(Debug)]
pub struct ReviewFinding {
    pub severity: &'static str,
    pub title: &'static str,
    pub detail: String,
    pub recommendation: &'static str,
}

/// The model of a finding.
pub struct FindingView {
    pub severity: Seq<char>,
    pub title: Seq<char>,
    pub detail: Seq<char>,
    pub recommendation: Seq<char>,
}

impl View for ReviewFinding {
    type V = FindingView;

    open spec fn view(&self) -> FindingView {
        FindingView {
            severity: self.severity@,
            title: self.title@,
            detail: self.detail@,
            recommendation: self.recommendation@,
        }
    }
}

/// The models of a list of findings.
pub open spec fn finding_views(v: Seq<ReviewFinding>) -> Seq<FindingView> {
    v.map_values(|f: ReviewFinding| f@)
}

impl ReviewFinding {
    /// A finding.
    pub fn new(severity: &'static str, title: &'static str, detail: String, recommendation: &'static str) -> (f: Self)
        ensures
            f@ == (FindingView { severity: severity@, title: title@, detail: detail@, recommendation: recommendation@ }),
    {
        ReviewFinding { severity, title, detail, recommendation }
    }

    /// The finding as a JSON object.
    pub fn to_json(&self) -> (r: JsonValue)
        ensures
            jv(r) == finding_json(self@),
    {
        let mut f: Vec<(String, JsonValue)> = Vec::new();
        assert(jv_fields(f@) =~= Seq::empty());
        push_field(&mut f, "severity", jstr(self.severity));
        push_field(&mut f, "title", jstr(self.title));
        push_field(&mut f, "detail", jstr(self.detail.as_str()));
        push_field(&mut f, "recommendation", jstr(self.recommendation));
        assert(jv_fields(f@) =~= seq![
            ("severity"@, Json::Str(self@.severity)),
            ("title"@, Json::Str(self@.title)),
            ("detail"@, Json::Str(self@.detail)),
            ("recommendation"@, Json::Str(self@.recommendation)),
        ]);
        object(f)
    }
}

/// A finding as a JSON object.
pub open spec fn finding_json(f: FindingView) -> Json {
    Json::Object(
        seq![
            ("severity"@, Json::Str(f.severity)),
            ("title"@, Json::Str(f.title)),
            ("detail"@, Json::Str(f.detail)),
            ("recommendation"@, Json::Str(f.recommendation)),
        ],
    )
}

// ------------------------------------------------------------------
// Signals in results
// ------------------------------------------------------------------
/// Whether a result says `success: false`, itself or in its `context`.
pub open spec fn false_success(v: Json) -> bool {
    json_get(v, "success"@) == Some(Json::Bool(false)) || match json_get(v, "context"@) {
        Some(c) => json_get(c, "success"@) == Some(Json::Bool(false)),
        None => false,
    }
}

/// Whether a value counts as an error: present, not null, and not an empty
/// text, list or object.
pub open spec fn meaningful_error(v: Option<Json>) -> bool {
    match v {
        None => false,
        Some(Json::Null) => false,
        Some(Json::Str(s)) => trim(s).len() > 0,
        Some(Json::Array(items)) => items.len() > 0,
        Some(Json::Object(fields)) => fields.len() > 0,
        Some(_) => true,
    }
}

/// Whether a result carries an error, itself or in its `context`.
pub open spec fn has_error(v: Json) -> bool {
    meaningful_error(json_get(v, "error"@)) || match json_get(v, "context"@) {
        Some(c) => meaningful_error(json_get(c, "error"@)),
        None => false,
    }
}

fn is_false(v: Option<&JsonValue>) -> (b: bool)
    ensures
        b == (match v {
            Some(x) => jv(*x) == Json::Bool(false),
            None => false,
        }),
{
    match v {
        Some(JsonValue::Bool(b)) => !*b,
        _ => false,
    }
}

/// Whether a result says `success: false` (see `false_success`).
pub fn value_contains_false_success(value: &JsonValue) -> (b: bool)
    ensures
        b == false_success(jv(*value)),
{
    if is_false(value.get("success")) {
        return true;
    }
    match value.get("context") {
        Some(c) => is_false(c.get("success")),
        None => false,
    }
}

/// Whether a value counts as an error (see `meaningful_error`).
pub fn is_meaningful_error(value: Option<&JsonValue>) -> (b: bool)
    ensures
        b == meaningful_error(match value {
            Some(v) => Some(jv(*v)),
            None => None,
        }),
{
    match value {
        None => false,
        Some(JsonValue::Null) => false,
        Some(JsonValue::Str(s)) => {
            let t = trim_str(s.as_str());
            !t.as_str().is_empty()
        },
        Some(JsonValue::Array(items)) => {
            proof {
                lemma_jv_items_len(items@);
            }
            items.len() > 0
        },
        Some(JsonValue::Object(fields)) => {
            proof {
                lemma_jv_fields_len(fields@);
            }
            fields.len() > 0
        },
        Some(_) => true,
    }
}

/// Whether a result carries an error (see `has_error`).
pub fn value_contains_error(value: &JsonValue) -> (b: bool)
    ensures
        b == has_error(jv(*value)),
{
    if is_meaningful_error(value.get("error")) {
        return true;
    }
    match value.get("context") {
        Some(c) => is_meaningful_error(c.get("error")),
        None => false,
    }
}

/// Whether a value holds, anywhere inside, a `unifiedDiff` text that is a
/// real git diff.
pub open spec fn has_real_diff(j: Json) -> bool
    decreases j,
{
    match j {
        Json::Object(fields) => (match json_get(j, "unifiedDiff"@) {
            Some(Json::Str(d)) => contains(d, "diff --git"@),
            _ => false,
        }) || fields_have_diff(fields),
        Json::Array(items) => items_have_diff(items),
        _ => false,
    }
}

/// Whether some value among the fields holds a real diff.
pub open spec fn fields_have_diff(fields: Seq<(Seq<char>, Json)>) -> bool
    decreases fields,
{
    if fields.len() == 0 {
        false
    } else {
        fields_have_diff(fields.drop_last()) || has_real_diff(fields.last().1)
    }
}

/// Whether some item holds a real diff.
pub open spec fn items_have_diff(items: Seq<Json>) -> bool
    decreases items,
{
    if items.len() == 0 {
        false
    } else {
        items_have_diff(items.drop_last()) || has_real_diff(items.last())
    }
}

/// Whether a value holds a real diff anywhere (see `has_real_diff`).
pub fn review_has_real_diff(value: &JsonValue) -> (b: bool)
    ensures
        b == has_real_diff(jv(*value)),
    decreases value,
{
    match value {
        JsonValue::Object(fields) => {
            match value.get("unifiedDiff") {
                Some(JsonValue::Str(d)) => {
                    if str_contains(d.as_str(), "diff --git") {
                        return true;
                    }
                },
                _ => {},
            }
            let ghost fv = jv_fields(fields@);
            proof {
                lemma_jv_fields_len(fields@);
            }
            let mut i: usize = 0;
            while i < fields.len()
                invariant
                    *value == JsonValue::Object(*fields),
                    fv == jv_fields(fields@),
                    fv.len() == fields@.len(),
                    forall|k: int| 0 <= k < fields@.len() ==> #[trigger] fv[k] == (fields@[k].0@, jv(fields@[k].1)),
                    i <= fields@.len(),
                    !fields_have_diff(fv.take(i as int)),
                decreases fields.len() - i,
            {
                proof {
                    assert(decreases_to!(*value => value->Object_0));
                    assert(decreases_to!(*fields => fields@));
                    assert(decreases_to!(fields@ => fields@[i as int]));
                    assert(decreases_to!(fields@[i as int] => fields@[i as int].1));
                    assert(fv.take(i + 1).drop_last() =~= fv.take(i as int));
                }
                if review_has_real_diff(&fields[i].1) {
                    proof {
                        lemma_fields_diff_prefix(fv, i + 1);
                    }
                    return true;
                }
                i += 1;
            }
            assert(fv.take(fields@.len() as int) =~= fv);
            false
        },
        JsonValue::Array(items) => {
            let ghost iv = jv_items(items@);
            proof {
                lemma_jv_items_len(items@);
            }
            let mut i: usize = 0;
            while i < items.len()
                invariant
                    *value == JsonValue::Array(*items),
                    iv == jv_items(items@),
                    iv.len() == items@.len(),
                    forall|k: int| 0 <= k < items@.len() ==> #[trigger] iv[k] == jv(items@[k]),
                    i <= items@.len(),
                    !items_have_diff(iv.take(i as int)),
                decreases items.len() - i,
            {
                proof {
                    assert(decreases_to!(*value => value->Array_0));
                    assert(decreases_to!(*items => items@));
                    assert(decreases_to!(items@ => items@[i as int]));
                    assert(iv.take(i + 1).drop_last() =~= iv.take(i as int));
                }
                if review_has_real_diff(&items[i]) {
                    proof {
                        lemma_items_diff_prefix(iv, i + 1);
                    }
                    return true;
                }
                i += 1;
            }
            assert(iv.take(items@.len() as int) =~= iv);
            false
        },
        _ => false,
    }
}

proof fn lemma_fields_diff_prefix(fv: Seq<(Seq<char>, Json)>, n: int)
    requires
        0 <= n <= fv.len(),
        fields_have_diff(fv.take(n)),
    ensures
        fields_have_diff(fv),
    decreases fv.len() - n,
{
    if n < fv.len() {
        assert(fv.take(n + 1).drop_last() =~= fv.take(n));
        lemma_fields_diff_prefix(fv, n + 1);
    } else {
        assert(fv.take(n) =~= fv);
    }
}

proof fn lemma_items_diff_prefix(iv: Seq<Json>, n: int)
    requires
        0 <= n <= iv.len(),
        items_have_diff(iv.take(n)),
    ensures
        items_have_diff(iv),
    decreases iv.len() - n,
{
    if n < iv.len() {
        assert(iv.take(n + 1).drop_last() =~= iv.take(n));
        lemma_items_diff_prefix(iv, n + 1);
    } else {
        assert(iv.take(n) =~= iv);
    }
}

// ------------------------------------------------------------------
// Findings
// ------------------------------------------------------------------
/// The finding for a review without results to look at.
pub open spec fn no_results_finding() -> FindingView {
    FindingView {
        severity: "low"@,
        title: "缺少前置结果"@,
        detail: "ReviewAgent 没有收到 dependencyResults，审查只能基于当前指令文本进行。"@,
        recommendation: "在计划中让 Review 依赖 Executor 或 Tool 步骤，以便审查具体输出。"@,
    }
}

/// The finding for a result that reports a failure, from agent `agent`.
pub open spec fn failed_result_finding(agent: Seq<char>) -> FindingView {
    FindingView {
        severity: "high"@,
        title: "前置步骤存在失败信号"@,
        detail: agent + " 的结果包含 success=false 或 error 字段。"@,
        recommendation: "先修复失败步骤，再重新进入 Review。"@,
    }
}

/// The finding for open TODO marks.
pub open spec fn todo_finding() -> FindingView {
    FindingView {
        severity: "medium"@,
        title: "输出包含未收束事项"@,
        detail: "审查上下文中出现 TODO 标记。"@,
        recommendation: "在任务完成前明确处理、转交或记录 TODO。"@,
    }
}

/// The finding for results that only planned or simulated the work.
pub open spec fn simulated_finding() -> FindingView {
    FindingView {
        severity: "low"@,
        title: "当前结果偏方案或模拟"@,
        detail: "前置执行结果表明本轮尚未直接产生代码 diff。"@,
        recommendation: "需要实际修改时继续使用 patch proposal、审批和验证闭环。"@,
    }
}

/// The finding for a review that needs a diff and has none.
pub open spec fn missing_diff_finding() -> FindingView {
    FindingView {
        severity: "high"@,
        title: "缺少真实 diff"@,
        detail: "审查上下文要求基于真实 unified diff，但没有发现补丁 diff。"@,
        recommendation: "先创建 patch proposal，确保 Review 依赖包含 unifiedDiff 的补丁审批或应用 artifact。"@,
    }
}

/// The agent a dependency result came from, or `unknown`.
pub open spec fn dep_agent(item: Json) -> Seq<char> {
    match json_get(item, "agentId"@) {
        Some(Json::Str(a)) => a,
        _ => "unknown"@,
    }
}

/// The result of a dependency, or `null`.
pub open spec fn dep_result(item: Json) -> Json {
    match json_get(item, "result"@) {
        Some(r) => r,
        None => Json::Null,
    }
}

/// The failure findings for the first `n` dependency results.
pub open spec fn failure_findings(items: Seq<Json>, n: int) -> Seq<FindingView>
    decreases n,
{
    if n <= 0 || n > items.len() {
        Seq::empty()
    } else {
        let r = dep_result(items[n - 1]);
        failure_findings(items, n - 1) + if false_success(r) || has_error(r) {
            seq![failed_result_finding(dep_agent(items[n - 1]))]
        } else {
            Seq::empty()
        }
    }
}

/// The dependency results of a review context, if it lists them.
pub open spec fn dep_items(context: Json) -> Option<Seq<Json>> {
    match json_get(context, "dependencyResults"@) {
        Some(Json::Array(items)) => Some(items),
        _ => None,
    }
}

/// The text a review scans: the instruction, a line break and the context's
/// JSON text.
pub open spec fn review_text(content: Seq<char>, context: Json) -> Seq<char> {
    content + seq!['\n'] + json_text(context)
}

/// What a review finds, in order: missing results; each failing result;
/// TODO marks; simulated work; a required diff that is missing.
pub open spec fn findings_of(content: Seq<char>, context: Json) -> Seq<FindingView> {
    let items = dep_items(context);
    let text = review_text(content, context);
    (match items {
        Some(v) => if v.len() == 0 {
            seq![no_results_finding()]
        } else {
            Seq::empty()
        },
        None => seq![no_results_finding()],
    }) + (match items {
        Some(v) => failure_findings(v, v.len() as int),
        None => Seq::empty(),
    }) + (if contains(text, "TODO"@) || contains(text, "todo"@) {
        seq![todo_finding()]
    } else {
        Seq::empty()
    }) + (if contains(text, "不直接修改文件"@) || contains(text, "模拟执行"@) {
        seq![simulated_finding()]
    } else {
        Seq::empty()
    }) + (if json_get(context, "requiresRealDiffReview"@) == Some(Json::Bool(true)) && !has_real_diff(context) {
        seq![missing_diff_finding()]
    } else {
        Seq::empty()
    })
}

fn push_finding(out: &mut Vec<ReviewFinding>, f: ReviewFinding)
    ensures
        finding_views(final(out)@) == finding_views(old(out)@).push(f@),
{
    let ghost before = out@;
    let ghost fv = f@;
    out.push(f);
    assert(finding_views(out@) =~= finding_views(before).push(fv));
}

fn str_value(v: Option<&JsonValue>, default: &str) -> (r: String)
    ensures
        r@ == match v {
            Some(x) => match jv(*x) {
                Json::Str(s) => s,
                _ => default@,
            },
            None => default@,
        },
{
    match v {
        Some(JsonValue::Str(s)) => own(s.as_str()),
        _ => own(default),
    }
}

/// What a review finds in an instruction and its context (see `findings_of`).
pub fn review_findings(content: &str, context: &JsonValue) -> (r: Vec<ReviewFinding>)
    ensures
        finding_views(r@) == findings_of(content@, jv(*context)),
{
    let mut out: Vec<ReviewFinding> = Vec::new();
    let ghost ctx = jv(*context);
    let deps = context.get("dependencyResults");
    let items: Option<&Vec<JsonValue>> = match deps {
        Some(JsonValue::Array(items)) => Some(items),
        _ => None,
    };
    let ghost first = match dep_items(ctx) {
        Some(v) => if v.len() == 0 {
            seq![no_results_finding()]
        } else {
            Seq::empty()
        },
        None => seq![no_results_finding()],
    };
    let none_or_empty = match items {
        Some(v) => v.len() == 0,
        None => true,
    };
    proof {
        match items {
            Some(v) => lemma_jv_items_len(v@),
            None => {},
        }
    }
    if none_or_empty {
        push_finding(
            &mut out,
            ReviewFinding::new(
                "low",
                "缺少前置结果",
                own("ReviewAgent 没有收到 dependencyResults，审查只能基于当前指令文本进行。"),
                "在计划中让 Review 依赖 Executor 或 Tool 步骤，以便审查具体输出。",
            ),
        );
    }
    assert(finding_views(out@) =~= first);
    let ghost second = match dep_items(ctx) {
        Some(v) => failure_findings(v, v.len() as int),
        None => Seq::empty(),
    };
    match items {
        Some(v) => {
            let ghost iv = jv_items(v@);
            proof {
                lemma_jv_items_len(v@);
            }
            let mut i: usize = 0;
            while i < v.len()
                invariant
                    iv == jv_items(v@),
                    iv.len() == v@.len(),
                    forall|k: int| 0 <= k < v@.len() ==> #[trigger] iv[k] == jv(v@[k]),
                    i <= v@.len(),
                    finding_views(out@) == first + failure_findings(iv, i as int),
                decreases v.len() - i,
            {
                let item = &v[i];
                let result = item.get("result");
                let failed = match result {
                    Some(r) => value_contains_false_success(r) || value_contains_error(r),
                    None => false,
                };
                proof {
                    assert(iv[i as int] == jv(*item));
                    if result is None {
                        assert(!false_success(Json::Null) && !has_error(Json::Null));
                    }
                }
                if failed {
                    let agent = str_value(item.get("agentId"), "unknown");
                    let mut detail = agent;
                    push_str(&mut detail, " 的结果包含 success=false 或 error 字段。");
                    push_finding(
                        &mut out,
                        ReviewFinding::new("high", "前置步骤存在失败信号", detail, "先修复失败步骤，再重新进入 Review。"),
                    );
                }
                assert(finding_views(out@) =~= first + failure_findings(iv, i + 1));
                i += 1;
            }
        },
        None => {
            assert(finding_views(out@) =~= first + second);
        },
    }
    assert(finding_views(out@) =~= first + second);
    let mut text = own(content);
    push_str(&mut text, "\n");
    let ctx_text = to_json_text(context);
    push_str(&mut text, ctx_text.as_str());
    let t = text.as_str();
    proof {
        reveal_strlit("\n");
        assert(t@ =~= review_text(content@, ctx));
    }
    let ghost before3 = finding_views(out@);
    let ghost third = if contains(t@, "TODO"@) || contains(t@, "todo"@) {
        seq![todo_finding()]
    } else {
        Seq::empty()
    };
    if str_contains(t, "TODO") || str_contains(t, "todo") {
        push_finding(
            &mut out,
            ReviewFinding::new("medium", "输出包含未收束事项", own("审查上下文中出现 TODO 标记。"), "在任务完成前明确处理、转交或记录 TODO。"),
        );
    }
    assert(finding_views(out@) =~= before3 + third);
    let ghost before4 = finding_views(out@);
    let ghost fourth = if contains(t@, "不直接修改文件"@) || contains(t@, "模拟执行"@) {
        seq![simulated_finding()]
    } else {
        Seq::empty()
    };
    if str_contains(t, "不直接修改文件") || str_contains(t, "模拟执行") {
        push_finding(
            &mut out,
            ReviewFinding::new(
                "low",
                "当前结果偏方案或模拟",
                own("前置执行结果表明本轮尚未直接产生代码 diff。"),
                "需要实际修改时继续使用 patch proposal、审批和验证闭环。",
            ),
        );
    }
    assert(finding_views(out@) =~= before4 + fourth);
    let ghost before5 = finding_views(out@);
    let requires_diff = match context.get("requiresRealDiffReview") {
        Some(JsonValue::Bool(b)) => *b,
        _ => false,
    };
    assert(requires_diff == (json_get(ctx, "requiresRealDiffReview"@) == Some(Json::Bool(true))));
    let ghost fifth = if json_get(ctx, "requiresRealDiffReview"@) == Some(Json::Bool(true)) && !has_real_diff(ctx) {
        seq![missing_diff_finding()]
    } else {
        Seq::empty()
    };
    if requires_diff && !review_has_real_diff(context) {
        push_finding(
            &mut out,
            ReviewFinding::new(
                "high",
                "缺少真实 diff",
                own("审查上下文要求基于真实 unified diff，但没有发现补丁 diff。"),
                "先创建 patch proposal，确保 Review 依赖包含 unifiedDiff 的补丁审批或应用 artifact。",
            ),
        );
    }
    assert(finding_views(out@) =~= before5 + fifth);
    assert(finding_views(out@) =~= findings_of(content@, ctx));
    out
}

/// Whether a review passes: no finding is high or critical.
pub open spec fn review_passed(findings: Seq<FindingView>) -> bool {
    forall|i: int| 0 <= i < findings.len() ==> findings[i].severity != "high"@ && findings[i].severity != "critical"@
}

/// Whether a review passes (see `review_passed`).
pub fn findings_pass(findings: &Vec<ReviewFinding>) -> (b: bool)
    ensures
        b == review_passed(finding_views(findings@)),
{
    let mut i: usize = 0;
    while i < findings.len()
        invariant
            i <= findings@.len(),
            forall|k: int|
                0 <= k < i ==> (#[trigger] finding_views(findings@)[k]).severity != "high"@ && finding_views(
                    findings@,
                )[k].severity != "critical"@,
        decreases findings.len() - i,
    {
        let s = findings[i].severity;
        assert(finding_views(findings@)[i as int].severity == s@);
        if crate::text::str_eq(s, "high") || crate::text::str_eq(s, "critical") {
            return false;
        }
        i += 1;
    }
    true
}

/// The summary of a review.
pub open spec fn review_summary(passed: bool) -> Seq<char> {
    if passed {
        "审查通过，未发现阻断性风险。"@
    } else {
        "审查未通过，存在需要返工的高风险问题。"@
    }
}

/// The step id a context names, or `null`.
pub open spec fn context_step_id(context: Json) -> Json {
    match json_get(context, "stepId"@) {
        Some(v) => v,
        None => Json::Null,
    }
}

/// The report a review answers with, reviewed at `at`.
pub open spec fn review_report_json(content: Seq<char>, context: Json, task_id: Option<Seq<char>>, at: i64) -> Json {
    let fs = findings_of(content, context);
    let passed = review_passed(fs);
    Json::Object(
        seq![
            ("kind"@, Json::Str("ReviewReport"@)),
            ("passed"@, Json::Bool(passed)),
            ("summary"@, Json::Str(review_summary(passed))),
            ("findingCount"@, Json::Int(fs.len() as int)),
            ("findings"@, Json::Array(fs.map_values(|f: FindingView| finding_json(f)))),
            ("diffReviewed"@, Json::Bool(has_real_diff(context))),
            ("reviewedAt"@, Json::Int(at as int)),
            (
                "taskId"@,
                match task_id {
                    Some(t) => Json::Str(t),
                    None => Json::Null,
                },
            ),
            ("stepId"@, context_step_id(context)),
            (
                "dependencyCount"@,
                Json::Int(
                    match dep_items(context) {
                        Some(v) => v.len() as int,
                        None => 0,
                    },
                ),
            ),
        ],
    )
}

/// The summary and report a review answers with (see `review_report_json`).
pub fn review_report(content: &str, context: &JsonValue, task_id: Option<&String>, reviewed_at: i64) -> (r: (String, JsonValue))
    ensures
        r.0@ == review_summary(review_passed(findings_of(content@, jv(*context)))),
        jv(r.1) == review_report_json(content@, jv(*context), crate::task::opt_ref_str(task_id), reviewed_at),
{
    let findings = review_findings(content, context);
    let ghost fs = findings_of(content@, jv(*context));
    let passed = findings_pass(&findings);
    let summary = if passed {
        own("审查通过，未发现阻断性风险。")
    } else {
        own("审查未通过，存在需要返工的高风险问题。")
    };
    let mut list: Vec<JsonValue> = Vec::new();
    let mut i: usize = 0;
    while i < findings.len()
        invariant
            i <= findings@.len(),
            finding_views(findings@) == fs,
            jv_items(list@) == fs.take(i as int).map_values(|f: FindingView| finding_json(f)),
        decreases findings.len() - i,
    {
        let j = findings[i].to_json();
        proof {
            crate::json::lemma_jv_items_push(list@, j);
            assert(fs[i as int] == findings@[i as int]@);
            assert(fs.take(i + 1).map_values(|f: FindingView| finding_json(f)) =~= fs.take(i as int).map_values(
                |f: FindingView| finding_json(f),
            ).push(finding_json(fs[i as int])));
        }
        list.push(j);
        i += 1;
    }
    assert(fs.take(findings@.len() as int) =~= fs);
    let dep_count: usize = match context.get("dependencyResults") {
        Some(JsonValue::Array(items)) => {
            proof {
                lemma_jv_items_len(items@);
            }
            items.len()
        },
        _ => 0,
    };
    let step_id = match context.get("stepId") {
        Some(v) => v.deep_clone(),
        None => JsonValue::Null,
    };
    let mut f: Vec<(String, JsonValue)> = Vec::new();
    assert(jv_fields(f@) =~= Seq::empty());
    push_field(&mut f, "kind", jstr("ReviewReport"));
    push_field(&mut f, "passed", JsonValue::Bool(passed));
    push_field(&mut f, "summary", jstr(summary.as_str()));
    push_field(&mut f, "findingCount", JsonValue::UInt(findings.len() as u64));
    push_field(&mut f, "findings", JsonValue::Array(list));
    push_field(&mut f, "diffReviewed", JsonValue::Bool(review_has_real_diff(context)));
    push_field(&mut f, "reviewedAt", JsonValue::Int(reviewed_at));
    push_field(
        &mut f,
        "taskId",
        match task_id {
            Some(t) => jstr(t.as_str()),
            None => JsonValue::Null,
        },
    );
    push_field(&mut f, "stepId", step_id);
    push_field(&mut f, "dependencyCount", JsonValue::UInt(dep_count as u64));
    assert(jv_fields(f@) =~= review_report_json(content@, jv(*context), crate::task::opt_ref_str(task_id), reviewed_at)->Object_0);
    (summary, object(f))
}

} // verus!
