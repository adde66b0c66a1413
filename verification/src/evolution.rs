//! What the evolution agent learns from the results it is given: the
//! observations, the recommendations and the note it answers with.
use vstd::prelude::*;
use crate::agents::{first_line, first_line_of};
use crate::json::{Json, JsonValue, jv, jv_fields, json_get, lemma_jv_items_len, push_field, object, jstr, jstr_array};
use crate::json_text::{json_text, to_json_text};
use crate::text::{contains, own, push_str, str_contains};
use crate::review::{dep_agent, dep_items, dep_result, context_step_id};

verus! {

broadcast use vstd::std_specs::vec::group_vec_axioms;

/// The most observations a note keeps.
pub const MAX_OBSERVATIONS: usize = 8;

/// What a dependency result says in a few words: nothing for `null`; the
/// review verdict; its summary; the first line of its content or output;
/// whether it succeeded; else that it is structured.
pub open spec fn result_signal(result: Json) -> Option<Seq<char>> {
    if result == Json::Null {
        None
    } else if json_get(result, "passed"@) == Some(Json::Bool(false)) {
        Some("Review 未通过"@)
    } else if json_get(result, "passed"@) == Some(Json::Bool(true)) {
        Some("Review 通过"@)
    } else {
        match json_get(result, "summary"@) {
            Some(Json::Str(s)) => Some(s),
            _ => match json_get(result, "content"@) {
                Some(Json::Str(c)) => Some(first_line_of(c)),
                _ => match json_get(result, "output"@) {
                    Some(Json::Str(o)) => Some(first_line_of(o)),
                    _ => if json_get(result, "success"@) == Some(Json::Bool(true)) {
                        Some("执行成功"@)
                    } else if json_get(result, "success"@) == Some(Json::Bool(false)) {
                        Some("执行失败"@)
                    } else {
                        Some("已产生结构化结果"@)
                    },
                },
            },
        }
    }
}

/// What a dependency result says in a few words (see `result_signal`).
pub fn result_summary_signal(result: &JsonValue) -> (r: Option<String>)
    ensures
        match r {
            Some(s) => result_signal(jv(*result)) == Some(s@),
            None => result_signal(jv(*result)) is None,
        },
{
    if result.is_null() {
        return None;
    }
    match result.get_bool("passed") {
        Some(false) => return Some(own("Review 未通过")),
        Some(true) => return Some(own("Review 通过")),
        None => {},
    }
    if let Some(JsonValue::Str(s)) = result.get("summary") {
        return Some(s.clone());
    }
    if let Some(JsonValue::Str(c)) = result.get("content") {
        return Some(first_line(c.as_str()));
    }
    if let Some(JsonValue::Str(o)) = result.get("output") {
        return Some(first_line(o.as_str()));
    }
    match result.get_bool("success") {
        Some(true) => Some(own("执行成功")),
        Some(false) => Some(own("执行失败")),
        None => Some(own("已产生结构化结果")),
    }
}

/// The instruction a dependency result was given, or `未记录指令`.
pub open spec fn dep_instruction(item: Json) -> Seq<char> {
    match json_get(item, "instruction"@) {
        Some(Json::Str(s)) => s,
        _ => "未记录指令"@,
    }
}

/// The observation on one dependency result, when its result says something:
/// `agent: instruction -> signal`.
pub open spec fn observation(item: Json) -> Option<Seq<char>> {
    match result_signal(dep_result(item)) {
        Some(signal) => Some(dep_agent(item) + ": "@ + dep_instruction(item) + " -> "@ + signal),
        None => None,
    }
}

/// The observations on the first `n` dependency results, in order.
pub open spec fn all_observations(items: Seq<Json>, n: int) -> Seq<Seq<char>>
    decreases n,
{
    if n <= 0 || n > items.len() {
        Seq::empty()
    } else {
        all_observations(items, n - 1) + match observation(items[n - 1]) {
            Some(o) => seq![o],
            None => Seq::empty(),
        }
    }
}

/// At most the first `MAX_OBSERVATIONS` of `s`.
pub open spec fn at_most_eight(s: Seq<Seq<char>>) -> Seq<Seq<char>> {
    if s.len() <= 8 {
        s
    } else {
        s.take(8)
    }
}

/// The observations of a note: those on the dependency results, the first
/// eight of them; none when the context lists no results.
pub open spec fn observations_of(context: Json) -> Seq<Seq<char>> {
    match dep_items(context) {
        Some(items) => at_most_eight(all_observations(items, items.len() as int)),
        None => Seq::empty(),
    }
}

fn str_or(v: Option<&JsonValue>, default: &str) -> (r: String)
    ensures
        r@ == match v {
            Some(x) => match jv(*x) {
                Json::Str(s) => s,
                _ => default@,
            },
            None => default@,
        },
{
    match v {
        Some(JsonValue::Str(s)) => s.clone(),
        _ => own(default),
    }
}

/// The observation on one dependency result (see `observation`).
pub fn observe(item: &JsonValue) -> (r: Option<String>)
    ensures
        match r {
            Some(s) => observation(jv(*item)) == Some(s@),
            None => observation(jv(*item)) is None,
        },
{
    let result = match item.get("result") {
        Some(r) => r.deep_clone(),
        None => JsonValue::Null,
    };
    match result_summary_signal(&result) {
        Some(signal) => {
            let mut s = str_or(item.get("agentId"), "unknown");
            push_str(&mut s, ": ");
            let instruction = str_or(item.get("instruction"), "未记录指令");
            push_str(&mut s, instruction.as_str());
            push_str(&mut s, " -> ");
            push_str(&mut s, signal.as_str());
            Some(s)
        },
        None => None,
    }
}

/// The observations of a note on a context (see `observations_of`).
pub fn evolution_observations(context: &JsonValue) -> (r: Vec<String>)
    ensures
        r@.map_values(|s: String| s@) == observations_of(jv(*context)),
{
    let mut out: Vec<String> = Vec::new();
    match context.get("dependencyResults") {
        Some(JsonValue::Array(items)) => {
            proof {
                lemma_jv_items_len(items@);
            }
            let ghost js = crate::json::jv_items(items@);
            let mut i: usize = 0;
            while i < items.len()
                invariant
                    i <= items@.len(),
                    js.len() == items@.len(),
                    js == crate::json::jv_items(items@),
                    out@.map_values(|s: String| s@) == at_most_eight(all_observations(js, i as int)),
                decreases items.len() - i,
            {
                let ghost before = out@;
                let ghost prev = all_observations(js, i as int);
                proof {
                    lemma_jv_items_len(items@);
                }
                let o = observe(&items[i]);
                match o {
                    Some(s) => {
                        if out.len() < MAX_OBSERVATIONS {
                            out.push(s);
                            assert(out@.map_values(|s: String| s@) =~= before.map_values(|s: String| s@).push(s@));
                        } else {
                            assert(prev.push(s@).take(8) =~= prev.take(8));
                        }
                        assert(all_observations(js, i + 1) == prev.push(s@));
                    },
                    None => {
                        assert(all_observations(js, i + 1) =~= prev);
                    },
                }
                i += 1;
            }
        },
        _ => {
            assert(out@.map_values(|s: String| s@) =~= Seq::empty());
        },
    }
    out
}

/// The recommendations of a note: ask for dependencies when nothing was
/// observed; keep failures for later planning when the context's JSON text
/// shows one, else keep reusable conclusions; and always the reminder that
/// the user accepts every policy change.
pub open spec fn recommendations_of(context: Json, no_observations: bool) -> Seq<Seq<char>> {
    let text = json_text(context);
    (if no_observations {
        seq!["让 Evolution 步骤依赖 Review、Executor 或 Tool，以便沉淀真实任务经验。"@]
    } else {
        Seq::empty()
    }) + seq![
        if contains(text, "\"passed\":false"@) || contains(text, "验证失败"@) || contains(text, "failed"@) {
            "把失败命令、错误摘要和返工建议保留到后续 Planner/Review 上下文。"@
        } else {
            "将可复用结论保存为 ProjectFact，并在相似任务规划时检索。"@
        },
        "所有策略改动都需要用户显式接受后再影响后续任务。"@,
    ]
}

/// The recommendations of a note (see `recommendations_of`).
pub fn evolution_recommendations(context: &JsonValue, no_observations: bool) -> (r: Vec<String>)
    ensures
        r@.map_values(|s: String| s@) == recommendations_of(jv(*context), no_observations),
{
    let mut out: Vec<String> = Vec::new();
    if no_observations {
        out.push(own("让 Evolution 步骤依赖 Review、Executor 或 Tool，以便沉淀真实任务经验。"));
    }
    let text = to_json_text(context);
    if str_contains(text.as_str(), "\"passed\":false") || str_contains(text.as_str(), "验证失败") || str_contains(
        text.as_str(),
        "failed",
    ) {
        out.push(own("把失败命令、错误摘要和返工建议保留到后续 Planner/Review 上下文。"));
    } else {
        out.push(own("将可复用结论保存为 ProjectFact，并在相似任务规划时检索。"));
    }
    out.push(own("所有策略改动都需要用户显式接受后再影响后续任务。"));
    assert(out@.map_values(|s: String| s@) =~= recommendations_of(jv(*context), no_observations));
    out
}

/// The summary of a note.
pub open spec fn evolution_summary(no_observations: bool) -> Seq<char> {
    if no_observations {
        "已生成演进记录：当前上下文不足，建议补充前置步骤结果。"@
    } else {
        "已生成演进记录：任务经验和后续建议已整理。"@
    }
}

/// A list of strings as JSON.
pub open spec fn str_list_json(s: Seq<Seq<char>>) -> Json {
    Json::Array(s.map_values(|x: Seq<char>| Json::Str(x)))
}

/// The note the evolution agent answers with, generated at `at`.
pub open spec fn evolution_note_json(context: Json, task_id: Option<Seq<char>>, at: i64) -> Json {
    let obs = observations_of(context);
    Json::Object(
        seq![
            ("kind"@, Json::Str("EvolutionNote"@)),
            ("summary"@, Json::Str(evolution_summary(obs.len() == 0))),
            ("observations"@, str_list_json(obs)),
            ("recommendations"@, str_list_json(recommendations_of(context, obs.len() == 0))),
            ("tags"@, Json::Array(seq![Json::Str("EvolutionNote"@), Json::Str("task-learning"@)])),
            ("generatedAt"@, Json::Int(at as int)),
            (
                "taskId"@,
                match task_id {
                    Some(t) => Json::Str(t),
                    None => Json::Null,
                },
            ),
            ("stepId"@, context_step_id(context)),
            (
                "sourceStepCount"@,
                Json::Int(
                    match dep_items(context) {
                        Some(v) => v.len() as int,
                        None => 0,
                    },
                ),
            ),
            ("requiresUserAcceptance"@, Json::Bool(true)),
        ],
    )
}

fn strings_json(v: &Vec<String>) -> (r: JsonValue)
    ensures
        jv(r) == str_list_json(v@.map_values(|s: String| s@)),
{
    let r = jstr_array(v);
    assert(Seq::new(v@.len(), |i: int| Json::Str(v@[i]@)) =~= v@.map_values(|s: String| s@).map_values(
        |x: Seq<char>| Json::Str(x),
    ));
    r
}

/// The summary and note the evolution agent answers with (see
/// `evolution_note_json`).
pub fn evolution_note(context: &JsonValue, task_id: Option<&String>, generated_at: i64) -> (r: (String, JsonValue))
    ensures
        r.0@ == evolution_summary(observations_of(jv(*context)).len() == 0),
        jv(r.1) == evolution_note_json(jv(*context), crate::task::opt_ref_str(task_id), generated_at),
{
    let observations = evolution_observations(context);
    let none = observations.len() == 0;
    let recommendations = evolution_recommendations(context, none);
    let summary = if none {
        own("已生成演进记录：当前上下文不足，建议补充前置步骤结果。")
    } else {
        own("已生成演进记录：任务经验和后续建议已整理。")
    };
    let source_count: usize = match context.get("dependencyResults") {
        Some(JsonValue::Array(items)) => {
            proof {
                lemma_jv_items_len(items@);
            }
            items.len()
        },
        _ => 0,
    };
    let step_id = match context.get("stepId") {
        Some(v) => v.deep_clone(),
        None => JsonValue::Null,
    };
    let mut tag_names: Vec<String> = Vec::new();
    tag_names.push(own("EvolutionNote"));
    tag_names.push(own("task-learning"));
    let tags = jstr_array(&tag_names);
    assert(Seq::new(tag_names@.len(), |i: int| Json::Str(tag_names@[i]@)) =~= seq![
        Json::Str("EvolutionNote"@),
        Json::Str("task-learning"@),
    ]);
    let mut f: Vec<(String, JsonValue)> = Vec::new();
    assert(jv_fields(f@) =~= Seq::empty());
    push_field(&mut f, "kind", jstr("EvolutionNote"));
    push_field(&mut f, "summary", jstr(summary.as_str()));
    push_field(&mut f, "observations", strings_json(&observations));
    push_field(&mut f, "recommendations", strings_json(&recommendations));
    push_field(&mut f, "tags", tags);
    push_field(&mut f, "generatedAt", JsonValue::Int(generated_at));
    push_field(
        &mut f,
        "taskId",
        match task_id {
            Some(t) => jstr(t.as_str()),
            None => JsonValue::Null,
        },
    );
    push_field(&mut f, "stepId", step_id);
    push_field(&mut f, "sourceStepCount", JsonValue::UInt(source_count as u64));
    push_field(&mut f, "requiresUserAcceptance", JsonValue::Bool(true));
    assert(jv_fields(f@) =~= evolution_note_json(jv(*context), crate::task::opt_ref_str(task_id), generated_at)->Object_0);
    (summary, object(f))
}

} // verus!
