//! Reading a plan a model wrote as text: the JSON object in the reply,
//! parsed by serde_json, read field by field into a plan envelope, then
//! checked as `envelope_plan` says.
use vstd::prelude::*;
use crate::error::AgentError;
use crate::json::{Json, JsonValue, jv, jv_items, json_get, lemma_jv_items_len};
use crate::manifest::{json_parse, parse_json_text};
use crate::plan::{envelope_plan, json_object_in, extract_json_object, llm_step_views, LlmPlanStep, LlmStepView, LlmTaskPlanEnvelope, TaskPlan};
use crate::task::{opt_str, strs};
use crate::text::concat2;

verus! {

broadcast use vstd::std_specs::vec::group_vec_axioms;

/// The value under the one name of `names` that an object holds: nothing
/// when it holds none, an error (`Err(())`) when it holds more than one.
pub open spec fn aliased(j: Json, names: Seq<Seq<char>>) -> Result<Option<Json>, ()>
    decreases names.len(),
{
    if names.len() == 0 {
        Ok(None)
    } else {
        match (json_get(j, names[0]), aliased(j, names.drop_first())) {
            (_, Err(())) => Err(()),
            (None, Ok(rest)) => Ok(rest),
            (Some(v), Ok(None)) => Ok(Some(v)),
            (Some(_), Ok(Some(_))) => Err(()),
        }
    }
}

/// An optional string: absent or `null` is none; a string is some.
pub open spec fn opt_string_of(v: Option<Json>) -> Result<Option<Seq<char>>, ()> {
    match v {
        None => Ok(None),
        Some(Json::Null) => Ok(None),
        Some(Json::Str(s)) => Ok(Some(s)),
        _ => Err(()),
    }
}

/// Whether every item is a string.
pub open spec fn all_strings(items: Seq<Json>) -> bool {
    forall|i: int| 0 <= i < items.len() ==> (#[trigger] items[i]) is Str
}

/// The strings of a list of string items.
pub open spec fn string_items(items: Seq<Json>) -> Seq<Seq<char>> {
    items.map_values(|j: Json| j->Str_0)
}

/// A list of strings that defaults to empty when absent.
pub open spec fn string_list_of(v: Option<Json>) -> Result<Seq<Seq<char>>, ()> {
    match v {
        None => Ok(Seq::empty()),
        Some(Json::Array(items)) => if all_strings(items) {
            Ok(string_items(items))
        } else {
            Err(())
        },
        _ => Err(()),
    }
}

/// A step as serde reads it: an object with an optional id (named `id`,
/// `step_id` or `stepId`), string `agent` and `instruction`, and an
/// optional list of dependency ids (named `dependsOn` or `depends_on`).
pub open spec fn step_of(j: Json) -> Option<LlmStepView> {
    if !(j is Object) {
        None
    } else {
        match (aliased(j, seq!["id"@, "step_id"@, "stepId"@]), aliased(j, seq!["dependsOn"@, "depends_on"@])) {
            (Ok(idv), Ok(depv)) => match (
                opt_string_of(idv),
                json_get(j, "agent"@),
                json_get(j, "instruction"@),
                string_list_of(depv),
            ) {
                (Ok(id), Some(Json::Str(agent)), Some(Json::Str(instruction)), Ok(deps)) => Some(
                    LlmStepView { id, agent, instruction, depends_on: deps },
                ),
                _ => None,
            },
            _ => None,
        }
    }
}

/// Whether every item reads as a step.
pub open spec fn all_steps(items: Seq<Json>) -> bool {
    forall|i: int| 0 <= i < items.len() ==> step_of(#[trigger] items[i]) is Some
}

/// An envelope as serde reads it: an object with an optional `goal` string
/// and a list of `steps`.
pub open spec fn envelope_of(j: Json) -> Option<(Option<Seq<char>>, Seq<LlmStepView>)> {
    if !(j is Object) {
        None
    } else {
        match (opt_string_of(json_get(j, "goal"@)), json_get(j, "steps"@)) {
            (Ok(goal), Some(Json::Array(items))) => if all_steps(items) {
                Some((goal, items.map_values(|s: Json| step_of(s)->Some_0)))
            } else {
                None
            },
            _ => None,
        }
    }
}

proof fn lemma_aliased_err(j: Json, ns: Seq<Seq<char>>, k: int)
    requires
        0 <= k <= ns.len(),
        aliased(j, ns.skip(k)) is Err,
    ensures
        aliased(j, ns) is Err,
    decreases k,
{
    if k > 0 {
        assert(ns.skip(k - 1).drop_first() =~= ns.skip(k));
        lemma_aliased_err(j, ns, k - 1);
    } else {
        assert(ns.skip(0) =~= ns);
    }
}

fn aliased_value<'a>(v: &'a JsonValue, names: &Vec<&str>) -> (r: Result<Option<&'a JsonValue>, ()>)
    ensures
        match aliased(jv(*v), names@.map_values(|s: &str| s@)) {
            Ok(Some(x)) => r matches Ok(Some(y)) && jv(*y) == x,
            Ok(None) => r matches Ok(None),
            Err(()) => r is Err,
        },
{
    let ghost ns = names@.map_values(|s: &str| s@);
    let mut found: Option<&JsonValue> = None;
    let mut i: usize = names.len();
    assert(ns.skip(ns.len() as int) =~= Seq::<Seq<char>>::empty());
    while i > 0
        invariant
            i <= names@.len(),
            ns == names@.map_values(|s: &str| s@),
            match aliased(jv(*v), ns.skip(i as int)) {
                Ok(Some(x)) => found matches Some(y) && jv(*y) == x,
                Ok(None) => found is None,
                Err(()) => false,
            },
        decreases i,
    {
        let here = v.get(names[i - 1]);
        proof {
            assert(ns.skip(i - 1).drop_first() =~= ns.skip(i as int));
            assert(ns.skip(i - 1)[0] == names@[i - 1]@);
        }
        match here {
            Some(x) => {
                if found.is_some() {
                    proof {
                        assert(aliased(jv(*v), ns.skip(i - 1)) is Err);
                        lemma_aliased_err(jv(*v), ns, i - 1);
                    }
                    return Err(());
                }
                found = Some(x);
            },
            None => {},
        }
        i -= 1;
    }
    assert(ns.skip(0) =~= ns);
    Ok(found)
}

fn opt_string_value(v: Option<&JsonValue>) -> (r: Result<Option<String>, ()>)
    ensures
        match opt_string_of(
            match v {
                Some(x) => Some(jv(*x)),
                None => None,
            },
        ) {
            Ok(o) => r matches Ok(s) && opt_str(s) == o,
            Err(()) => r is Err,
        },
{
    match v {
        None => Ok(None),
        Some(JsonValue::Null) => Ok(None),
        Some(JsonValue::Str(s)) => Ok(Some(s.clone())),
        _ => Err(()),
    }
}

#[verifier::loop_isolation(false)]
fn string_list_value(v: Option<&JsonValue>) -> (r: Result<Vec<String>, ()>)
    ensures
        match string_list_of(
            match v {
                Some(x) => Some(jv(*x)),
                None => None,
            },
        ) {
            Ok(l) => r matches Ok(s) && strs(s@) == l,
            Err(()) => r is Err,
        },
{
    match v {
        None => {
            let out: Vec<String> = Vec::new();
            assert(strs(out@) =~= Seq::empty());
            Ok(out)
        },
        Some(JsonValue::Array(items)) => {
            proof {
                lemma_jv_items_len(items@);
            }
            let ghost iv = jv_items(items@);
            let mut out: Vec<String> = Vec::new();
            let mut i: usize = 0;
            while i < items.len()
                invariant
                    i <= items@.len(),
                    iv == jv_items(items@),
                    iv.len() == items@.len(),
                    forall|k: int| 0 <= k < items@.len() ==> #[trigger] iv[k] == jv(items@[k]),
                    all_strings(iv.take(i as int)),
                    strs(out@) == string_items(iv.take(i as int)),
                decreases items.len() - i,
            {
                match &items[i] {
                    JsonValue::Str(s) => {
                        let ghost before = out@;
                        out.push(s.clone());
                        proof {
                            assert(strs(out@) =~= strs(before).push(s@));
                            assert(iv.take(i + 1) =~= iv.take(i as int).push(iv[i as int]));
                            assert(string_items(iv.take(i + 1)) =~= string_items(iv.take(i as int)).push(s@));
                        }
                    },
                    _ => {
                        proof {
                            assert(!(iv[i as int] is Str));
                            assert(!all_strings(iv));
                        }
                        return Err(());
                    },
                }
                i += 1;
            }
            assert(iv.take(items@.len() as int) =~= iv);
            Ok(out)
        },
        _ => Err(()),
    }
}

/// A step read from JSON (see `step_of`).
pub fn step_from_json(v: &JsonValue) -> (r: Option<LlmPlanStep>)
    ensures
        match step_of(jv(*v)) {
            Some(s) => r matches Some(x) && x@ == s,
            None => r is None,
        },
{
    match v {
        JsonValue::Object(_) => {},
        _ => {
            return None;
        },
    }
    let mut id_names: Vec<&str> = Vec::new();
    id_names.push("id");
    id_names.push("step_id");
    id_names.push("stepId");
    assert(id_names@.map_values(|s: &str| s@) =~= seq!["id"@, "step_id"@, "stepId"@]);
    let mut dep_names: Vec<&str> = Vec::new();
    dep_names.push("dependsOn");
    dep_names.push("depends_on");
    assert(dep_names@.map_values(|s: &str| s@) =~= seq!["dependsOn"@, "depends_on"@]);
    let idv = match aliased_value(v, &id_names) {
        Ok(x) => x,
        Err(()) => {
            return None;
        },
    };
    let depv = match aliased_value(v, &dep_names) {
        Ok(x) => x,
        Err(()) => {
            return None;
        },
    };
    let id = match opt_string_value(idv) {
        Ok(x) => x,
        Err(()) => {
            return None;
        },
    };
    let agent = match v.get("agent") {
        Some(JsonValue::Str(s)) => s.clone(),
        _ => {
            return None;
        },
    };
    let instruction = match v.get("instruction") {
        Some(JsonValue::Str(s)) => s.clone(),
        _ => {
            return None;
        },
    };
    let depends_on = match string_list_value(depv) {
        Ok(x) => x,
        Err(()) => {
            return None;
        },
    };
    Some(LlmPlanStep { id, agent, instruction, depends_on })
}

/// An envelope read from JSON (see `envelope_of`).
#[verifier::loop_isolation(false)]
pub fn envelope_from_json(v: &JsonValue) -> (r: Option<LlmTaskPlanEnvelope>)
    ensures
        match envelope_of(jv(*v)) {
            Some((g, ss)) => r matches Some(e) && opt_str(e.goal) == g && llm_step_views(e.steps@) == ss,
            None => r is None,
        },
{
    match v {
        JsonValue::Object(_) => {},
        _ => {
            return None;
        },
    }
    let goal = match opt_string_value(v.get("goal")) {
        Ok(g) => g,
        Err(()) => {
            return None;
        },
    };
    let items = match v.get("steps") {
        Some(JsonValue::Array(items)) => items,
        _ => {
            return None;
        },
    };
    proof {
        lemma_jv_items_len(items@);
    }
    let ghost iv = jv_items(items@);
    let mut steps: Vec<LlmPlanStep> = Vec::new();
    let mut i: usize = 0;
    while i < items.len()
        invariant
            i <= items@.len(),
            iv == jv_items(items@),
            iv.len() == items@.len(),
            forall|k: int| 0 <= k < items@.len() ==> #[trigger] iv[k] == jv(items@[k]),
            all_steps(iv.take(i as int)),
            llm_step_views(steps@) == iv.take(i as int).map_values(|s: Json| step_of(s)->Some_0),
        decreases items.len() - i,
    {
        match step_from_json(&items[i]) {
            Some(s) => {
                let ghost before = steps@;
                let ghost sv = s@;
                steps.push(s);
                proof {
                    assert(llm_step_views(steps@) =~= llm_step_views(before).push(sv));
                    assert(iv.take(i + 1) =~= iv.take(i as int).push(iv[i as int]));
                    assert(iv.take(i + 1).map_values(|s: Json| step_of(s)->Some_0) =~= iv.take(i as int).map_values(
                        |s: Json| step_of(s)->Some_0,
                    ).push(sv));
                }
            },
            None => {
                proof {
                    assert(step_of(iv[i as int]) is None);
                    assert(!all_steps(iv));
                    assert(json_get(jv(*v), "steps"@) == Some(Json::Array(iv)));
                    assert(opt_string_of(json_get(jv(*v), "goal"@)) is Ok);
                }
                return None;
            },
        }
        i += 1;
    }
    assert(iv.take(items@.len() as int) =~= iv);
    Some(LlmTaskPlanEnvelope { goal, steps })
}

/// The prefix of the error a plan that cannot be read gets.
pub open spec fn plan_parse_error(m: Seq<char>) -> bool {
    exists|detail: Seq<char>| m == "Planner JSON 解析失败: "@ + detail
}

impl TaskPlan {
    /// The plan a model wrote as text for task `task_id`: the JSON object in
    /// the reply (see `json_object_in`), parsed (`json_parse`) and read as an
    /// envelope (`envelope_of`), then checked (`envelope_plan`). A reply
    /// without an object, text that is not JSON or JSON that is not an
    /// envelope is a message-format error.
    pub fn from_llm_json(goal: &str, task_id: String, raw_json: &str) -> (r: Result<TaskPlan, AgentError>)
        ensures
            match json_object_in(raw_json@) {
                Err(m) => r matches Err(AgentError::MessageFormat(x)) && x@ == m,
                Ok(text) => match json_parse(text) {
                    None => r matches Err(AgentError::MessageFormat(x)) && plan_parse_error(x@),
                    Some(j) => match envelope_of(j) {
                        None => r matches Err(AgentError::MessageFormat(x)) && plan_parse_error(x@),
                        Some((g, ss)) => match envelope_plan(goal@, task_id@, g, ss) {
                            Ok((g2, ps)) => r matches Ok(p) && p.task_id@ == task_id@ && p.goal@ == g2
                                && p.step_views() == ps,
                            Err(m) => r matches Err(AgentError::MessageFormat(x)) && x@ == m,
                        },
                    },
                },
            },
    {
        let text = match extract_json_object(raw_json) {
            Ok(t) => t,
            Err(e) => {
                return Err(e);
            },
        };
        let value = match parse_json_text(text.as_str()) {
            Ok(v) => v,
            Err(detail) => {
                return Err(AgentError::MessageFormat(concat2("Planner JSON 解析失败: ", detail.as_str())));
            },
        };
        match envelope_from_json(&value) {
            Some(envelope) => TaskPlan::from_llm_envelope(goal, task_id, envelope),
            None => Err(AgentError::MessageFormat(concat2("Planner JSON 解析失败: ", "计划不符合 schema"))),
        }
    }
}

} // verus!
