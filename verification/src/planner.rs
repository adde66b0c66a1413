//! What the planner asks a language model for and how it reads its own
//! settings: the JSON schema of a plan, the prompts, the switches and the
//! per-request model settings.
use vstd::prelude::*;
use crate::json::{Json, JsonValue, jv, jv_fields, json_get, push_field, object, jstr};
use crate::json_text::{json_text, to_json_text};
use crate::text::{ascii_lower_seq, clean_opt, clean_str, concat2, decimal, decimal_string, own, push_str, str_eq, to_ascii_lower, trim, trim_str};
use crate::tool_args::json_string_field_view;
use crate::task::opt_str;
use crate::llm::LLMClient;

verus! {

broadcast use vstd::std_specs::vec::group_vec_axioms;

/// How often the planner asks the model when nothing else is configured.
pub const DEFAULT_PLANNER_LLM_RETRIES: usize = 1;

/// The agents a planned step may name.
pub open spec fn allowed_agents_json() -> Json {
    Json::Array(
        seq![
            Json::Str("Planner"@),
            Json::Str("Tool"@),
            Json::Str("Executor"@),
            Json::Str("Memory"@),
            Json::Str("Echo"@),
        ],
    )
}

/// `{"type": t}` with a description, its keys in sorted order.
pub open spec fn described(description: Seq<char>, t: Seq<char>) -> Json {
    Json::Object(seq![("description"@, Json::Str(description)), ("type"@, Json::Str(t))])
}

/// The schema of one planned step.
pub open spec fn step_schema() -> Json {
    Json::Object(
        seq![
            ("additionalProperties"@, Json::Bool(false)),
            (
                "properties"@,
                Json::Object(
                    seq![
                        (
                            "agent"@,
                            Json::Object(seq![("enum"@, allowed_agents_json()), ("type"@, Json::Str("string"@))]),
                        ),
                        (
                            "dependsOn"@,
                            Json::Object(
                                seq![
                                    ("description"@, Json::Str("只允许引用前置步骤 ID"@)),
                                    ("items"@, Json::Object(seq![("type"@, Json::Str("string"@))])),
                                    ("type"@, Json::Str("array"@)),
                                ],
                            ),
                        ),
                        ("id"@, described("计划内唯一步骤 ID，例如 understand, inspect, implement"@, "string"@)),
                        (
                            "instruction"@,
                            Json::Object(seq![("minLength"@, Json::Int(1)), ("type"@, Json::Str("string"@))]),
                        ),
                    ],
                ),
            ),
            (
                "required"@,
                Json::Array(seq![Json::Str("id"@), Json::Str("agent"@), Json::Str("instruction"@)]),
            ),
            ("type"@, Json::Str("object"@)),
        ],
    )
}

/// The JSON schema a plan written by a model must meet, its keys in
/// sorted order.
pub open spec fn plan_schema() -> Json {
    Json::Object(
        seq![
            ("additionalProperties"@, Json::Bool(false)),
            (
                "properties"@,
                Json::Object(
                    seq![
                        ("goal"@, described("用户目标的简短复述"@, "string"@)),
                        (
                            "steps"@,
                            Json::Object(
                                seq![
                                    ("items"@, step_schema()),
                                    ("maxItems"@, Json::Int(12)),
                                    ("minItems"@, Json::Int(1)),
                                    ("type"@, Json::Str("array"@)),
                                ],
                            ),
                        ),
                    ],
                ),
            ),
            ("required"@, Json::Array(seq![Json::Str("steps"@)])),
            ("type"@, Json::Str("object"@)),
        ],
    )
}

fn str_items(a: &str, b: &str, c: &str) -> (r: JsonValue)
    ensures
        jv(r) == Json::Array(seq![Json::Str(a@), Json::Str(b@), Json::Str(c@)]),
{
    let mut v: Vec<JsonValue> = Vec::new();
    v.push(jstr(a));
    v.push(jstr(b));
    v.push(jstr(c));
    proof {
        crate::json::lemma_jv_items_len(v@);
        assert(crate::json::jv_items(v@) =~= seq![Json::Str(a@), Json::Str(b@), Json::Str(c@)]);
    }
    JsonValue::Array(v)
}

fn described_value(description: &str, t: &str) -> (r: JsonValue)
    ensures
        jv(r) == described(description@, t@),
{
    let mut f: Vec<(String, JsonValue)> = Vec::new();
    assert(jv_fields(f@) =~= Seq::empty());
    push_field(&mut f, "description", jstr(description));
    push_field(&mut f, "type", jstr(t));
    assert(jv_fields(f@) =~= described(description@, t@)->Object_0);
    object(f)
}

fn type_only(t: &str) -> (r: JsonValue)
    ensures
        jv(r) == Json::Object(seq![("type"@, Json::Str(t@))]),
{
    let mut f: Vec<(String, JsonValue)> = Vec::new();
    assert(jv_fields(f@) =~= Seq::empty());
    push_field(&mut f, "type", jstr(t));
    assert(jv_fields(f@) =~= seq![("type"@, Json::Str(t@))]);
    object(f)
}

fn allowed_agents_value() -> (r: JsonValue)
    ensures
        jv(r) == allowed_agents_json(),
{
    let mut v: Vec<JsonValue> = Vec::new();
    v.push(jstr("Planner"));
    v.push(jstr("Tool"));
    v.push(jstr("Executor"));
    v.push(jstr("Memory"));
    v.push(jstr("Echo"));
    proof {
        crate::json::lemma_jv_items_len(v@);
        assert(crate::json::jv_items(v@) =~= allowed_agents_json()->Array_0);
    }
    JsonValue::Array(v)
}

fn step_properties() -> (r: JsonValue)
    ensures
        jv(r) == step_schema()->Object_0[1].1,
{
    let mut agent: Vec<(String, JsonValue)> = Vec::new();
    assert(jv_fields(agent@) =~= Seq::empty());
    push_field(&mut agent, "enum", allowed_agents_value());
    push_field(&mut agent, "type", jstr("string"));
    assert(jv_fields(agent@) =~= seq![("enum"@, allowed_agents_json()), ("type"@, Json::Str("string"@))]);
    let mut depends: Vec<(String, JsonValue)> = Vec::new();
    assert(jv_fields(depends@) =~= Seq::empty());
    push_field(&mut depends, "description", jstr("只允许引用前置步骤 ID"));
    push_field(&mut depends, "items", type_only("string"));
    push_field(&mut depends, "type", jstr("array"));
    assert(jv_fields(depends@) =~= seq![
        ("description"@, Json::Str("只允许引用前置步骤 ID"@)),
        ("items"@, Json::Object(seq![("type"@, Json::Str("string"@))])),
        ("type"@, Json::Str("array"@)),
    ]);
    let mut instruction: Vec<(String, JsonValue)> = Vec::new();
    assert(jv_fields(instruction@) =~= Seq::empty());
    push_field(&mut instruction, "minLength", JsonValue::Int(1));
    push_field(&mut instruction, "type", jstr("string"));
    assert(jv_fields(instruction@) =~= seq![("minLength"@, Json::Int(1)), ("type"@, Json::Str("string"@))]);
    let mut f: Vec<(String, JsonValue)> = Vec::new();
    assert(jv_fields(f@) =~= Seq::empty());
    push_field(&mut f, "agent", object(agent));
    push_field(&mut f, "dependsOn", object(depends));
    push_field(&mut f, "id", described_value("计划内唯一步骤 ID，例如 understand, inspect, implement", "string"));
    push_field(&mut f, "instruction", object(instruction));
    assert(jv_fields(f@) =~= step_schema()->Object_0[1].1->Object_0);
    object(f)
}

fn step_schema_value() -> (r: JsonValue)
    ensures
        jv(r) == step_schema(),
{
    let mut f: Vec<(String, JsonValue)> = Vec::new();
    assert(jv_fields(f@) =~= Seq::empty());
    push_field(&mut f, "additionalProperties", JsonValue::Bool(false));
    push_field(&mut f, "properties", step_properties());
    push_field(&mut f, "required", str_items("id", "agent", "instruction"));
    push_field(&mut f, "type", jstr("object"));
    assert(jv_fields(f@) =~= step_schema()->Object_0);
    object(f)
}

/// The JSON schema a plan written by a model must meet (see `plan_schema`).
pub fn planner_plan_json_schema() -> (r: JsonValue)
    ensures
        jv(r) == plan_schema(),
{
    let mut steps: Vec<(String, JsonValue)> = Vec::new();
    assert(jv_fields(steps@) =~= Seq::empty());
    push_field(&mut steps, "items", step_schema_value());
    push_field(&mut steps, "maxItems", JsonValue::Int(12));
    push_field(&mut steps, "minItems", JsonValue::Int(1));
    push_field(&mut steps, "type", jstr("array"));
    assert(jv_fields(steps@) =~= seq![
        ("items"@, step_schema()),
        ("maxItems"@, Json::Int(12)),
        ("minItems"@, Json::Int(1)),
        ("type"@, Json::Str("array"@)),
    ]);
    let mut props: Vec<(String, JsonValue)> = Vec::new();
    assert(jv_fields(props@) =~= Seq::empty());
    push_field(&mut props, "goal", described_value("用户目标的简短复述", "string"));
    push_field(&mut props, "steps", object(steps));
    assert(jv_fields(props@) =~= plan_schema()->Object_0[1].1->Object_0);
    let mut required: Vec<JsonValue> = Vec::new();
    required.push(jstr("steps"));
    proof {
        crate::json::lemma_jv_items_len(required@);
        assert(crate::json::jv_items(required@) =~= seq![Json::Str("steps"@)]);
    }
    let mut f: Vec<(String, JsonValue)> = Vec::new();
    assert(jv_fields(f@) =~= Seq::empty());
    push_field(&mut f, "additionalProperties", JsonValue::Bool(false));
    push_field(&mut f, "properties", object(props));
    push_field(&mut f, "required", JsonValue::Array(required));
    push_field(&mut f, "type", jstr("object"));
    assert(jv_fields(f@) =~= plan_schema()->Object_0);
    object(f)
}

/// The opening of the planner's system prompt.
pub open spec fn system_prompt_head() -> Seq<char> {
    "你是软件工程多 Agent 调度器 Planner。只输出一个 JSON 对象，不要 Markdown，不要解释。JSON 必须符合此 schema: "@
}

/// The planner's system prompt: output one JSON object meeting the plan
/// schema, whose compact JSON text follows.
pub fn planner_json_system_prompt() -> (r: String)
    ensures
        r@ == system_prompt_head() + json_text(plan_schema()),
{
    let schema = planner_plan_json_schema();
    let text = to_json_text(&schema);
    concat2(
        "你是软件工程多 Agent 调度器 Planner。只输出一个 JSON 对象，不要 Markdown，不要解释。JSON 必须符合此 schema: ",
        text.as_str(),
    )
}

/// The user prompt of a planning request: the goal, then the project
/// context as JSON text (`null` for none), then the request for a plan.
pub open spec fn user_prompt(goal: Seq<char>, context_text: Seq<char>) -> Seq<char> {
    "用户目标:\n"@ + goal + "\n\n项目上下文 JSON:\n"@ + context_text + "\n\n请生成适合当前多 Agent 系统执行的计划。"@
}

/// The user prompt of a planning request (see `user_prompt`); the context
/// is shown as `null` when it is null, else as `pretty_context`, its
/// indented JSON text.
pub fn build_planner_llm_user_prompt(goal: &str, context: &JsonValue, pretty_context: &str) -> (r: String)
    ensures
        r@ == user_prompt(
            goal@,
            if jv(*context) == Json::Null {
                "null"@
            } else {
                pretty_context@
            },
        ),
{
    let mut r = concat2("用户目标:\n", goal);
    push_str(&mut r, "\n\n项目上下文 JSON:\n");
    if context.is_null() {
        push_str(&mut r, "null");
    } else {
        push_str(&mut r, pretty_context);
    }
    push_str(&mut r, "\n\n请生成适合当前多 Agent 系统执行的计划。");
    r
}

/// Whether a switch's text turns a feature on: `1`, `true`, `yes` or `on`,
/// trimmed and in any ASCII case.
pub open spec fn switch_on(value: Option<Seq<char>>) -> bool {
    match value {
        Some(v) => {
            let l = ascii_lower_seq(trim(v));
            l == "1"@ || l == "true"@ || l == "yes"@ || l == "on"@
        },
        None => false,
    }
}

/// Whether the planner asks a model, given the text of its switch.
pub fn planner_llm_enabled(value: Option<&str>) -> (b: bool)
    ensures
        b == switch_on(
            match value {
                Some(v) => Some(v@),
                None => None,
            },
        ),
{
    match value {
        Some(v) => {
            let t = trim_str(v);
            let l = to_ascii_lower(t.as_str());
            let s = l.as_str();
            str_eq(s, "1") || str_eq(s, "true") || str_eq(s, "yes") || str_eq(s, "on")
        },
        None => false,
    }
}

/// The model service the planner uses when none is named: OpenAI when an
/// OpenAI key is set and not blank, else DeepSeek.
pub fn default_planner_llm_provider(openai_key: Option<&str>) -> (r: &'static str)
    ensures
        r@ == match openai_key {
            Some(k) => if clean_opt(k@) is Some {
                "openai"@
            } else {
                "deepseek"@
            },
            None => "deepseek"@,
        },
{
    match openai_key {
        Some(k) => match clean_str(k) {
            Some(_) => "openai",
            None => "deepseek",
        },
        None => "deepseek",
    }
}

/// The value of a decimal digit character.
pub open spec fn digit_value(c: char) -> int {
    (c as u32) - ('0' as u32)
}

/// Whether `c` is an ASCII decimal digit.
pub open spec fn is_digit(c: char) -> bool {
    '0' <= c <= '9'
}

/// The number that a run of decimal digits spells.
pub open spec fn digits_value(s: Seq<char>) -> int
    decreases s.len(),
{
    if s.len() == 0 {
        0
    } else {
        digits_value(s.drop_last()) * 10 + digit_value(s.last())
    }
}

/// The unsigned number a text spells, as Rust reads one: an optional `+`,
/// then one or more decimal digits.
pub open spec fn unsigned_text(s: Seq<char>) -> Option<int> {
    let d = sign_dropped(s);
    if d.len() > 0 && all_digits(d) {
        Some(digits_value(d))
    } else {
        None
    }
}

/// `s` without a leading `+`.
pub open spec fn sign_dropped(s: Seq<char>) -> Seq<char> {
    if s.len() > 0 && s[0] == '+' {
        s.skip(1)
    } else {
        s
    }
}

/// Whether every character of `d` is a decimal digit.
pub open spec fn all_digits(d: Seq<char>) -> bool {
    forall|i: int| 0 <= i < d.len() ==> is_digit(#[trigger] d[i])
}

proof fn lemma_digits_nonneg(s: Seq<char>)
    requires
        forall|i: int| 0 <= i < s.len() ==> is_digit(#[trigger] s[i]),
    ensures
        digits_value(s) >= 0,
    decreases s.len(),
{
    if s.len() > 0 {
        lemma_digits_nonneg(s.drop_last());
    }
}

/// The number `text` spells when it fits in a `usize` (see `unsigned_text`).
pub fn parse_usize(text: &str) -> (r: Option<usize>)
    ensures
        match r {
            Some(n) => unsigned_text(text@) == Some(n as int),
            None => match unsigned_text(text@) {
                Some(v) => v > usize::MAX,
                None => true,
            },
        },
{
    let cs = crate::text::chars_of(text);
    let start: usize = if cs.len() > 0 && cs[0] == '+' {
        1
    } else {
        0
    };
    let ghost d = if cs@.len() > 0 && cs@[0] == '+' {
        cs@.skip(1)
    } else {
        cs@
    };
    assert(d =~= cs@.skip(start as int));
    if start >= cs.len() {
        return None;
    }
    let mut value: usize = 0;
    let mut overflow = false;
    let mut i: usize = start;
    while i < cs.len()
        invariant
            start <= i <= cs@.len(),
            cs@ == text@,
            d == cs@.skip(start as int),
            d == sign_dropped(text@),
            forall|k: int| start <= k < i ==> is_digit(#[trigger] cs@[k]),
            !overflow ==> value as int == digits_value(cs@.subrange(start as int, i as int)),
            overflow ==> digits_value(cs@.subrange(start as int, i as int)) > usize::MAX,
        decreases cs.len() - i,
    {
        let c = cs[i];
        if !('0' <= c && c <= '9') {
            proof {
                let j = i - start;
                assert(d[j] == cs@[i as int]);
                assert(!is_digit(d[j]));
                assert(!(forall|k: int| 0 <= k < d.len() ==> is_digit(#[trigger] d[k])));
                assert(unsigned_text(text@) is None);
            }
            return None;
        }
        let ghost prefix = cs@.subrange(start as int, i as int);
        assert(cs@.subrange(start as int, i + 1).drop_last() =~= prefix);
        proof {
            assert forall|k: int| 0 <= k < prefix.len() implies is_digit(#[trigger] prefix[k]) by {
                assert(prefix[k] == cs@[start + k]);
            }
            lemma_digits_nonneg(prefix);
        }
        let dv: u32 = (c as u32) - ('0' as u32);
        if !overflow {
            if value > (usize::MAX - (dv as usize)) / 10 {
                overflow = true;
                assert(value * 10 + dv > usize::MAX) by (nonlinear_arith)
                    requires
                        value > (usize::MAX - dv) / 10,
                        dv <= 9,
                ;
            } else {
                assert(value * 10 + dv <= usize::MAX) by (nonlinear_arith)
                    requires
                        value <= (usize::MAX - dv) / 10,
                        dv <= 9,
                ;
                value = value * 10 + (dv as usize);
            }
        } else {
            assert(digits_value(prefix) * 10 + dv > usize::MAX) by (nonlinear_arith)
                requires
                    digits_value(prefix) > usize::MAX,
                    dv >= 0,
            ;
        }
        i += 1;
    }
    assert(cs@.subrange(start as int, cs@.len() as int) =~= d);
    if overflow {
        None
    } else {
        Some(value)
    }
}

/// How often the planner asks the model, given the text of its setting: the
/// number it spells, kept between 1 and 3; `DEFAULT_PLANNER_LLM_RETRIES`
/// when it is absent or spells no `usize`.
pub open spec fn retry_count_of(value: Option<Seq<char>>) -> int {
    match value {
        Some(v) => match unsigned_text(trim(v)) {
            Some(n) => if n > usize::MAX {
                DEFAULT_PLANNER_LLM_RETRIES as int
            } else if n < 1 {
                1
            } else if n > 3 {
                3
            } else {
                n
            },
            None => DEFAULT_PLANNER_LLM_RETRIES as int,
        },
        None => DEFAULT_PLANNER_LLM_RETRIES as int,
    }
}

/// How often the planner asks the model (see `retry_count_of`).
pub fn planner_llm_retry_count(value: Option<&str>) -> (r: usize)
    ensures
        r as int == retry_count_of(
            match value {
                Some(v) => Some(v@),
                None => None,
            },
        ),
{
    match value {
        Some(v) => {
            let t = trim_str(v);
            match parse_usize(t.as_str()) {
                Some(n) => if n < 1 {
                    1
                } else if n > 3 {
                    3
                } else {
                    n
                },
                None => DEFAULT_PLANNER_LLM_RETRIES,
            }
        },
        None => DEFAULT_PLANNER_LLM_RETRIES,
    }
}

/// The model settings a request carries for its planning: a key (required),
/// a model, a service base and a token limit.
#[derive(Debug)]
pub struct PlannerLlmSettings {
    pub api_key: String,
    pub model: Option<String>,
    pub api_base_url: Option<String>,
    pub max_tokens: Option<u32>,
}

/// A JSON number as an unsigned 64-bit integer, if it is one.
pub open spec fn as_u64(j: Json) -> Option<int> {
    match j {
        Json::Int(n) => if 0 <= n <= u64::MAX {
            Some(n)
        } else {
            None
        },
        _ => None,
    }
}

/// The token limit of the settings: a positive `u32`.
pub open spec fn max_tokens_of(settings: Json) -> Option<int> {
    match json_get(settings, "maxTokens"@) {
        Some(v) => match as_u64(v) {
            Some(n) => if 0 < n <= u32::MAX {
                Some(n)
            } else {
                None
            },
            None => None,
        },
        None => None,
    }
}

/// The model settings of a request's context: its `plannerLlmSettings`,
/// when they hold a key that is not blank; keys, model and base trimmed,
/// blank ones dropped.
pub fn planner_llm_settings(context: &JsonValue) -> (r: Option<PlannerLlmSettings>)
    ensures
        match json_get(jv(*context), "plannerLlmSettings"@) {
            Some(settings) => match json_string_field_view(settings, "apiKey"@) {
                Some(key) => r matches Some(s) && s.api_key@ == key && opt_str(s.model) == json_string_field_view(
                    settings,
                    "model"@,
                ) && opt_str(s.api_base_url) == json_string_field_view(settings, "apiBaseUrl"@) && match s.max_tokens {
                    Some(n) => max_tokens_of(settings) == Some(n as int),
                    None => max_tokens_of(settings) is None,
                },
                None => r is None,
            },
            None => r is None,
        },
{
    let settings = match context.get("plannerLlmSettings") {
        Some(s) => s,
        None => {
            return None;
        },
    };
    let api_key = match crate::tool_args::json_string_field(settings, "apiKey") {
        Some(k) => k,
        None => {
            return None;
        },
    };
    let model = crate::tool_args::json_string_field(settings, "model");
    let api_base_url = crate::tool_args::json_string_field(settings, "apiBaseUrl");
    let max_tokens: Option<u32> = match settings.get("maxTokens") {
        Some(JsonValue::Int(n)) => if 0 < *n && *n <= 4294967295 {
            Some(*n as u32)
        } else {
            None
        },
        Some(JsonValue::UInt(n)) => if 0 < *n && *n <= 4294967295 {
            Some(*n as u32)
        } else {
            None
        },
        _ => None,
    };
    Some(PlannerLlmSettings { api_key, model, api_base_url, max_tokens })
}

/// The client a request's model settings describe: an OpenAI-compatible
/// service at the settings' base.
pub fn planner_llm_client(settings: &PlannerLlmSettings) -> (c: LLMClient)
    ensures
        c@.provider == crate::llm::ProviderKind::OpenAI,
        c@.api_key == Some(settings.api_key@),
        c@.model == match settings.model {
            Some(m) => m@,
            None => crate::llm::DEFAULT_OPENAI_MODEL@,
        },
        c@.endpoint == match settings.api_base_url {
            Some(b) => crate::llm::strip_trailing_slashes(b@) + "/chat/completions"@,
            None => crate::llm::OPENAI_ENDPOINT@,
        },
{
    LLMClient::openai_compatible(settings.api_key.clone(), settings.model.clone(), settings.api_base_url.clone())
}

/// The reply that announces a plan of `n` steps.
pub fn plan_created_text(n: usize) -> (r: String)
    ensures
        r@ == "已为任务创建计划，共 "@ + decimal(n as nat) + " 个步骤"@,
{
    let mut r = own("已为任务创建计划，共 ");
    let d = decimal_string(n as u64);
    push_str(&mut r, d.as_str());
    push_str(&mut r, " 个步骤");
    r
}

} // verus!
