//! Sending a user's message to the agents: checking it, choosing the agent,
//! the contexts that travel with it (the model key only in the transient
//! one), and the answer shown to the user.
use vstd::prelude::*;
use crate::api::{
    api_error_is, clean_session_id, meta_from, named_from, resolve_agent_meta, route_reason, AgentMeta, ApiError,
    ChatMessageResponse, MetaView, RouteInfoResponse, SendMessageResponse, DEFAULT_ROUTE_REASON,
    AGENT_NOT_FOUND_MESSAGE, AGENT_NOT_SELECTABLE_MESSAGE,
};
use crate::chat::ChatMessage as StoredChatMessage;
use crate::json::{Json, JsonValue, jv, jv_fields, jstr, object, push_field};
use crate::llm::opt_chars;
use crate::text::{clean_opt, clean_str, concat2, own, push_str, str_eq, trim, trim_str};

verus! {

/// The model settings a frontend sends with a message. The temperature is
/// kept as the JSON text of the number.
#[derive(Debug)]
pub struct FrontendLlmSettingsRequest {
    pub model: Option<String>,
    pub api_key: Option<String>,
    pub api_base_url: Option<String>,
    pub max_tokens: Option<u32>,
    pub temperature: Option<String>,
}

/// A message a user sends.
#[derive(Debug)]
pub struct SendMessageRequest {
    pub content: String,
    pub agent_id: Option<String>,
    pub route_mode: Option<String>,
    pub session_id: Option<String>,
    pub llm_settings: Option<FrontendLlmSettingsRequest>,
}

/// The model of frontend model settings.
pub struct SettingsView {
    pub model: Option<Seq<char>>,
    pub api_key: Option<Seq<char>>,
    pub api_base_url: Option<Seq<char>>,
    pub max_tokens: Option<u32>,
    pub temperature: Option<Seq<char>>,
}

impl View for FrontendLlmSettingsRequest {
    type V = SettingsView;

    open spec fn view(&self) -> SettingsView {
        SettingsView {
            model: opt_chars(self.model),
            api_key: opt_chars(self.api_key),
            api_base_url: opt_chars(self.api_base_url),
            max_tokens: self.max_tokens,
            temperature: opt_chars(self.temperature),
        }
    }
}

/// A setting's text, trimmed, as JSON: `null` when missing or blank.
pub open spec fn clean_json(o: Option<Seq<char>>) -> Json {
    match o {
        Some(s) => match clean_opt(s) {
            Some(t) => Json::Str(t),
            None => Json::Null,
        },
        None => Json::Null,
    }
}

/// The token limit as JSON.
pub open spec fn tokens_json(o: Option<u32>) -> Json {
    match o {
        Some(n) => Json::Int(n as int),
        None => Json::Null,
    }
}

/// The temperature as JSON: its number text, or `null`.
pub open spec fn temperature_json(o: Option<Seq<char>>) -> Json {
    match o {
        Some(t) => Json::Number(t),
        None => Json::Null,
    }
}

/// Whether the settings hold a key that is not blank.
pub open spec fn has_api_key(s: SettingsView) -> bool {
    match s.api_key {
        Some(k) => clean_opt(k) is Some,
        None => false,
    }
}

/// The request context of a message with settings `s`: the settings without
/// the key, and only whether a key was given.
pub open spec fn request_context_json(s: SettingsView) -> Json {
    Json::Object(
        seq![
            (
                "frontendLlmSettings"@,
                Json::Object(
                    seq![
                        ("model"@, clean_json(s.model)),
                        ("apiBaseUrl"@, clean_json(s.api_base_url)),
                        ("maxTokens"@, tokens_json(s.max_tokens)),
                        ("temperature"@, temperature_json(s.temperature)),
                        ("hasApiKey"@, Json::Bool(has_api_key(s))),
                    ],
                ),
            ),
        ],
    )
}

/// The transient context of a message with settings `s`, which alone
/// carries the key: `null` without a key that is not blank.
pub open spec fn transient_context_json(s: SettingsView) -> Json {
    match s.api_key {
        Some(k) => match clean_opt(k) {
            Some(key) => Json::Object(
                seq![
                    (
                        "plannerLlmSettings"@,
                        Json::Object(
                            seq![
                                ("model"@, clean_json(s.model)),
                                ("apiKey"@, Json::Str(key)),
                                ("apiBaseUrl"@, clean_json(s.api_base_url)),
                                ("maxTokens"@, tokens_json(s.max_tokens)),
                                ("temperature"@, temperature_json(s.temperature)),
                            ],
                        ),
                    ),
                ],
            ),
            None => Json::Null,
        },
        None => Json::Null,
    }
}

fn clean_value(o: &Option<String>) -> (r: JsonValue)
    ensures
        jv(r) == clean_json(opt_chars(*o)),
{
    match o {
        Some(s) => match clean_str(s.as_str()) {
            Some(t) => JsonValue::Str(t),
            None => JsonValue::Null,
        },
        None => JsonValue::Null,
    }
}

fn tokens_value(o: Option<u32>) -> (r: JsonValue)
    ensures
        jv(r) == tokens_json(o),
{
    match o {
        Some(n) => JsonValue::UInt(n as u64),
        None => JsonValue::Null,
    }
}

fn temperature_value(o: &Option<String>) -> (r: JsonValue)
    ensures
        jv(r) == temperature_json(opt_chars(*o)),
{
    match o {
        Some(t) => JsonValue::Number(t.clone()),
        None => JsonValue::Null,
    }
}

fn wrap(key: &str, inner: Vec<(String, JsonValue)>) -> (r: JsonValue)
    ensures
        jv(r) == Json::Object(seq![(key@, Json::Object(jv_fields(inner@)))]),
{
    let mut f: Vec<(String, JsonValue)> = Vec::new();
    assert(jv_fields(f@) =~= Seq::empty());
    push_field(&mut f, key, object(inner));
    assert(jv_fields(f@) =~= seq![(key@, Json::Object(jv_fields(inner@)))]);
    object(f)
}

/// The request context of a message (see `request_context_json`); `null`
/// without settings.
pub fn build_request_context(settings: Option<&FrontendLlmSettingsRequest>) -> (r: JsonValue)
    ensures
        match settings {
            Some(s) => jv(r) == request_context_json(s@),
            None => jv(r) == Json::Null,
        },
{
    let s = match settings {
        Some(s) => s,
        None => {
            return JsonValue::Null;
        },
    };
    let has_key = match &s.api_key {
        Some(k) => match clean_str(k.as_str()) {
            Some(_) => true,
            None => false,
        },
        None => false,
    };
    let mut f: Vec<(String, JsonValue)> = Vec::new();
    assert(jv_fields(f@) =~= Seq::empty());
    push_field(&mut f, "model", clean_value(&s.model));
    push_field(&mut f, "apiBaseUrl", clean_value(&s.api_base_url));
    push_field(&mut f, "maxTokens", tokens_value(s.max_tokens));
    push_field(&mut f, "temperature", temperature_value(&s.temperature));
    push_field(&mut f, "hasApiKey", JsonValue::Bool(has_key));
    assert(jv_fields(f@) =~= request_context_json(s@)->Object_0[0].1->Object_0);
    wrap("frontendLlmSettings", f)
}

/// The transient context of a message (see `transient_context_json`);
/// `null` without settings.
pub fn build_transient_request_context(settings: Option<&FrontendLlmSettingsRequest>) -> (r: JsonValue)
    ensures
        match settings {
            Some(s) => jv(r) == transient_context_json(s@),
            None => jv(r) == Json::Null,
        },
{
    let s = match settings {
        Some(s) => s,
        None => {
            return JsonValue::Null;
        },
    };
    let key = match &s.api_key {
        Some(k) => match clean_str(k.as_str()) {
            Some(t) => t,
            None => {
                return JsonValue::Null;
            },
        },
        None => {
            return JsonValue::Null;
        },
    };
    let ghost kv = key@;
    let mut f: Vec<(String, JsonValue)> = Vec::new();
    assert(jv_fields(f@) =~= Seq::empty());
    push_field(&mut f, "model", clean_value(&s.model));
    push_field(&mut f, "apiKey", JsonValue::Str(key));
    push_field(&mut f, "apiBaseUrl", clean_value(&s.api_base_url));
    push_field(&mut f, "maxTokens", tokens_value(s.max_tokens));
    push_field(&mut f, "temperature", temperature_value(&s.temperature));
    assert(jv_fields(f@) =~= transient_context_json(s@)->Object_0[0].1->Object_0);
    wrap("plannerLlmSettings", f)
}

/// What sending a message decided: the trimmed content, the session, the
/// agent and why, the message type and the two contexts.
#[derive(Debug)]
pub struct SendPlan {
    pub content: String,
    pub session_id: String,
    pub requested_agent_id: Option<String>,
    pub meta: AgentMeta,
    pub reason: String,
    pub fallback: bool,
    pub msg_type: &'static str,
    pub request_context: JsonValue,
    pub transient_context: JsonValue,
}

/// The message for empty content.
pub const EMPTY_CONTENT_MESSAGE: &'static str = "请输入要发送给 AI 成员的内容。";

/// The message type for an agent: plan requests for the planner, direct
/// messages for the others.
pub open spec fn message_type_for(runtime_name: Seq<char>) -> Seq<char> {
    if runtime_name == "Planner"@ {
        "plan_request"@
    } else {
        "direct_message"@
    }
}

/// The agent id a request names, trimmed (empty when absent).
pub open spec fn requested_id(agent_id: Option<Seq<char>>) -> Seq<char> {
    match agent_id {
        Some(s) => trim(s),
        None => Seq::<char>::empty(),
    }
}

/// The settings of a request, as a model, if any.
pub open spec fn settings_of(req: &SendMessageRequest) -> Option<SettingsView> {
    match req.llm_settings {
        Some(s) => Some(s@),
        None => None,
    }
}

/// The context a message carries when the request has the settings `s`.
pub open spec fn request_context_of(s: Option<SettingsView>) -> Json {
    match s {
        Some(x) => request_context_json(x),
        None => Json::Null,
    }
}

/// The transient context a message carries when the request has the
/// settings `s`.
pub open spec fn transient_context_of(s: Option<SettingsView>) -> Json {
    match s {
        Some(x) => transient_context_json(x),
        None => Json::Null,
    }
}

/// What a planned send holds for a request whose chosen agent is `m`,
/// chosen for `reason`.
pub open spec fn plan_fits(p: SendPlan, req: &SendMessageRequest, m: MetaView, reason: Seq<char>) -> bool {
    &&& p.content@ == trim(req.content@)
    &&& p.session_id@ == match req.session_id {
        Some(s) => if trim(s@).len() > 0 {
            trim(s@)
        } else {
            "default"@
        },
        None => "default"@,
    }
    &&& opt_chars(p.requested_agent_id) == opt_chars(req.agent_id)
    &&& p.meta@ == m
    &&& p.reason@ == reason
    &&& !p.fallback
    &&& p.msg_type@ == message_type_for(m.runtime_name)
    &&& jv(p.request_context) == request_context_of(settings_of(req))
    &&& jv(p.transient_context) == transient_context_of(settings_of(req))
}

/// Checks and routes a message. Blank content is an invalid argument that
/// cannot be retried; no agent id (or a blank one) goes to the planner; an
/// id no agent answers to, or one of an internal agent, is refused as
/// `resolve_agent_meta` says; otherwise the plan holds the trimmed content,
/// the session (`default` when blank), the agent and the reason, the message
/// type (`plan_request` for the planner, else `direct_message`) and both
/// contexts.
pub fn plan_send_message(req: &SendMessageRequest) -> (r: Result<SendPlan, ApiError>)
    ensures
        trim(req.content@).len() == 0 ==> (r matches Err(e) && api_error_is(
            e,
            "INVALID_ARGUMENT"@,
            EMPTY_CONTENT_MESSAGE@,
            None,
            false,
        )),
        trim(req.content@).len() > 0 ==> ({
            let raw = requested_id(opt_chars(req.agent_id));
            &&& raw.len() == 0 ==> (r matches Ok(p) && plan_fits(p, req, meta_from("Planner"@, 0), DEFAULT_ROUTE_REASON@))
            &&& raw.len() > 0 ==> match named_from(raw, 0) {
                None => r matches Err(e) && api_error_is(
                    e,
                    "AGENT_NOT_FOUND"@,
                    AGENT_NOT_FOUND_MESSAGE@,
                    Some("Agent ["@ + raw + "] 未注册"@),
                    true,
                ),
                Some(m) => if m.selectable {
                    r matches Ok(p) && plan_fits(p, req, m, route_reason(raw, m))
                } else {
                    r matches Err(e) && api_error_is(
                        e,
                        "AGENT_NOT_SELECTABLE"@,
                        AGENT_NOT_SELECTABLE_MESSAGE@,
                        Some("Agent ["@ + m.runtime_name + "] is internal/selectable=false"@),
                        false,
                    )
                },
            }
        }),
{
    let content = trim_str(req.content.as_str());
    if content.as_str().is_empty() {
        return Err(ApiError::invalid_argument(EMPTY_CONTENT_MESSAGE));
    }
    let session_id = clean_session_id(req.session_id.as_ref());
    let agent_id: Option<&str> = match &req.agent_id {
        Some(a) => Some(a.as_str()),
        None => None,
    };
    let (meta, reason, fallback) = match resolve_agent_meta(agent_id) {
        Ok(t) => t,
        Err(e) => {
            return Err(e);
        },
    };
    let msg_type: &'static str = if str_eq(meta.runtime_name, "Planner") {
        "plan_request"
    } else {
        "direct_message"
    };
    let settings: Option<&FrontendLlmSettingsRequest> = match &req.llm_settings {
        Some(s) => Some(s),
        None => None,
    };
    let request_context = build_request_context(settings);
    let transient_context = build_transient_request_context(settings);
    let requested_agent_id = match &req.agent_id {
        Some(a) => Some(a.clone()),
        None => None,
    };
    Ok(SendPlan {
        content,
        session_id,
        requested_agent_id,
        meta,
        reason,
        fallback,
        msg_type,
        request_context,
        transient_context,
    })
}

/// The text of the answer to a message sent to `display_name` as task
/// `task_id`: the planner arranges the work, other agents handle it.
pub open spec fn reply_text(planner: bool, display_name: Seq<char>, task_id: Seq<char>) -> Seq<char> {
    if planner {
        "✅ 任务已收到\n\n已交给「"@ + display_name + "」处理。他会先理解需求，再安排合适成员协同完成。\n\n任务编号："@
            + task_id
    } else {
        "✅ 任务已发送给「"@ + display_name + "」\n\n系统正在处理，请稍等。\n\n任务编号："@ + task_id
    }
}

/// The answer to a sent message that became task `task_id`: accepted, with
/// the assistant's reply (its id the task id), the route (`auto` for the
/// planner, else `direct`) and the warnings.
pub fn send_message_response(p: &SendPlan, task_id: String, timestamp: String, warnings: Vec<String>) -> (r: SendMessageResponse)
    ensures
        r.status@ == "accepted"@,
        r.task_id@ == task_id@,
        r.handled_by@ == p.meta@.id,
        r.message.id@ == task_id@,
        r.message.role@ == "assistant"@,
        r.message.content@ == reply_text(p.meta@.runtime_name == "Planner"@, p.meta@.display_name, task_id@),
        r.message.timestamp@ == timestamp@,
        opt_chars(r.message.sender_name) == Some(p.meta@.display_name),
        r.route.mode@ == if p.meta@.runtime_name == "Planner"@ {
            "auto"@
        } else {
            "direct"@
        },
        opt_chars(r.route.requested_agent_id) == opt_chars(p.requested_agent_id),
        r.route.target_agent_id@ == p.meta@.id,
        r.route.target_runtime_name@ == p.meta@.runtime_name,
        r.route.target_display_name@ == p.meta@.display_name,
        r.route.fallback == p.fallback,
        r.route.reason@ == p.reason@,
        r.warnings == warnings,
{
    let planner = str_eq(p.meta.runtime_name, "Planner");
    let content = if planner {
        let mut c = concat2("✅ 任务已收到\n\n已交给「", p.meta.display_name);
        push_str(&mut c, "」处理。他会先理解需求，再安排合适成员协同完成。\n\n任务编号：");
        push_str(&mut c, task_id.as_str());
        c
    } else {
        let mut c = concat2("✅ 任务已发送给「", p.meta.display_name);
        push_str(&mut c, "」\n\n系统正在处理，请稍等。\n\n任务编号：");
        push_str(&mut c, task_id.as_str());
        c
    };
    let message = ChatMessageResponse {
        id: task_id.clone(),
        role: own("assistant"),
        content,
        timestamp,
        sender_name: Some(own(p.meta.display_name)),
    };
    let route = RouteInfoResponse {
        mode: if planner {
            own("auto")
        } else {
            own("direct")
        },
        requested_agent_id: match &p.requested_agent_id {
            Some(a) => Some(a.clone()),
            None => None,
        },
        target_agent_id: own(p.meta.id),
        target_runtime_name: own(p.meta.runtime_name),
        target_display_name: own(p.meta.display_name),
        fallback: p.fallback,
        reason: p.reason.clone(),
    };
    SendMessageResponse {
        message,
        handled_by: own(p.meta.id),
        task_id,
        status: own("accepted"),
        route,
        warnings,
    }
}

/// The user's message as stored in the chat history of the plan's session.
pub fn user_chat_message(p: &SendPlan, id: String, timestamp: String) -> (r: StoredChatMessage)
    ensures
        r.id == id,
        r.session_id@ == p.session_id@,
        r.role@ == "user"@,
        r.content@ == p.content@,
        r.timestamp == timestamp,
        r.sender_name is None,
{
    StoredChatMessage {
        id,
        session_id: p.session_id.clone(),
        role: own("user"),
        content: p.content.clone(),
        timestamp,
        sender_name: None,
    }
}

/// The warning when the user's message could not be stored.
pub fn user_message_warning(error: &str) -> (r: String)
    ensures
        r@ == "保存用户消息失败: "@ + error@,
{
    concat2("保存用户消息失败: ", error)
}

/// The warning when the reply could not be stored.
pub fn reply_message_warning(error: &str) -> (r: String)
    ensures
        r@ == "保存回复消息失败: "@ + error@,
{
    concat2("保存回复消息失败: ", error)
}

} // verus!
