//! What the executor agent decides for a message, and the results and
//! replies it builds from what running the work gave back.
use vstd::prelude::*;
use crate::agents::ExecutionResult;
use crate::error::AgentError;
use crate::json::{Json, JsonValue, jv, jv_fields, json_get, push_field, object, jstr};
use crate::text::{concat2, concat3, contains, own, str_contains, str_eq};

verus! {

/// What the executor does with a message.
#[derive(Debug, PartialEq, Eq, Structural)]
pub enum ExecutorAction {
    /// Send the HTTP request the message's context describes.
    Http,
    /// Answer with simulated search results.
    Search,
    /// Report the instruction as done.
    Direct,
}

/// What the executor does with a message of type `msg_type` and content
/// `content`: HTTP requests go out, searches are simulated, the rest is
/// reported as done.
pub open spec fn executor_action_of(msg_type: Seq<char>, content: Seq<char>) -> ExecutorAction {
    if msg_type == "http_request"@ {
        ExecutorAction::Http
    } else if contains(content, "搜索"@) || contains(content, "search"@) {
        ExecutorAction::Search
    } else {
        ExecutorAction::Direct
    }
}

/// What the executor does with a message (see `executor_action_of`).
pub fn choose_executor_action(msg_type: &str, content: &str) -> (r: ExecutorAction)
    ensures
        r == executor_action_of(msg_type@, content@),
{
    if str_eq(msg_type, "http_request") {
        ExecutorAction::Http
    } else if str_contains(content, "搜索") || str_contains(content, "search") {
        ExecutorAction::Search
    } else {
        ExecutorAction::Direct
    }
}

/// The result of an instruction reported as done.
pub fn direct_result(content: &str, duration_ms: u64) -> (r: ExecutionResult)
    ensures
        r.success,
        r.output@ == "已执行: "@ + content@,
        r.duration_ms == duration_ms,
        r.error is None,
{
    ExecutionResult { success: true, output: concat2("已执行: ", content), duration_ms, error: None }
}

/// The text of simulated search results for `query`.
pub open spec fn mock_search_text(query: Seq<char>) -> Seq<char> {
    "[模拟搜索结果] 关于 '"@ + query + "' 的搜索结果：\n1. 相关文章 A — 摘要信息\n2. 相关文章 B — 摘要信息\n3. 相关文章 C — 摘要信息"@
}

/// The result of a simulated search for `query`.
pub fn mock_search_result(query: &str, duration_ms: u64) -> (r: ExecutionResult)
    ensures
        r.success,
        r.output@ == mock_search_text(query@),
        r.duration_ms == duration_ms,
        r.error is None,
{
    let output = concat3(
        "[模拟搜索结果] 关于 '",
        query,
        "' 的搜索结果：\n1. 相关文章 A — 摘要信息\n2. 相关文章 B — 摘要信息\n3. 相关文章 C — 摘要信息",
    );
    ExecutionResult { success: true, output, duration_ms, error: None }
}

/// The HTTP methods the executor sends.
#[derive(Debug, PartialEq, Eq, Structural)]
pub enum HttpMethod {
    Get,
    Post,
}

/// An HTTP request to send: where, how, and the JSON body of a `POST`.
#[derive(Debug)]
pub struct HttpRequestPlan {
    pub url: String,
    pub method: HttpMethod,
    pub body: JsonValue,
}

/// The request a context describes: its `url` string (required), its
/// `method` string (`GET` when absent; only `GET` and `POST` are sent) and,
/// for `POST`, its `body` (`null` when absent).
pub open spec fn http_plan_ok(context: Json, url: Seq<char>, method: HttpMethod, body: Json) -> bool {
    &&& json_get(context, "url"@) == Some(Json::Str(url))
    &&& match json_get(context, "method"@) {
        Some(Json::Str(m)) => (m == "GET"@ && method == HttpMethod::Get) || (m == "POST"@ && method
            == HttpMethod::Post),
        _ => method == HttpMethod::Get,
    }
    &&& body == if method == HttpMethod::Post {
        match json_get(context, "body"@) {
            Some(b) => b,
            None => Json::Null,
        }
    } else {
        Json::Null
    }
}

/// Whether a context names a `url` string.
pub open spec fn has_url(context: Json) -> bool {
    json_get(context, "url"@) matches Some(Json::Str(_))
}

/// The method a context names, `GET` when it names none.
pub open spec fn method_name(context: Json) -> Seq<char> {
    match json_get(context, "method"@) {
        Some(Json::Str(m)) => m,
        _ => "GET"@,
    }
}

/// The request a context describes (see `http_plan_ok`); a message-format
/// error without a `url` string, an internal error for any other method.
pub fn plan_http_request(context: &JsonValue) -> (r: Result<HttpRequestPlan, AgentError>)
    ensures
        match r {
            Ok(p) => http_plan_ok(jv(*context), p.url@, p.method, jv(p.body)),
            Err(AgentError::MessageFormat(m)) => m@ == "缺少 URL 参数"@ && !has_url(jv(*context)),
            Err(AgentError::Internal(m)) => has_url(jv(*context)) && m@ == "不支持的 HTTP 方法: "@ + method_name(
                jv(*context),
            ) && method_name(jv(*context)) != "GET"@ && method_name(jv(*context)) != "POST"@,
            Err(_) => false,
        },
{
    let url = match context.get("url") {
        Some(JsonValue::Str(u)) => u.clone(),
        _ => {
            return Err(AgentError::MessageFormat(own("缺少 URL 参数")));
        },
    };
    let method: String = match context.get("method") {
        Some(JsonValue::Str(m)) => m.clone(),
        _ => own("GET"),
    };
    if str_eq(method.as_str(), "GET") {
        Ok(HttpRequestPlan { url, method: HttpMethod::Get, body: JsonValue::Null })
    } else if str_eq(method.as_str(), "POST") {
        let body = match context.get("body") {
            Some(b) => b.deep_clone(),
            None => JsonValue::Null,
        };
        Ok(HttpRequestPlan { url, method: HttpMethod::Post, body })
    } else {
        Err(AgentError::Internal(concat2("不支持的 HTTP 方法: ", method.as_str())))
    }
}

/// The error of a request that could not be sent.
pub fn http_send_error(reason: &str) -> (e: AgentError)
    ensures
        e matches AgentError::Internal(m) && m@ == "HTTP 请求失败: "@ + reason@,
{
    AgentError::Internal(concat2("HTTP 请求失败: ", reason))
}

/// The result of a response with status `status_code`, shown as
/// `status_text` (the code and its reason), and body `body`: it succeeded
/// when the code is 2xx; the output shows status and body; a failure names
/// the status.
pub fn http_result(status_code: u16, status_text: &str, body: &str, duration_ms: u64) -> (r: ExecutionResult)
    ensures
        r.success == (200 <= status_code < 300),
        r.output@ == "HTTP "@ + status_text@ + ": "@ + body@,
        r.duration_ms == duration_ms,
        r.success ==> r.error is None,
        !r.success ==> (r.error matches Some(e) && e@ == "HTTP 状态码: "@ + status_text@),
{
    let success = 200 <= status_code && status_code < 300;
    let mut output = concat3("HTTP ", status_text, ": ");
    crate::text::push_str(&mut output, body);
    let error = if success {
        None
    } else {
        Some(concat2("HTTP 状态码: ", status_text))
    };
    ExecutionResult { success, output, duration_ms, error }
}

/// The text of an optional string.
pub open spec fn opt_text(o: Option<String>) -> Option<Seq<char>> {
    match o {
        Some(s) => Some(s@),
        None => None,
    }
}

/// An execution result as JSON, its fields named as in Rust.
pub open spec fn execution_result_json(success: bool, output: Seq<char>, duration_ms: u64, error: Option<Seq<char>>) -> Json {
    Json::Object(
        seq![
            ("success"@, Json::Bool(success)),
            ("output"@, Json::Str(output)),
            ("duration_ms"@, Json::Int(duration_ms as int)),
            (
                "error"@,
                match error {
                    Some(e) => Json::Str(e),
                    None => Json::Null,
                },
            ),
        ],
    )
}

/// The reply to a finished execution: `执行完成: ` and the output, with the
/// result as its context.
pub fn execution_reply(result: &ExecutionResult) -> (r: (String, JsonValue))
    ensures
        r.0@ == "执行完成: "@ + result.output@,
        jv(r.1) == execution_result_json(
            result.success,
            result.output@,
            result.duration_ms,
            opt_text(result.error),
        ),
{
    let mut f: Vec<(String, JsonValue)> = Vec::new();
    assert(jv_fields(f@) =~= Seq::empty());
    push_field(&mut f, "success", JsonValue::Bool(result.success));
    push_field(&mut f, "output", jstr(result.output.as_str()));
    push_field(&mut f, "duration_ms", JsonValue::UInt(result.duration_ms));
    push_field(
        &mut f,
        "error",
        match &result.error {
            Some(e) => jstr(e.as_str()),
            None => JsonValue::Null,
        },
    );
    let ghost expected = execution_result_json(
        result.success,
        result.output@,
        result.duration_ms,
        opt_text(result.error),
    );
    assert(jv_fields(f@) =~= expected->Object_0);
    (concat2("执行完成: ", result.output.as_str()), object(f))
}

/// The reply to a failed execution: `执行失败: ` and the error's message.
pub fn execution_error_reply(e: &AgentError) -> (r: String)
    ensures
        r@ == "执行失败: "@ + crate::error::error_text(*e),
{
    let m = e.message();
    concat2("执行失败: ", m.as_str())
}

} // verus!
