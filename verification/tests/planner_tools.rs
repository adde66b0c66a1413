use multi_agent::tool_catalog::{
    builtin_tool_descriptions, datetime_format, datetime_result, file_read_result, required_str_arg, web_search_result,
    DatetimeFormat,
};
use multi_agent::agents::ExecutionResult;
use multi_agent::error::AgentError;
use multi_agent::execution::{
    choose_executor_action, direct_result, execution_error_reply, execution_reply, http_result, http_send_error,
    mock_search_result, plan_http_request, ExecutorAction, HttpMethod,
};
use multi_agent::json::JsonValue;
use multi_agent::json_text::to_json_text;
use multi_agent::llm::LLMClient;
use multi_agent::planner::{
    build_planner_llm_user_prompt, default_planner_llm_provider, parse_usize, plan_created_text,
    planner_json_system_prompt, planner_llm_client, planner_llm_enabled, planner_llm_retry_count,
    planner_llm_settings, planner_plan_json_schema,
};
use multi_agent::tool_args::{
    default_tool_args, json_string_field, select_tool_name, tool_call_args, tool_error_reply, tool_failed_error,
    tool_invocation_input, tool_not_found_error, tool_result_reply,
};

fn obj(fields: Vec<(&str, JsonValue)>) -> JsonValue {
    JsonValue::Object(fields.into_iter().map(|(k, v)| (k.to_string(), v)).collect())
}

fn text(s: &str) -> JsonValue {
    JsonValue::Str(s.to_string())
}

fn str_at<'a>(v: &'a JsonValue, key: &str) -> Option<&'a str> {
    match v.get(key) {
        Some(JsonValue::Str(s)) => Some(s.as_str()),
        _ => None,
    }
}

#[test]
fn test_planner_plan_json_schema_shape() {
    let schema = planner_plan_json_schema();
    assert_eq!(str_at(&schema, "type"), Some("object"));
    let steps = schema.get("properties").unwrap().get("steps").unwrap();
    assert!(matches!(steps.get("minItems"), Some(JsonValue::Int(1))));
    let agents = steps.get("items").unwrap().get("properties").unwrap().get("agent").unwrap().get("enum").unwrap();
    match agents {
        JsonValue::Array(items) => assert!(items.iter().any(|v| matches!(v, JsonValue::Str(s) if s == "Tool"))),
        other => panic!("expected the agent list, got {other:?}"),
    }

    let prompt = planner_json_system_prompt();
    assert!(prompt.contains("只输出一个 JSON 对象"));
    assert!(prompt.contains("steps"));
}

#[test]
fn planner_schema_text_has_sorted_keys() {
    let schema_text = to_json_text(&planner_plan_json_schema());
    assert!(schema_text.starts_with(r#"{"additionalProperties":false,"properties":{"goal":{"description":"#));
    assert!(schema_text.ends_with(r#""required":["steps"],"type":"object"}"#));
    assert!(planner_json_system_prompt().ends_with(&schema_text));
}

#[test]
fn planner_user_prompt_shows_context_or_null() {
    let prompt = build_planner_llm_user_prompt("实现功能", &JsonValue::Null, "ignored");
    assert_eq!(prompt, "用户目标:\n实现功能\n\n项目上下文 JSON:\nnull\n\n请生成适合当前多 Agent 系统执行的计划。");
    let context = obj(vec![("projectPlanningContext", obj(vec![("name", text("demo"))]))]);
    let prompt = build_planner_llm_user_prompt("实现功能", &context, "{\n  \"projectPlanningContext\": {}\n}");
    assert!(prompt.contains("projectPlanningContext"));
}

#[test]
fn planner_switches_read_their_text() {
    assert!(planner_llm_enabled(Some(" TRUE ")));
    assert!(planner_llm_enabled(Some("on")));
    assert!(!planner_llm_enabled(Some("off")));
    assert!(!planner_llm_enabled(None));
    assert_eq!(default_planner_llm_provider(Some("sk-x")), "openai");
    assert_eq!(default_planner_llm_provider(Some("  ")), "deepseek");
    assert_eq!(default_planner_llm_provider(None), "deepseek");
}

#[test]
fn planner_retry_count_is_clamped() {
    assert_eq!(planner_llm_retry_count(None), 1);
    assert_eq!(planner_llm_retry_count(Some(" 2 ")), 2);
    assert_eq!(planner_llm_retry_count(Some("0")), 1);
    assert_eq!(planner_llm_retry_count(Some("+9")), 3);
    assert_eq!(planner_llm_retry_count(Some("two")), 1);
    assert_eq!(planner_llm_retry_count(Some("99999999999999999999999")), 1);
    assert_eq!(parse_usize("42"), Some(42));
    assert_eq!(parse_usize("+"), None);
    assert_eq!(parse_usize("-1"), None);
    assert_eq!(parse_usize(&usize::MAX.to_string()), Some(usize::MAX));
}

#[test]
fn request_planner_settings_build_a_client() {
    let context = obj(vec![(
        "plannerLlmSettings",
        obj(vec![
            ("apiKey", text("sk-request")),
            ("model", text("custom-model")),
            ("apiBaseUrl", text("https://example.com/v1")),
            ("maxTokens", JsonValue::Int(2048)),
        ]),
    )]);

    let settings = planner_llm_settings(&context).unwrap();
    let client = planner_llm_client(&settings);

    assert_eq!(client.api_key(), Some("sk-request"));
    assert_eq!(client.model(), "custom-model");
    assert_eq!(client.endpoint(), "https://example.com/v1/chat/completions");
    assert_eq!(settings.max_tokens, Some(2048));

    assert!(planner_llm_settings(&obj(vec![("plannerLlmSettings", obj(vec![("apiKey", text(" "))]))])).is_none());
    let no_limit = planner_llm_settings(&obj(vec![(
        "plannerLlmSettings",
        obj(vec![("apiKey", text("k")), ("maxTokens", JsonValue::Int(0))]),
    )]))
    .unwrap();
    assert_eq!(no_limit.max_tokens, None);
    assert_eq!(no_limit.model, None);
}

#[test]
fn openai_compatible_client_drops_trailing_slashes() {
    let client = LLMClient::openai_compatible("k".to_string(), None, Some("https://host/v1//".to_string()));
    assert_eq!(client.endpoint(), "https://host/v1/chat/completions");
    assert_eq!(client.model(), "gpt-4o");
    let default = LLMClient::openai_compatible("k".to_string(), None, None);
    assert_eq!(default.endpoint(), "https://api.openai.com/v1/chat/completions");
}

#[test]
fn plan_created_text_counts_steps() {
    assert_eq!(plan_created_text(3), "已为任务创建计划，共 3 个步骤");
}

#[test]
fn executor_chooses_its_action() {
    assert_eq!(choose_executor_action("http_request", "搜索"), ExecutorAction::Http);
    assert_eq!(choose_executor_action("task", "帮我搜索新闻"), ExecutorAction::Search);
    assert_eq!(choose_executor_action("task", "run a search"), ExecutorAction::Search);
    assert_eq!(choose_executor_action("task", "整理文档"), ExecutorAction::Direct);
}

#[test]
fn executor_results_and_replies() {
    let done = direct_result("整理文档", 5);
    assert!(done.success);
    assert_eq!(done.output, "已执行: 整理文档");

    let search = mock_search_result("rust", 200);
    assert!(search.output.starts_with("[模拟搜索结果] 关于 'rust' 的搜索结果："));
    assert!(search.output.ends_with("3. 相关文章 C — 摘要信息"));

    let ok = http_result(200, "200 OK", "hello", 7);
    assert!(ok.success);
    assert_eq!(ok.output, "HTTP 200 OK: hello");
    assert_eq!(ok.error, None);
    let missing = http_result(404, "404 Not Found", "", 7);
    assert!(!missing.success);
    assert_eq!(missing.error.as_deref(), Some("HTTP 状态码: 404 Not Found"));

    let (reply, context) = execution_reply(&ExecutionResult {
        success: true,
        output: "x".to_string(),
        duration_ms: 3,
        error: None,
    });
    assert_eq!(reply, "执行完成: x");
    assert_eq!(to_json_text(&context), r#"{"success":true,"output":"x","duration_ms":3,"error":null}"#);

    assert_eq!(execution_error_reply(&http_send_error("timeout")), "执行失败: Agent 内部错误: HTTP 请求失败: timeout");
}

#[test]
fn executor_plans_http_requests() {
    let get = plan_http_request(&obj(vec![("url", text("https://a"))])).unwrap();
    assert_eq!(get.method, HttpMethod::Get);
    assert_eq!(get.url, "https://a");
    assert!(matches!(get.body, JsonValue::Null));

    let post = plan_http_request(&obj(vec![
        ("url", text("https://a")),
        ("method", text("POST")),
        ("body", obj(vec![("x", JsonValue::Int(1))])),
    ]))
    .unwrap();
    assert_eq!(post.method, HttpMethod::Post);
    assert_eq!(to_json_text(&post.body), r#"{"x":1}"#);

    match plan_http_request(&JsonValue::Null) {
        Err(AgentError::MessageFormat(m)) => assert_eq!(m, "缺少 URL 参数"),
        other => panic!("unexpected {other:?}"),
    }
    match plan_http_request(&obj(vec![("url", text("https://a")), ("method", text("PUT"))])) {
        Err(AgentError::Internal(m)) => assert_eq!(m, "不支持的 HTTP 方法: PUT"),
        other => panic!("unexpected {other:?}"),
    }
}

#[test]
fn tool_agent_selects_tools_by_instruction() {
    assert_eq!(select_tool_name(&obj(vec![("tool", text("datetime"))]), "计算 1+1"), "datetime");
    assert_eq!(select_tool_name(&JsonValue::Null, "计算 1+1"), "calculator");
    assert_eq!(select_tool_name(&JsonValue::Null, "现在的时间"), "datetime");
    assert_eq!(select_tool_name(&JsonValue::Null, "search rust"), "web_search");
    assert_eq!(select_tool_name(&JsonValue::Null, "读取文件 README.md"), "file_read");
    assert_eq!(select_tool_name(&JsonValue::Null, "你好"), "calculator");
}

#[test]
fn tool_agent_fills_default_arguments() {
    let args = default_tool_args("calculator", "1 + 2");
    assert_eq!(str_at(&args, "expression"), Some("1 + 2"));
    assert_eq!(str_at(&args, "query"), Some("1 + 2"));
    let args = default_tool_args("file_read", "读取文件 README.md");
    assert_eq!(str_at(&args, "path"), Some("README.md"));
    let args = default_tool_args("file_read", "读取文件");
    assert_eq!(to_json_text(&args), "{}");
    let explicit = tool_call_args(&obj(vec![("args", obj(vec![("q", text("x"))]))]), "web_search", "ignored");
    assert_eq!(str_at(&explicit, "q"), Some("x"));
}

#[test]
fn tool_invocation_input_reads_ids_from_context() {
    let context = obj(vec![("stepId", text(" step-1 ")), ("toolApprovalId", text("  "))]);
    let task_id = "task-1".to_string();
    let input = tool_invocation_input(Some(&task_id), &context, "calculator", JsonValue::Null, true, None, 4);
    assert_eq!(input.task_id.as_deref(), Some("task-1"));
    assert_eq!(input.step_id.as_deref(), Some("step-1"));
    assert_eq!(input.approval_id, None);
    assert_eq!(input.tool_name, "calculator");
    assert_eq!(json_string_field(&context, "missing"), None);
}

#[test]
fn tool_replies_show_result_or_error() {
    let audit = "audit-1".to_string();
    let (reply, context) = tool_result_reply("calculator", &obj(vec![("result", JsonValue::Int(3))]), Some(&audit));
    assert_eq!(reply, r#"工具 [calculator] 执行结果: {"result":3}"#);
    assert_eq!(str_at(&context, "toolInvocationId"), Some("audit-1"));

    let err = tool_not_found_error("missing");
    let (reply, context) = tool_error_reply("missing", &err, None);
    assert_eq!(reply, "工具调用失败: 工具未找到: 工具 'missing' 未注册");
    assert!(matches!(context.get("toolInvocationId"), Some(JsonValue::Null)));
    match tool_failed_error("calculator", "除以零") {
        AgentError::Tool(m) => assert_eq!(m, "工具 'calculator' 调用失败: 除以零"),
        other => panic!("unexpected {other:?}"),
    }
}

#[test]
fn builtin_tool_catalog_lists_four_tools() {
    let tools = builtin_tool_descriptions();
    let names: Vec<&str> = tools.iter().map(|t| t.name.as_str()).collect();
    assert_eq!(names, vec!["calculator", "datetime", "file_read", "web_search"]);
    assert_eq!(
        to_json_text(&tools[0].parameters),
        r#"{"properties":{"expression":{"description":"数学表达式，如 '2 + 3 * 4'","type":"string"}},"required":["expression"],"type":"object"}"#
    );
    assert!(!to_json_text(&tools[1].parameters).contains("required"));
}

#[test]
fn builtin_tool_answers() {
    assert_eq!(datetime_format(&obj(vec![("format", text("readable"))])), DatetimeFormat::Readable);
    assert_eq!(datetime_format(&JsonValue::Null), DatetimeFormat::Iso);
    assert_eq!(to_json_text(&datetime_result("now".to_string())), r#"{"datetime":"now","timezone":"UTC"}"#);
    assert_eq!(required_str_arg(&JsonValue::Null, "path"), Err("缺少 path 参数".to_string()));
    let found = web_search_result(&obj(vec![("query", text("rust")), ("max_results", JsonValue::Int(3))])).unwrap();
    assert!(to_json_text(&found).contains("[模拟] 关于 'rust' 的搜索结果（共 3 条）"));
    assert_eq!(web_search_result(&JsonValue::Null).unwrap_err(), "缺少 query 参数");
    assert_eq!(to_json_text(&file_read_result("x".to_string(), "a.txt".to_string(), 1)), r#"{"content":"x","path":"a.txt","size":1}"#);
}
