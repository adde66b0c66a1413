use multi_agent::json::JsonValue;
use multi_agent::json_text::to_json_text;
use multi_agent::manifest::{
    parse_json_text, parse_toml_text, summarize_cargo_manifest_text, summarize_package_manifest_text,
    summarize_tauri_config_text,
};
use multi_agent::project::ProjectSnapshot;
use multi_agent::sending::{
    build_request_context, build_transient_request_context, plan_send_message, send_message_response,
    user_chat_message, user_message_warning, FrontendLlmSettingsRequest, SendMessageRequest,
};
use multi_agent::error::AgentError;

fn settings_at<'a>(context: &'a JsonValue, outer: &str, key: &str) -> Option<&'a JsonValue> {
    context.get(outer).and_then(|inner| inner.get(key))
}

#[test]
fn test_build_request_context_redacts_api_key() {
    let settings = FrontendLlmSettingsRequest {
        model: Some(" deepseek-chat ".to_string()),
        api_key: Some("sk-secret".to_string()),
        api_base_url: Some(" https://api.deepseek.com/v1 ".to_string()),
        max_tokens: Some(2048),
        temperature: Some("0.3".to_string()),
    };

    let context = build_request_context(Some(&settings));
    let serialized = to_json_text(&context);

    assert!(matches!(settings_at(&context, "frontendLlmSettings", "model"), Some(JsonValue::Str(s)) if s == "deepseek-chat"));
    assert!(matches!(settings_at(&context, "frontendLlmSettings", "hasApiKey"), Some(JsonValue::Bool(true))));
    assert!(!serialized.contains("sk-secret"));
    assert!(serialized.contains("hasApiKey"));
    assert!(serialized.contains(r#""temperature":0.3"#));
}

#[test]
fn test_build_request_context_omits_blank_settings() {
    let settings = FrontendLlmSettingsRequest {
        model: Some("  ".to_string()),
        api_key: Some("  ".to_string()),
        api_base_url: None,
        max_tokens: None,
        temperature: None,
    };

    let context = build_request_context(Some(&settings));
    assert!(matches!(settings_at(&context, "frontendLlmSettings", "model"), Some(JsonValue::Null)));
    assert!(matches!(settings_at(&context, "frontendLlmSettings", "hasApiKey"), Some(JsonValue::Bool(false))));
    assert!(matches!(build_transient_request_context(Some(&settings)), JsonValue::Null));
    assert!(matches!(build_request_context(None), JsonValue::Null));
}

#[test]
fn test_build_transient_request_context_keeps_api_key_out_of_safe_context() {
    let settings = FrontendLlmSettingsRequest {
        model: Some("deepseek-chat".to_string()),
        api_key: Some("sk-request".to_string()),
        api_base_url: Some("https://api.deepseek.com/v1".to_string()),
        max_tokens: Some(1024),
        temperature: Some("0.2".to_string()),
    };

    let safe = build_request_context(Some(&settings));
    let transient = build_transient_request_context(Some(&settings));

    assert!(!to_json_text(&safe).contains("sk-request"));
    assert!(matches!(settings_at(&transient, "plannerLlmSettings", "apiKey"), Some(JsonValue::Str(s)) if s == "sk-request"));
}

fn request(content: &str, agent_id: Option<&str>) -> SendMessageRequest {
    SendMessageRequest {
        content: content.to_string(),
        agent_id: agent_id.map(str::to_string),
        route_mode: None,
        session_id: Some("  ".to_string()),
        llm_settings: None,
    }
}

#[test]
fn send_message_rejects_blank_content() {
    let err = plan_send_message(&request("   ", None)).unwrap_err();
    assert_eq!(err.code, "INVALID_ARGUMENT");
    assert_eq!(err.message, "请输入要发送给 AI 成员的内容。");
    assert!(!err.retryable);
}

#[test]
fn send_message_routes_to_the_planner_by_default() {
    let plan = plan_send_message(&request("  帮我修复测试  ", None)).unwrap();
    assert_eq!(plan.content, "帮我修复测试");
    assert_eq!(plan.session_id, "default");
    assert_eq!(plan.msg_type, "plan_request");
    assert_eq!(plan.meta.runtime_name, "Planner");
    assert!(matches!(plan.request_context, JsonValue::Null));

    let response = send_message_response(&plan, "task-1".to_string(), "t0".to_string(), vec![]);
    assert_eq!(response.status, "accepted");
    assert_eq!(response.task_id, "task-1");
    assert_eq!(response.message.id, "task-1");
    assert_eq!(response.route.mode, "auto");
    assert!(response.message.content.starts_with("✅ 任务已收到"));
    assert!(response.message.content.ends_with("任务编号：task-1"));

    let user = user_chat_message(&plan, "m1".to_string(), "t0".to_string());
    assert_eq!(user.role, "user");
    assert_eq!(user.content, "帮我修复测试");
    assert_eq!(user_message_warning("disk full"), "保存用户消息失败: disk full");
}

#[test]
fn send_message_refuses_unknown_agents() {
    let err = plan_send_message(&request("hi", Some("nobody"))).unwrap_err();
    assert_eq!(err.code, "AGENT_NOT_FOUND");
    assert!(err.retryable);
}

#[test]
fn manifests_are_parsed_and_summarized() {
    let cargo = "[package]\nname = \"demo\"\nversion = \"0.1.0\"\n\n[dependencies]\nserde = \"1\"\ntokio = \"1\"\n";
    assert_eq!(summarize_cargo_manifest_text("Cargo.toml", cargo).unwrap(), "package demo 0.1.0, 2 dependencies");
    match summarize_cargo_manifest_text("Cargo.toml", "[package") {
        Err(AgentError::Internal(m)) => assert!(m.starts_with("解析 TOML 文件失败 [Cargo.toml]: ")),
        other => panic!("unexpected {other:?}"),
    }

    let tauri = r#"{"productName":"Demo","identifier":"com.demo"}"#;
    assert_eq!(summarize_tauri_config_text("tauri.conf.json", tauri).unwrap(), "product Demo, identifier com.demo");
    assert_eq!(summarize_tauri_config_text("t.json", "{}").unwrap(), "product unknown, identifier unknown");

    let mut snapshot = ProjectSnapshot {
        root: ".".to_string(),
        name: "demo".to_string(),
        tech_stack: vec![],
        manifests: vec![],
        important_files: vec![],
        recommended_commands: vec![],
        generated_at: 0,
    };
    let package = r#"{"name":"web","version":"1.0.0","dependencies":{"react":"18","zustand":"4"},"devDependencies":{"vitest":"1"}}"#;
    let summary = summarize_package_manifest_text(&mut snapshot, "package.json", package).unwrap();
    assert_eq!(summary, "package web 1.0.0, 2 dependencies, 1 devDependencies");
    assert_eq!(snapshot.tech_stack, vec!["React", "Zustand", "Vitest"]);
    assert!(summarize_package_manifest_text(&mut snapshot, "package.json", "{").is_err());
    assert_eq!(snapshot.tech_stack.len(), 3);
}

#[test]
fn parsers_keep_numbers_and_tables() {
    let v = parse_json_text(r#"{"b":1.5,"a":[-2,18446744073709551615]}"#).unwrap();
    assert_eq!(to_json_text(&v), r#"{"a":[-2,18446744073709551615],"b":1.5}"#);
    let t = parse_toml_text("x = 1\n[t]\ny = true\n").unwrap();
    assert_eq!(to_json_text(&t), r#"{"t":{"y":true},"x":1}"#);
    assert!(parse_json_text("nope").is_err());
}
