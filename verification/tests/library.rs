use multi_agent::agents::{first_line, summarize_text, CoderAgent, EchoAgent, PlannerAgent, TesterAgent};
use multi_agent::audit::{is_sensitive_key, summarize_tool_args, truncate_text, MAX_TEXT_CHARS};
use multi_agent::context::{merge_message_context, merge_reply_context};
use multi_agent::error::AgentError;
use multi_agent::json::JsonValue;
use multi_agent::llm::{ChatMessage, LLMClient, LLMProvider, Role};
use multi_agent::patch::{CreatePatchProposalRequest, PatchFileInput, PatchProposalStatus};
use multi_agent::patching::{
    build_patch_proposal, byte_len_exceeds, finish_patch_apply, is_blocked_path, normalize_rel_path,
    plan_patch_apply, validate_content_size, ApplyStep, CurrentFile, ResolvedFile,
};
use multi_agent::project::{
    detect_docs, detect_web_stack, finish_tech_stack, select_search_query, sort_dedup_names,
    summarize_cargo_manifest, summarize_package_manifest, summarize_tauri_config, ProjectSnapshot,
};
use multi_agent::workspace::{
    is_blocked_file, is_searchable_text_file, plan_search, search_file_lines, should_skip_path, trim_preview,
};

fn obj(fields: Vec<(&str, JsonValue)>) -> JsonValue {
    JsonValue::Object(fields.into_iter().map(|(k, v)| (k.to_string(), v)).collect())
}

fn text(s: &str) -> JsonValue {
    JsonValue::Str(s.to_string())
}

fn str_at<'a>(v: &'a JsonValue, key: &str) -> Option<&'a str> {
    match v.get(key) {
        Some(JsonValue::Str(s)) => Some(s.as_str()),
        _ => None,
    }
}

// ---------------------------------------------------------------- llm

fn user(content: &str) -> ChatMessage {
    ChatMessage { role: Role::User, content: content.to_string() }
}

#[test]
fn mock_completion_echoes_last_message() {
    let client = LLMClient::mock();
    let messages = vec![user("第一轮"), ChatMessage { role: Role::Assistant, content: "回复".to_string() }, user("第二轮提问")];
    let response = client.complete(&messages).unwrap();
    assert_eq!(response.content, "[Mock LLM 响应] 已收到您的消息: \"第二轮提问\"");
    assert_eq!(response.tokens_used, Some(42));
    assert_eq!(response.model, "mock-model");
    assert!(!response.truncated);
}

#[test]
fn non_mock_provider_reports_unavailable() {
    let client = LLMClient::new(LLMProvider::LlamaCpp, "http://localhost:8080".to_string(), None, "llama3".to_string());
    match client.complete(&vec![user("hello")]) {
        Err(AgentError::LlmError(m)) => {
            assert!(m.contains("尚未实现"));
            assert!(m.ends_with("提供者: LlamaCpp，端点: http://localhost:8080"));
        },
        other => panic!("unexpected: {other:?}"),
    }
    let custom = LLMClient::new(LLMProvider::Custom("https://my-api.com/llm".to_string()), "e".to_string(), None, "m".to_string());
    let err = custom.complete(&vec![]).unwrap_err();
    assert!(err.message().contains("Custom(\"https://my-api.com/llm\")"));
}

#[test]
fn deepseek_client_custom_model() {
    let client = LLMClient::deepseek("k".to_string(), Some("deepseek-chat".to_string()));
    assert_eq!(client.model(), "deepseek-chat");
    assert_eq!(LLMClient::mock().api_key(), None);
    assert_eq!(LLMClient::mock().endpoint(), "");
}

// ---------------------------------------------------------------- agents

#[test]
fn echo_agent_counts_messages() {
    let mut agent = EchoAgent::new();
    assert_eq!(agent.echo("你好，世界"), "[Echo #1] 你好，世界");
    assert_eq!(agent.echo(""), "[Echo #2] ");
    assert_eq!(agent.name(), "Echo");
    assert_eq!(agent.capabilities()[0].name, "chat");
}

#[test]
fn agents_declare_their_capabilities() {
    assert_eq!(CoderAgent::new().capabilities()[0].name, "coding");
    assert_eq!(TesterAgent::new().capabilities()[0].name, "testing");
    let planner = PlannerAgent::new();
    assert!(planner.llm_client().is_none());
    assert_eq!(planner.capabilities()[0].name, "planning");
    let with_llm = PlannerAgent::with_llm_client(LLMClient::mock());
    assert_eq!(with_llm.llm_client().unwrap().model(), "mock-model");
}

#[test]
fn summaries_collapse_whitespace_and_clip() {
    assert_eq!(summarize_text("  a \n b\t c  ", 160), "a b c");
    assert_eq!(summarize_text("abcdef", 3), "abc...");
    assert_eq!(first_line("\n第二行"), "无摘要");
    assert_eq!(first_line("  标题  \r\n正文"), "标题");
    assert_eq!(first_line(&"x".repeat(200)).chars().count(), 160);
}

// ---------------------------------------------------------------- workspace

fn parts(p: &[&str]) -> Vec<String> {
    p.iter().map(|s| s.to_string()).collect()
}

#[test]
fn workspace_filters_paths_and_files() {
    assert!(should_skip_path(&parts(&["src-web", "node_modules", "react"])));
    assert!(!should_skip_path(&parts(&["src-web", "src", "App.tsx"])));
    assert!(is_blocked_file(Some(".ENV")));
    assert!(is_blocked_file(Some("My_Secret.txt")));
    assert!(is_blocked_file(Some("server.PEM")));
    assert!(!is_blocked_file(Some("README.md")));
    assert!(!is_blocked_file(None));
    assert!(is_searchable_text_file(Some("RS"), 10));
    assert!(!is_searchable_text_file(Some("png"), 10));
    assert!(!is_searchable_text_file(Some("md"), 262_145));
}

#[test]
fn search_finds_lines_case_insensitively() {
    let plan = plan_search("  Agent ", Some(0)).unwrap();
    assert_eq!(plan.query, "Agent");
    assert_eq!(plan.needle, "agent");
    assert_eq!(plan.limit, 1);
    assert!(matches!(plan_search("   ", None), Err(AgentError::MessageFormat(m)) if m == "搜索关键词不能为空"));

    let mut matches = Vec::new();
    search_file_lines("README.md", "# 多 Agent\nno match\n  the AGENT runtime  \n", "agent", 10, &mut matches);
    assert_eq!(matches.len(), 2);
    assert_eq!(matches[0].line, 1);
    assert_eq!(matches[0].column, 5);
    assert_eq!(matches[1].line, 3);
    assert_eq!(matches[1].column, 7);
    assert_eq!(matches[1].preview, "the AGENT runtime");

    let mut limited = Vec::new();
    search_file_lines("a.rs", "agent\nagent\nagent\n", "agent", 2, &mut limited);
    assert_eq!(limited.len(), 2);
}

#[test]
fn previews_are_trimmed_and_clipped() {
    assert_eq!(trim_preview("  short  "), "short");
    let long = "y".repeat(200);
    let p = trim_preview(&long);
    assert!(p.ends_with("..."));
    assert_eq!(p.chars().count(), 183);
}

// ---------------------------------------------------------------- patches

#[test]
fn build_patch_proposal_rejects_parent_traversal() {
    let input = CreatePatchProposalRequest {
        summary: "bad".to_string(),
        files: vec![PatchFileInput {
            path: "../README.md".to_string(),
            old_content: "old".to_string(),
            new_content: "new".to_string(),
        }],
        task_id: None,
        step_id: None,
        requested_by: None,
    };
    let resolved = input
        .files
        .iter()
        .map(|f| normalize_rel_path(&f.path).map(|p| ResolvedFile { path: p, current: Ok(f.old_content.clone()) }))
        .collect();
    let err = build_patch_proposal(input, resolved).unwrap_err();

    assert!(err.message().contains("workspace 外部"));
}

#[test]
fn rel_paths_are_normalized() {
    assert_eq!(normalize_rel_path(" ./src\\\\main.rs ").unwrap(), "src/main.rs");
    assert_eq!(normalize_rel_path("a//b/./c").unwrap(), "a/b/c");
    assert!(normalize_rel_path("/etc/passwd").unwrap_err().message().contains("workspace 外部"));
    assert!(normalize_rel_path("a/../../b").unwrap_err().message().contains("workspace 外部"));
    assert!(normalize_rel_path("   ").unwrap_err().message().contains("补丁文件路径不能为空"));
    assert!(normalize_rel_path("./.").unwrap_err().message().contains("补丁文件路径不能为空"));
}

#[test]
fn byte_sizes_follow_utf8() {
    assert!(!byte_len_exceeds("ab", 2));
    assert!(byte_len_exceeds("abc", 2));
    assert!(byte_len_exceeds("你", 2));
    assert!(!byte_len_exceeds("你", 3));
    assert!(validate_content_size("原始内容", &"a".repeat(131_072)).is_ok());
    let err = validate_content_size("原始内容", &"a".repeat(131_073)).unwrap_err();
    assert_eq!(err.message(), "消息格式错误: 原始内容超过大小限制 131072 bytes");
    assert!(is_blocked_path(&parts(&["src", "Target", "x.rs"]), Some("x.rs")));
    assert!(is_blocked_path(&parts(&["src", "api.key"]), Some("api.key")));
    assert!(!is_blocked_path(&parts(&["src", "main.rs"]), Some("main.rs")));
}

fn request(files: Vec<(&str, &str, &str)>) -> CreatePatchProposalRequest {
    CreatePatchProposalRequest {
        summary: "  更新文件 ".to_string(),
        files: files
            .into_iter()
            .map(|(p, o, n)| PatchFileInput { path: p.to_string(), old_content: o.to_string(), new_content: n.to_string() })
            .collect(),
        task_id: Some(" task-1 ".to_string()),
        step_id: Some("  ".to_string()),
        requested_by: None,
    }
}

#[test]
fn build_patch_proposal_checks_files_in_order() {
    let ok = build_patch_proposal(
        request(vec![("a.txt", "one\n", "two\n"), ("b.txt", "x\n", "y\n")]),
        vec![
            Ok(ResolvedFile { path: "a.txt".to_string(), current: Ok("one\n".to_string()) }),
            Ok(ResolvedFile { path: "b.txt".to_string(), current: Ok("x\n".to_string()) }),
        ],
    )
    .unwrap();
    assert_eq!(ok.summary, "更新文件");
    assert_eq!(ok.status, PatchProposalStatus::Draft);
    assert_eq!(ok.task_id.as_deref(), Some("task-1"));
    assert_eq!(ok.step_id, None);
    assert_eq!(ok.requested_by, "system");
    assert_eq!(ok.files.len(), 2);
    assert_eq!(ok.unified_diff, format!("{}\n{}", ok.files[0].diff, ok.files[1].diff));

    let stale = build_patch_proposal(
        request(vec![("a.txt", "one\n", "two\n")]),
        vec![Ok(ResolvedFile { path: "a.txt".to_string(), current: Ok("changed\n".to_string()) })],
    )
    .unwrap_err();
    assert!(stale.message().contains("当前内容与提案基线不一致"));

    let same = build_patch_proposal(
        request(vec![("a.txt", "one\n", "one\n")]),
        vec![Ok(ResolvedFile { path: "a.txt".to_string(), current: Ok("one\n".to_string()) })],
    )
    .unwrap_err();
    assert!(same.message().contains("没有内容变化"));

    let none = build_patch_proposal(request(vec![]), vec![]).unwrap_err();
    assert!(none.message().contains("至少需要包含一个文件变更"));

    let eleven: Vec<(&str, &str, &str)> = (0..11).map(|_| ("a.txt", "1", "2")).collect();
    let resolved = (0..11).map(|_| Ok(ResolvedFile { path: "a.txt".to_string(), current: Ok("1".to_string()) })).collect();
    let many = build_patch_proposal(request(eleven), resolved).unwrap_err();
    assert!(many.message().contains("最多支持 10 个文件"));

    let mut blank = request(vec![("a.txt", "1", "2")]);
    blank.summary = "  ".to_string();
    let err = build_patch_proposal(blank, vec![Err(AgentError::Internal("unused".to_string()))]).unwrap_err();
    assert!(err.message().contains("补丁摘要不能为空"));
}

#[test]
fn applying_a_patch_checks_baseline_and_is_idempotent() {
    let mut proposal = build_patch_proposal(
        request(vec![("a.txt", "old\n", "new\n")]),
        vec![Ok(ResolvedFile { path: "a.txt".to_string(), current: Ok("old\n".to_string()) })],
    )
    .unwrap();

    let refused = plan_patch_apply(&mut proposal, vec![Ok(CurrentFile { path: "a.txt".to_string(), content: "old\n".to_string() })])
        .unwrap_err();
    assert!(refused.message().contains("当前状态为 Draft，不能应用"));

    proposal.status = PatchProposalStatus::Approved;
    let mismatch =
        plan_patch_apply(&mut proposal, vec![Ok(CurrentFile { path: "a.txt".to_string(), content: "changed\n".to_string() })])
            .unwrap_err();
    assert!(mismatch.message().contains("基线不一致"));
    assert_eq!(proposal.status, PatchProposalStatus::Approved);

    let step = plan_patch_apply(&mut proposal, vec![Ok(CurrentFile { path: "a.txt".to_string(), content: "old\n".to_string() })])
        .unwrap();
    let writes = match step {
        ApplyStep::Write(w) => w,
        other => panic!("unexpected: {other:?}"),
    };
    assert_eq!(writes, vec![("a.txt".to_string(), "new\n".to_string())]);
    let result = finish_patch_apply(&mut proposal, Some(" tester "), vec!["a.txt".to_string()]);
    assert!(!result.already_applied);
    assert_eq!(proposal.status, PatchProposalStatus::Applied);
    assert_eq!(proposal.applied_by.as_deref(), Some("tester"));

    let again = plan_patch_apply(&mut proposal, vec![Ok(CurrentFile { path: "a.txt".to_string(), content: "new\n".to_string() })])
        .unwrap();
    match again {
        ApplyStep::AlreadyApplied(r) => {
            assert!(r.already_applied);
            assert_eq!(r.files, vec!["a.txt".to_string()]);
            assert_eq!(r.applied_at, result.applied_at);
        },
        other => panic!("unexpected: {other:?}"),
    }
}

// ---------------------------------------------------------------- project

fn snapshot() -> ProjectSnapshot {
    ProjectSnapshot {
        root: "/w".to_string(),
        name: "w".to_string(),
        tech_stack: Vec::new(),
        manifests: Vec::new(),
        important_files: Vec::new(),
        recommended_commands: Vec::new(),
        generated_at: 0,
    }
}

#[test]
fn search_query_follows_keywords_then_tokens() {
    assert_eq!(select_search_query("优化项目任务看板"), "Task");
    assert_eq!(select_search_query("修复 README 里的描述"), "readme");
    assert_eq!(select_search_query("改一下 UI"), "Agent");
    assert_eq!(select_search_query("Improve the Orchestrator"), "Orchestrator");
}

#[test]
fn manifests_are_summarized() {
    assert_eq!(summarize_cargo_manifest(Some("app"), None, 3), "package app unknown, 3 dependencies");
    assert_eq!(summarize_tauri_config(None, Some("com.x")), "product unknown, identifier com.x");
    let mut s = snapshot();
    let summary = summarize_package_manifest(
        &mut s,
        Some("web"),
        Some("1.0.0"),
        &parts(&["react", "zustand"]),
        &parts(&["vitest"]),
    );
    assert_eq!(summary, "package web 1.0.0, 2 dependencies, 1 devDependencies");
    assert_eq!(s.tech_stack, parts(&["React", "Zustand", "Vitest"]));
}

#[test]
fn scan_detection_orders_and_dedups_the_stack() {
    let mut s = snapshot();
    detect_web_stack(&mut s, Some("package web".to_string()), true, true);
    detect_docs(&mut s, &vec![true, false, true]);
    s.tech_stack.push("Vite".to_string());
    finish_tech_stack(&mut s);
    assert_eq!(s.tech_stack, parts(&["TypeScript", "Vite"]));
    assert_eq!(s.recommended_commands.len(), 2);
    assert!(s.important_files.iter().any(|f| f.path == "README.md"));
    assert!(!s.important_files.iter().any(|f| f.path == "docs/TECHNICAL_DOCUMENTATION.md"));
    assert_eq!(sort_dedup_names(parts(&["b", "a", "b", "Z"])), parts(&["Z", "a", "b"]));
}

// ---------------------------------------------------------------- audit and context

#[test]
fn summarizes_args_with_redaction_and_limits() {
    let summary = summarize_tool_args(&obj(vec![
        ("query", text("rust agent")),
        ("apiKey", text("sk-secret")),
        ("nested", obj(vec![("authorization", text("Bearer secret"))])),
        ("long", text(&"x".repeat(MAX_TEXT_CHARS + 8))),
    ]));

    assert_eq!(str_at(&summary, "apiKey"), Some("[redacted]"));
    assert_eq!(str_at(summary.get("nested").unwrap(), "authorization"), Some("[redacted]"));
    assert!(str_at(&summary, "long").unwrap().ends_with("[truncated]"));
    assert_eq!(str_at(&summary, "query"), Some("rust agent"));
}

#[test]
fn summaries_cut_arrays_and_deep_values() {
    let items: Vec<JsonValue> = (0..25).map(|i| JsonValue::Int(i)).collect();
    let summary = summarize_tool_args(&obj(vec![("items", JsonValue::Array(items))]));
    match summary.get("items") {
        Some(JsonValue::Array(v)) => {
            assert_eq!(v.len(), 21);
            assert!(matches!(&v[20], JsonValue::Str(s) if s == "[5 more items]"));
        },
        other => panic!("unexpected: {other:?}"),
    }
    let deep = obj(vec![("a", obj(vec![("b", obj(vec![("c", obj(vec![("d", text("x"))]))]))]))]);
    let s = summarize_tool_args(&deep);
    let d = s.get("a").unwrap().get("b").unwrap().get("c").unwrap();
    assert_eq!(str_at(d, "d"), Some("[max depth reached]"));
    assert!(is_sensitive_key("Password"));
    assert!(is_sensitive_key("auth"));
    assert!(!is_sensitive_key("author"));
    assert_eq!(truncate_text("short"), "short");
}

#[test]
fn test_merge_message_context_combines_objects() {
    let merged = merge_message_context(
        obj(vec![("projectPlanningContext", obj(vec![("name", text("demo"))]))]),
        obj(vec![("frontendLlmSettings", obj(vec![("model", text("deepseek-chat"))]))]),
    );

    assert_eq!(str_at(merged.get("projectPlanningContext").unwrap(), "name"), Some("demo"));
    assert_eq!(str_at(merged.get("frontendLlmSettings").unwrap(), "model"), Some("deepseek-chat"));
}

#[test]
fn merging_contexts_handles_null_and_scalars() {
    let kept = merge_message_context(obj(vec![("a", text("1"))]), JsonValue::Null);
    assert_eq!(str_at(&kept, "a"), Some("1"));
    let replaced = merge_message_context(obj(vec![("a", text("1"))]), obj(vec![("a", text("2"))]));
    assert_eq!(str_at(&replaced, "a"), Some("2"));
    let wrapped = merge_message_context(text("x"), JsonValue::Bool(true));
    assert_eq!(str_at(&wrapped, "base"), Some("x"));
    assert!(matches!(wrapped.get("extra"), Some(JsonValue::Bool(true))));
    let reply = merge_reply_context(obj(vec![("taskId", text("t"))]), obj(vec![("success", JsonValue::Bool(true))]));
    assert_eq!(str_at(&reply, "taskId"), Some("t"));
    assert!(matches!(merge_reply_context(text("x"), JsonValue::Null), JsonValue::Null));
}
