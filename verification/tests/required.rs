use multi_agent::agents::{EvolutionAgent, ReviewAgent};
use multi_agent::api::clean_session_id;
use multi_agent::approval::{requires_user_approval, RiskLevel};
use multi_agent::command::{
    decode_output, inspect_project_command_request, prepare_project_command, ProjectCommandRunRequest,
    MAX_OUTPUT_BYTES,
};
use multi_agent::diff::build_unified_diff;
use multi_agent::llm::{LLMClient, LLMProvider, DEFAULT_DEEPSEEK_ENDPOINT, DEFAULT_DEEPSEEK_MODEL};
use multi_agent::project::{build_planning_context, detect_rust_tauri, select_search_query, ProjectSnapshot};
use multi_agent::tooling::parse_readonly_tool_instruction;

#[test]
fn evolution_agent_declares_evolution_capability() {
    let agent = EvolutionAgent::new();
    let caps = agent.capabilities();

    assert_eq!(agent.name(), "Evolution");
    assert!(caps.iter().any(|cap| cap.name == "evolution"));
}

#[test]
fn review_agent_declares_review_capability() {
    let agent = ReviewAgent::new();
    let caps = agent.capabilities();

    assert_eq!(agent.name(), "Review");
    assert_eq!(caps[0].name, "review");
}

#[test]
fn policy_requires_approval_for_medium_and_above() {
    assert!(!requires_user_approval(&RiskLevel::Low));
    assert!(requires_user_approval(&RiskLevel::Medium));
    assert!(requires_user_approval(&RiskLevel::High));
    assert!(requires_user_approval(&RiskLevel::Critical));
}

#[test]
fn test_clean_session_id_defaults_blank_values() {
    assert_eq!(clean_session_id(None), "default");
    assert_eq!(clean_session_id(Some(&"  ".to_string())), "default");
    assert_eq!(clean_session_id(Some(&" session-1 ".to_string())), "session-1");
}

#[test]
fn test_openai_client_creation() {
    let client = LLMClient::openai("sk-test-key".to_string(), None);
    assert_eq!(*client.provider(), LLMProvider::OpenAI);
    assert_eq!(client.model(), "gpt-4o");
}

#[test]
fn test_openai_client_custom_model() {
    let client = LLMClient::openai("sk-custom".to_string(), Some("gpt-4-turbo".to_string()));
    assert_eq!(*client.provider(), LLMProvider::OpenAI);
    assert_eq!(client.model(), "gpt-4-turbo");
}

#[test]
fn test_deepseek_client_defaults() {
    let client = LLMClient::deepseek("sk-test-key".to_string(), None);
    assert_eq!(*client.provider(), LLMProvider::DeepSeek);
    assert_eq!(client.model(), DEFAULT_DEEPSEEK_MODEL);
    assert_eq!(client.endpoint(), DEFAULT_DEEPSEEK_ENDPOINT);
    assert_eq!(client.api_key(), Some("sk-test-key"));
}

#[test]
fn test_mock_client_accessors() {
    let client = LLMClient::mock();
    assert_eq!(*client.provider(), LLMProvider::Mock);
    assert_eq!(client.model(), "mock-model");
}

#[test]
fn test_parse_readonly_tool_instruction() {
    let parsed = parse_readonly_tool_instruction(
        "只读检索相关源码。搜索词: Task。优先关注: src-web/src/components/TaskBoard.tsx, src-tauri/src/orchestrator/mod.rs。",
    )
    .unwrap();

    assert_eq!(parsed.query, "Task");
    assert_eq!(
        parsed.focus_paths,
        vec![
            "src-web/src/components/TaskBoard.tsx".to_string(),
            "src-tauri/src/orchestrator/mod.rs".to_string(),
        ]
    );
}

fn empty_snapshot() -> ProjectSnapshot {
    ProjectSnapshot {
        root: "/workspace".to_string(),
        name: "workspace".to_string(),
        tech_stack: Vec::new(),
        manifests: Vec::new(),
        important_files: Vec::new(),
        recommended_commands: Vec::new(),
        generated_at: 0,
    }
}

#[test]
fn planning_context_includes_snapshot_and_search() {
    let mut snapshot = empty_snapshot();
    detect_rust_tauri(
        &mut snapshot,
        Some("package rust-mutil-agent 0.1.0, 12 dependencies".to_string()),
        Some("product demo, identifier demo".to_string()),
    );
    let goal = "优化项目任务看板";
    let query = select_search_query(goal);
    let context = build_planning_context(snapshot, query, Ok(Vec::new()));
    assert!(context.snapshot.tech_stack.contains(&"Rust".to_string()));
    assert_eq!(context.search_query, "Task");
}

fn request(command: &str, working_dir: &str) -> ProjectCommandRunRequest {
    ProjectCommandRunRequest { command: command.to_string(), working_dir: working_dir.to_string() }
}

#[test]
fn prepares_allowed_rust_command() {
    let prepared = prepare_project_command(&request(" cargo   check ", "src-tauri")).unwrap();
    assert_eq!(prepared.display_command, "cargo check");
    assert_eq!(prepared.display_working_dir, "src-tauri");
    assert_eq!(prepared.spec.args, &["check"]);
}

#[test]
fn prepares_allowed_frontend_command() {
    let prepared = prepare_project_command(&request("npm test -- --run", "src-web")).unwrap();
    assert_eq!(prepared.display_command, "npm test -- --run");
    assert_eq!(prepared.display_working_dir, "src-web");
    assert_eq!(prepared.spec.args, &["test", "--", "--run"]);
}

#[test]
fn rejects_shell_control_characters() {
    let err = prepare_project_command(&request("cargo test && echo bad", "src-tauri")).unwrap_err();
    assert!(err.message().contains("shell 控制字符"));
}

#[test]
fn rejects_unlisted_commands() {
    let err = prepare_project_command(&request("cargo clippy", "src-tauri")).unwrap_err();
    assert!(err.message().contains("允许列表"));
}

#[test]
fn inspects_unlisted_command_without_allowing_execution() {
    let inspection = inspect_project_command_request(&request(" cargo   clippy ", "src-tauri")).unwrap();
    assert_eq!(inspection.command, "cargo clippy");
    assert_eq!(inspection.working_dir, "src-tauri");
    assert!(!inspection.allowed);
}

#[test]
fn rejects_parent_traversal_working_dir() {
    let err = prepare_project_command(&request("cargo test", "../src-tauri")).unwrap_err();
    assert!(err.message().contains("workspace 外部"));
}

#[test]
fn decodes_and_truncates_large_output() {
    let bytes = vec![b'a'; MAX_OUTPUT_BYTES + 4];
    let (text, truncated) = decode_output(&bytes);
    assert!(truncated);
    assert!(text.ends_with("[output truncated]"));
}

#[test]
fn unified_diff_shows_context_and_changes() {
    let diff = build_unified_diff("src/main.rs", "one\ntwo\nthree\nfour\nfive\n", "one\ntwo\nTHREE\nfour\nfive\n");

    assert!(diff.contains("diff --git a/src/main.rs b/src/main.rs"));
    assert!(diff.contains("-three"));
    assert!(diff.contains("+THREE"));
    assert!(diff.contains(" two"));
    assert!(diff.contains(" four"));
}
