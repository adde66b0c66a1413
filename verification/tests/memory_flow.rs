use multi_agent::json::JsonValue;
use multi_agent::memory::{
    long_term_budget, memory_action, merge_long_term, retrieval_limit, retrieval_outcome, MemoryAction, MemoryAgent,
    SHORT_TERM_MEMORY_SIZE,
};

fn uint_at(v: &JsonValue, key: &str) -> Option<u64> {
    match v.get(key) {
        Some(JsonValue::UInt(n)) => Some(*n),
        Some(JsonValue::Int(n)) if *n >= 0 => Some(*n as u64),
        _ => None,
    }
}

fn retrieve(agent: &MemoryAgent, query: &str) -> (String, JsonValue) {
    let found = agent.short_term_matches(query, 5);
    retrieval_outcome(found, Vec::new())
}

#[test]
fn test_memory_store_and_retrieve() {
    let mut agent = MemoryAgent::new();
    assert_eq!(memory_action("store"), MemoryAction::Store);
    agent.store_message("User", "今天天气很好");

    assert_eq!(memory_action("query"), MemoryAction::Retrieve);
    let (reply, _) = retrieve(&agent, "天气");
    assert!(reply.contains("天气"));
}

#[test]
fn test_short_term_limit() {
    let mut agent = MemoryAgent::new();
    for i in 0..60 {
        agent.store_message("User", &format!("消息 {i}"));
    }
    let all = agent.recent_turns(usize::MAX);
    assert!(all.len() <= SHORT_TERM_MEMORY_SIZE);
    assert_eq!(all.len(), 50);
    assert_eq!(all[0].content, "消息 10");
    assert_eq!(all[49].content, "消息 59");
}

#[test]
fn test_auto_store_mode() {
    let mut agent = MemoryAgent::new();
    assert_eq!(memory_action("chat"), MemoryAction::AutoStore);
    let (turn, context) = agent.auto_store_message("这是自动存储的消息");
    assert_eq!(turn.role, "user");
    assert_eq!(turn.agent_name, None);
    assert!(!agent.recent_turns(5).is_empty());
    match context.get("recent_conversations") {
        Some(JsonValue::Array(items)) => {
            assert!(matches!(&items[0], JsonValue::Str(s) if s == "[user] 这是自动存储的消息"))
        },
        other => panic!("unexpected {other:?}"),
    }
    assert!(matches!(context.get("session_id"), Some(JsonValue::Str(s)) if s == agent.session_id()));
}

#[test]
fn test_retrieve_no_match() {
    let mut agent = MemoryAgent::new();
    agent.store_message("User", "今天天气真好");
    let (reply, context) = retrieve(&agent, "量子计算");
    assert!(reply.contains("未找到"));
    assert_eq!(uint_at(&context, "count"), Some(0));
}

#[test]
fn test_recall_message_type() {
    let mut agent = MemoryAgent::new();
    agent.store_message("User", "Rust 编程");
    assert_eq!(memory_action("recall"), MemoryAction::Retrieve);
    let (reply, _) = retrieve(&agent, "rust");
    assert!(reply.contains("Rust"));
    assert_eq!(reply, "找到 1 条相关记忆:\n[User] Rust 编程");
}

#[test]
fn test_memory_agent_capabilities() {
    let agent = MemoryAgent::new();
    let caps = agent.capabilities();

    assert_eq!(caps.len(), 2);
    let names: Vec<&str> = caps.iter().map(|c| c.name.as_str()).collect();
    assert!(names.contains(&"memory"));
    assert!(names.contains(&"retrieval"));
    assert_eq!(agent.name(), "Memory");
}

#[test]
fn test_recent_turns_limit() {
    let mut agent = MemoryAgent::new();
    for i in 0..10 {
        agent.store_message("User", &format!("消息{i}"));
    }
    let recent = agent.recent_turns(3);
    assert_eq!(recent.len(), 3);
    assert_eq!(recent[0].content, "消息7");
    assert_eq!(recent[2].content, "消息9");
}

#[test]
fn test_retrieve_message_type() {
    let mut agent = MemoryAgent::new();
    agent.store_message("User", "学习 Rust 编程语言");
    agent.store_message("User", "学习 TypeScript 前端开发");
    assert_eq!(memory_action("retrieve"), MemoryAction::Retrieve);
    let (_, context) = retrieve(&agent, "Rust");
    assert!(uint_at(&context, "count").unwrap() >= 1);
}

#[test]
fn short_term_matches_are_newest_first_and_limited() {
    let mut agent = MemoryAgent::new();
    for i in 0..8 {
        agent.store_message("User", &format!("note {i}"));
    }
    let found = agent.short_term_matches("NOTE", 3);
    assert_eq!(found, vec!["[User] note 7", "[User] note 6", "[User] note 5"]);
}

#[test]
fn long_term_results_join_without_duplicates() {
    let found = vec!["[User] a".to_string()];
    let (reply, context) = retrieval_outcome(
        found,
        vec!["[User] a".to_string(), "[user] b".to_string(), "[user] b".to_string()],
    );
    assert_eq!(reply, "找到 2 条相关记忆:\n[User] a\n[user] b");
    assert_eq!(uint_at(&context, "shortTermCount"), Some(1));
    assert_eq!(uint_at(&context, "longTermCount"), Some(1));

    let mut relevant = Vec::new();
    assert_eq!(merge_long_term(&mut relevant, vec!["x".to_string()]), 1);
    assert_eq!(long_term_budget(2, 5), 3);
    assert_eq!(long_term_budget(5, 5), 0);
}

#[test]
fn retrieval_limit_is_clamped() {
    let ctx = |v: JsonValue| JsonValue::Object(vec![("limit".to_string(), v)]);
    assert_eq!(retrieval_limit(&JsonValue::Null), 5);
    assert_eq!(retrieval_limit(&ctx(JsonValue::Int(0))), 1);
    assert_eq!(retrieval_limit(&ctx(JsonValue::UInt(500))), 50);
    assert_eq!(retrieval_limit(&ctx(JsonValue::Int(-3))), 5);
    assert_eq!(retrieval_limit(&ctx(JsonValue::Int(7))), 7);
}
