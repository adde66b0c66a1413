use multi_agent::json::JsonValue;
use multi_agent::json_text::to_json_text;
use multi_agent::message::AgentMessage;

fn obj(fields: Vec<(&str, JsonValue)>) -> JsonValue {
    JsonValue::Object(fields.into_iter().map(|(k, v)| (k.to_string(), v)).collect())
}

fn text(s: &str) -> JsonValue {
    JsonValue::Str(s.to_string())
}

#[test]
fn reply_to_preserves_step_context() {
    let msg = AgentMessage::new("Orchestrator", "Executor", "执行步骤")
        .with_context(obj(vec![("taskId", text("task-1")), ("stepId", text("task-1-2"))]));

    let reply = msg.reply_to("完成").with_context(obj(vec![("success", JsonValue::Bool(true))]));

    assert!(matches!(reply.context.get("taskId"), Some(JsonValue::Str(s)) if s == "task-1"));
    assert!(matches!(reply.context.get("stepId"), Some(JsonValue::Str(s)) if s == "task-1-2"));
    assert!(matches!(reply.context.get("success"), Some(JsonValue::Bool(true))));
}

#[test]
fn transient_context_is_not_serialized_or_copied_to_replies() {
    let msg = AgentMessage::new("User", "Planner", "规划任务")
        .with_context(obj(vec![("safe", JsonValue::Bool(true))]))
        .with_transient_context(obj(vec![("plannerLlmSettings", obj(vec![("apiKey", text("sk-secret"))]))]));

    let serialized = to_json_text(&msg.to_json());
    let reply = msg.reply_to("ok");

    assert!(!serialized.contains("sk-secret"));
    assert!(matches!(reply.transient_context, JsonValue::Null));
    assert!(matches!(reply.context.get("safe"), Some(JsonValue::Bool(true))));
}

#[test]
fn test_agent_message_chain_construction() {
    let msg = AgentMessage::new("Alice", "Bob", "你好")
        .with_type("greeting")
        .with_task_id("task-1")
        .with_context(obj(vec![("lang", text("zh"))]));

    assert_eq!(msg.from, "Alice");
    assert_eq!(msg.to, "Bob");
    assert_eq!(msg.msg_type, "greeting");
    assert_eq!(msg.task_id, Some("task-1".to_string()));
    assert!(matches!(msg.context.get("lang"), Some(JsonValue::Str(s)) if s == "zh"));

    let reply = msg.reply_to("你好，Alice！");
    assert_eq!(reply.from, "Bob");
    assert_eq!(reply.to, "Alice");
    assert_eq!(reply.msg_type, "reply");
    assert_eq!(reply.task_id, Some("task-1".to_string()));
    assert_eq!(reply.content, "你好，Alice！");
}

#[test]
fn new_message_is_generic_and_context_is_replaced_by_non_objects() {
    let msg = AgentMessage::new_with_task("A", "B", "c", "t-9");
    assert_eq!(msg.msg_type, "generic");
    assert_eq!(msg.task_id.as_deref(), Some("t-9"));
    let replaced = msg.with_context(obj(vec![("a", JsonValue::Int(1))])).with_context(text("x"));
    assert!(matches!(replaced.context, JsonValue::Str(ref s) if s == "x"));
}
