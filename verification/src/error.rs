//! The error type shared by the library.
use vstd::prelude::*;

verus! {

/// Errors reported by the task runtime, its stores and its agents. Errors of
/// outside libraries (the database, JSON parsing) arrive as their message.
#[derive(Debug)]
pub enum AgentError {
    Internal(String),
    MessageFormat(String),
    Timeout,
    BusError(String),
    Tool(String),
    ToolNotFound(String),
    Database(String),
    LlmError(String),
    Serialization(String),
}

/// The message shown for an error.
pub open spec fn error_text(e: AgentError) -> Seq<char> {
    match e {
        AgentError::Internal(m) => "Agent 内部错误: "@ + m@,
        AgentError::MessageFormat(m) => "消息格式错误: "@ + m@,
        AgentError::Timeout => "通信超时"@,
        AgentError::BusError(m) => "总线错误: "@ + m@,
        AgentError::Tool(m) => "工具调用错误: "@ + m@,
        AgentError::ToolNotFound(m) => "工具未找到: "@ + m@,
        AgentError::Database(m) => "数据库错误: "@ + m@,
        AgentError::LlmError(m) => "LLM 调用错误: "@ + m@,
        AgentError::Serialization(m) => "序列化错误: "@ + m@,
    }
}

impl AgentError {
    /// The message shown for the error (see `error_text`).
    pub fn message(&self) -> (s: String)
        ensures
            s@ == error_text(*self),
    {
        match self {
            AgentError::Internal(m) => crate::text::concat2("Agent 内部错误: ", m.as_str()),
            AgentError::MessageFormat(m) => crate::text::concat2("消息格式错误: ", m.as_str()),
            AgentError::Timeout => crate::text::own("通信超时"),
            AgentError::BusError(m) => crate::text::concat2("总线错误: ", m.as_str()),
            AgentError::Tool(m) => crate::text::concat2("工具调用错误: ", m.as_str()),
            AgentError::ToolNotFound(m) => crate::text::concat2("工具未找到: ", m.as_str()),
            AgentError::Database(m) => crate::text::concat2("数据库错误: ", m.as_str()),
            AgentError::LlmError(m) => crate::text::concat2("LLM 调用错误: ", m.as_str()),
            AgentError::Serialization(m) => crate::text::concat2("序列化错误: ", m.as_str()),
        }
    }
}

} // verus!
