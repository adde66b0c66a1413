//! Chat history records.
use vstd::prelude::*;

verus! {

/// One chat message stored for a frontend session.
#[derive(Debug, Clone, PartialEq, Eq)]
pub struct ChatMessage {
    pub id: String,
    pub session_id: String,
    pub role: String,
    pub content: String,
    pub timestamp: String,
    pub sender_name: Option<String>,
}

} // verus!
