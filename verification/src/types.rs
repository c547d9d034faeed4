//! Conversation data exchanged with the chat-completion API and the UI.
use vstd::prelude::*;

verus! {

/// A function call requested by the model.
#[derive(Clone, Debug)]
pub struct FunctionCall {
    pub name: String,
    pub arguments: String,
}

/// A tool call in an assistant message.
#[derive(Clone, Debug)]
pub struct ToolCall {
    pub id: String,
    pub call_type: String,
    pub function: FunctionCall,
    pub index: Option<i32>,
}

/// One chat message: a role (`system`, `user`, `assistant` or `tool`) and its content.
#[derive(Clone, Debug)]
pub struct Message {
    pub role: String,
    pub content: Option<String>,
    pub tool_calls: Option<Vec<ToolCall>>,
    pub tool_call_id: Option<String>,
}

/// What the agent reports to its caller while it runs.
#[derive(Clone, Debug)]
pub enum AgentEvent {
    Text(String),
    ToolStart { name: String, args: String },
    ToolResult { name: String, result: String },
    Usage { prompt: i32, completion: i32, total: i32 },
    Done,
    Error(String),
}

/// What the streaming client reports while a response arrives.
#[derive(Clone, Debug)]
pub enum StreamEvent {
    Text(String),
    Usage { prompt: i32, completion: i32, total: i32 },
}

} // verus!
