//! The messages exchanged between the chat client and the server over the
//! WebSocket, and the server's decisions on each client message.
//!
//! The server's connection loop reads frames and runs the agent; what it
//! does for each message is decided here, as a list of effects for the loop
//! to carry out.
use vstd::prelude::*;
use crate::config::{Config, display_url_spec};
use crate::text::{copy_string, push_str_chars, chars_to_string};
use crate::types::AgentEvent;

verus! {

/// A message from the client.
#[derive(Clone, Debug)]
pub enum ClientMessage {
    SendMessage { text: String },
    StopGeneration,
    ClearChat,
    SaveSession,
    SetApiKey { key: String },
    Ping,
}

/// A message from the server.
#[derive(Clone, Debug)]
pub enum ServerMessage {
    Text { content: String },
    ToolStart { name: String, args: String },
    ToolResult { name: String, result: String },
    Usage { prompt: i32, completion: i32, total: i32 },
    Done,
    Error { message: String },
    SessionSaved { path: String },
    ChatCleared,
    ConfigStatus { needs_api_key: bool, model: String, service: String, deneb_status: String },
    Pong,
}

/// The server message that reports an agent event.
pub open spec fn server_message_of(evt: AgentEvent) -> ServerMessage {
    match evt {
        AgentEvent::Text(content) => ServerMessage::Text { content },
        AgentEvent::ToolStart { name, args } => ServerMessage::ToolStart { name, args },
        AgentEvent::ToolResult { name, result } => ServerMessage::ToolResult { name, result },
        AgentEvent::Usage { prompt, completion, total } => ServerMessage::Usage {
            prompt,
            completion,
            total,
        },
        AgentEvent::Done => ServerMessage::Done,
        AgentEvent::Error(message) => ServerMessage::Error { message },
    }
}

/// The server message that reports an agent event to the client.
pub fn agent_event_to_server_message(evt: AgentEvent) -> (r: ServerMessage)
    ensures
        r == server_message_of(evt),
{
    match evt {
        AgentEvent::Text(content) => ServerMessage::Text { content },
        AgentEvent::ToolStart { name, args } => ServerMessage::ToolStart { name, args },
        AgentEvent::ToolResult { name, result } => ServerMessage::ToolResult { name, result },
        AgentEvent::Usage { prompt, completion, total } => ServerMessage::Usage {
            prompt,
            completion,
            total,
        },
        AgentEvent::Done => ServerMessage::Done,
        AgentEvent::Error(message) => ServerMessage::Error { message },
    }
}

/// The status of the memory service as shown to the user: empty when none is
/// configured, "연결됨" when its health check answered `ok`, "연결 실패"
/// otherwise.
pub open spec fn deneb_status_spec(configured: bool, healthy: bool) -> Seq<char> {
    if !configured {
        seq![]
    } else if healthy {
        "연결됨"@
    } else {
        "연결 실패"@
    }
}

/// The status of the memory service after its health check.
pub fn deneb_status(configured: bool, healthy: bool) -> (r: String)
    ensures
        r@ == deneb_status_spec(configured, healthy),
{
    if !configured {
        String::new()
    } else if healthy {
        copy_string("연결됨")
    } else {
        copy_string("연결 실패")
    }
}

/// The configuration report sent when a connection opens or a key is set.
pub open spec fn is_config_status(
    m: ServerMessage,
    config: Option<Config>,
    deneb_status: Seq<char>,
) -> bool {
    match m {
        ServerMessage::ConfigStatus { needs_api_key, model, service, deneb_status: d } => match config {
            Some(c) => {
                &&& !needs_api_key
                &&& model@ == c.model@
                &&& service@ == display_url_spec(c.base_url@)
                &&& d@ == deneb_status
            },
            None => {
                &&& needs_api_key
                &&& model@ == Seq::<char>::empty()
                &&& service@ == Seq::<char>::empty()
                &&& d@ == Seq::<char>::empty()
            },
        },
        _ => false,
    }
}

/// The configuration report: the model and service of the configuration, or
/// a request for an API key when there is none.
pub fn config_status(config: Option<&Config>, deneb_status: String) -> (r: ServerMessage)
    ensures
        is_config_status(
            r,
            match config {
                Some(c) => Some(*c),
                None => None,
            },
            if config is Some {
                deneb_status@
            } else {
                Seq::empty()
            },
        ),
{
    match config {
        Some(c) => ServerMessage::ConfigStatus {
            needs_api_key: false,
            model: copy_string(c.model.as_str()),
            service: c.display_url(),
            deneb_status,
        },
        None => ServerMessage::ConfigStatus {
            needs_api_key: true,
            model: String::new(),
            service: String::new(),
            deneb_status: String::new(),
        },
    }
}

/// One thing the connection loop does on behalf of a client message.
pub enum WsEffect {
    /// Install a fresh cancellation token for the next run.
    ResetCancel,
    /// Cancel the running generation.
    Cancel,
    /// Send a message to the client.
    Send(ServerMessage),
    /// Run the agent on a user message, in the background.
    RunAgent(String),
    /// Clear the agent's conversation.
    ClearAgent,
    /// Export the conversation and save it to a session file.
    SaveSession,
    /// Save a configuration with this API key and rebuild the agent.
    Configure(String),
}

/// The error sent when a message needs an agent and there is none yet.
pub open spec fn no_key_error() -> Seq<char> {
    "API 키를 먼저 설정하세요"@
}

/// The error sent when a session is saved before an agent exists.
pub open spec fn no_agent_error() -> Seq<char> {
    "에이전트가 초기화되지 않았습니다"@
}

/// Whether `e` sends an error message with this text.
pub open spec fn sends_error(e: WsEffect, text: Seq<char>) -> bool {
    e matches WsEffect::Send(ServerMessage::Error { message }) && message@ == text
}

/// What the server does for a client message, given whether an agent has
/// been built (that is, whether an API key is configured).
pub open spec fn effects_ok(msg: ClientMessage, agent_ready: bool, r: Seq<WsEffect>) -> bool {
    match msg {
        ClientMessage::SendMessage { text } => {
            &&& r.len() == 2
            &&& r[0] is ResetCancel
            &&& if agent_ready {
                r[1] matches WsEffect::RunAgent(t) && t@ == text@
            } else {
                sends_error(r[1], no_key_error())
            }
        },
        ClientMessage::StopGeneration => {
            &&& r.len() == 2
            &&& r[0] is Cancel
            &&& r[1] matches WsEffect::Send(m) && m is Done
        },
        ClientMessage::ClearChat => if agent_ready {
            &&& r.len() == 2
            &&& r[0] is ClearAgent
            &&& r[1] matches WsEffect::Send(m) && m is ChatCleared
        } else {
            &&& r.len() == 1
            &&& r[0] matches WsEffect::Send(m) && m is ChatCleared
        },
        ClientMessage::SaveSession => {
            &&& r.len() == 1
            &&& if agent_ready {
                r[0] is SaveSession
            } else {
                sends_error(r[0], no_agent_error())
            }
        },
        ClientMessage::SetApiKey { key } => {
            &&& r.len() == 1
            &&& r[0] matches WsEffect::Configure(k) && k@ == key@
        },
        ClientMessage::Ping => {
            &&& r.len() == 1
            &&& r[0] matches WsEffect::Send(m) && m is Pong
        },
    }
}

fn error_message(text: &str) -> (r: ServerMessage)
    ensures
        r matches ServerMessage::Error { message } && message@ == text@,
{
    ServerMessage::Error { message: copy_string(text) }
}

/// The effects of one client message.
pub fn handle_client_message(msg: ClientMessage, agent_ready: bool) -> (r: Vec<WsEffect>)
    ensures
        effects_ok(msg, agent_ready, r@),
{
    let mut r: Vec<WsEffect> = Vec::new();
    match msg {
        ClientMessage::SendMessage { text } => {
            r.push(WsEffect::ResetCancel);
            if agent_ready {
                r.push(WsEffect::RunAgent(text));
            } else {
                r.push(WsEffect::Send(error_message("API 키를 먼저 설정하세요")));
            }
        },
        ClientMessage::StopGeneration => {
            r.push(WsEffect::Cancel);
            r.push(WsEffect::Send(ServerMessage::Done));
        },
        ClientMessage::ClearChat => {
            if agent_ready {
                r.push(WsEffect::ClearAgent);
            }
            r.push(WsEffect::Send(ServerMessage::ChatCleared));
        },
        ClientMessage::SaveSession => {
            if agent_ready {
                r.push(WsEffect::SaveSession);
            } else {
                r.push(WsEffect::Send(error_message("에이전트가 초기화되지 않았습니다")));
            }
        },
        ClientMessage::SetApiKey { key } => {
            r.push(WsEffect::Configure(key));
        },
        ClientMessage::Ping => {
            r.push(WsEffect::Send(ServerMessage::Pong));
        },
    }
    r
}

/// A frame received on the WebSocket.
pub enum WsFrame {
    Text(String),
    Close,
    Ping,
    Other,
}

/// What the connection loop does with a frame before any message is parsed.
pub enum FrameAction {
    /// Parse the text as a client message.
    Parse(String),
    /// Stop reading: the client closed the connection.
    Stop,
    /// Answer with this message and read on.
    Reply(ServerMessage),
    /// Ignore the frame.
    Skip,
}

/// A text frame is parsed, a close frame ends the connection, a ping is
/// answered with `Pong`, anything else is ignored.
pub fn classify_frame(frame: WsFrame) -> (r: FrameAction)
    ensures
        match frame {
            WsFrame::Text(t) => r matches FrameAction::Parse(u) && u == t,
            WsFrame::Close => r is Stop,
            WsFrame::Ping => r matches FrameAction::Reply(m) && m is Pong,
            WsFrame::Other => r is Skip,
        },
{
    match frame {
        WsFrame::Text(t) => FrameAction::Parse(t),
        WsFrame::Close => FrameAction::Stop,
        WsFrame::Ping => FrameAction::Reply(ServerMessage::Pong),
        WsFrame::Other => FrameAction::Skip,
    }
}

fn prefixed(prefix: &str, rest: &str) -> (r: String)
    ensures
        r@ == prefix@ + rest@,
{
    let mut v: Vec<char> = Vec::new();
    push_str_chars(&mut v, prefix);
    push_str_chars(&mut v, rest);
    chars_to_string(v.as_slice())
}

/// The error answered to a frame that is not a valid client message.
pub fn invalid_message(parse_error: &str) -> (r: ServerMessage)
    ensures
        r matches ServerMessage::Error { message } && message@ == "Invalid message: "@
            + parse_error@,
{
    ServerMessage::Error { message: prefixed("Invalid message: ", parse_error) }
}

/// The answer to a session save: the path of the file, or the error.
pub fn session_saved(outcome: Result<String, String>) -> (r: ServerMessage)
    ensures
        match outcome {
            Ok(path) => r matches ServerMessage::SessionSaved { path: p } && p == path,
            Err(e) => r matches ServerMessage::Error { message } && message == e,
        },
{
    match outcome {
        Ok(path) => ServerMessage::SessionSaved { path },
        Err(e) => ServerMessage::Error { message: e },
    }
}

/// The answer to a failed attempt to save a new API key.
pub fn key_save_failed(error: &str) -> (r: ServerMessage)
    ensures
        r matches ServerMessage::Error { message } && message@ == "저장 실패: "@ + error@,
{
    ServerMessage::Error { message: prefixed("저장 실패: ", error) }
}

/// The message sent when an agent run ends: nothing on success (the agent
/// reported its own events), the error otherwise.
pub fn run_finished(outcome: Result<(), String>) -> (r: Option<ServerMessage>)
    ensures
        match outcome {
            Ok(()) => r is None,
            Err(e) => r matches Some(ServerMessage::Error { message }) && message == e,
        },
{
    match outcome {
        Ok(()) => None,
        Err(e) => Some(ServerMessage::Error { message: e }),
    }
}

} // verus!
