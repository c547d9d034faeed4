//! The state of a chat window: the list of messages shown, the text that is
//! still streaming in, and the status lines.
//!
//! Both front ends drive it: the desktop application with the agent's events
//! and the thin client with the server's messages. The user interface only
//! mirrors these fields.
use vstd::prelude::*;
use crate::protocol::{ServerMessage, server_message_of};
use crate::text::{
    chars_to_string, concat_strs, copy_string, decimal, join, join_chars, lines, push_all,
    push_decimal, push_signed_decimal, push_str_chars, signed_decimal, split_lines, str_to_chars,
    trim, trim_chars, views, copy_range,
};
use crate::types::AgentEvent;

verus! {

/// One message shown in the chat.
pub struct ChatEntry {
    pub role: String,
    pub content: String,
    pub is_tool: bool,
    pub tool_name: String,
}

/// A chat message as values.
pub struct EntryModel {
    pub role: Seq<char>,
    pub content: Seq<char>,
    pub is_tool: bool,
    pub tool_name: Seq<char>,
}

pub open spec fn entry(role: Seq<char>, content: Seq<char>, is_tool: bool, tool_name: Seq<char>) -> EntryModel {
    EntryModel { role, content, is_tool, tool_name }
}

pub open spec fn entry_model(e: ChatEntry) -> EntryModel {
    entry(e.role@, e.content@, e.is_tool, e.tool_name@)
}

/// The state of a chat window.
pub struct ChatView {
    pub messages: Vec<ChatEntry>,
    /// Text received since the last message was finalized.
    pub pending: String,
    pub streaming_text: String,
    pub is_streaming: bool,
    pub status_text: String,
    pub usage_text: String,
    pub needs_api_key: bool,
    pub model_name: String,
    pub service_name: String,
    pub connection_status: String,
    pub needs_server_url: bool,
}

/// The state of a chat window as values.
pub struct ViewModel {
    pub messages: Seq<EntryModel>,
    pub pending: Seq<char>,
    pub streaming_text: Seq<char>,
    pub is_streaming: bool,
    pub status_text: Seq<char>,
    pub usage_text: Seq<char>,
    pub needs_api_key: bool,
    pub model_name: Seq<char>,
    pub service_name: Seq<char>,
    pub connection_status: Seq<char>,
    pub needs_server_url: bool,
}

impl View for ChatView {
    type V = ViewModel;

    open spec fn view(&self) -> ViewModel {
        ViewModel {
            messages: Seq::new(self.messages@.len(), |i: int| entry_model(self.messages@[i])),
            pending: self.pending@,
            streaming_text: self.streaming_text@,
            is_streaming: self.is_streaming,
            status_text: self.status_text@,
            usage_text: self.usage_text@,
            needs_api_key: self.needs_api_key,
            model_name: self.model_name@,
            service_name: self.service_name@,
            connection_status: self.connection_status@,
            needs_server_url: self.needs_server_url,
        }
    }
}

// ─── Previews ───

/// A short preview of a long text: unchanged when it has at most `max`
/// characters; else its first 6 lines and a count of the others when it has
/// more than 8 lines; else its first `max` characters followed by `…`.
pub open spec fn safe_truncate_spec(s: Seq<char>, max: nat) -> Seq<char> {
    if s.len() <= max {
        s
    } else if lines(s).len() > 8 {
        join(lines(s).take(6), seq!['\n']) + "\n… ("@ + decimal((lines(s).len() - 6) as nat)
            + " more lines)"@
    } else {
        s.take(max as int) + "…"@
    }
}

/// A preview of a tool's arguments or result for the chat.
pub fn safe_truncate(s: &str, max_chars: usize) -> (r: String)
    ensures
        r@ == safe_truncate_spec(s@, max_chars as nat),
{
    let c = str_to_chars(s);
    if c.len() <= max_chars {
        return chars_to_string(c.as_slice());
    }
    let ls = split_lines(c.as_slice());
    let n = ls.len();
    if n > 8 {
        let mut head: Vec<Vec<char>> = Vec::new();
        let mut i: usize = 0;
        while i < 6
            invariant
                i <= 6 < n == ls@.len(),
                head@.len() == i,
                views(head@) == views(ls@).take(i as int),
            decreases 6 - i,
        {
            let ghost prev = head@;
            let x = copy_range(ls[i].as_slice(), 0, ls[i].len());
            let ghost xv = x@;
            head.push(x);
            i = i + 1;
            proof {
                assert(xv =~= ls@[i - 1]@);
                assert(head@ == prev.push(x));
                assert forall|k: int| 0 <= k < i implies views(head@)[k] == views(ls@)[k] by {
                    if k < i - 1 {
                        assert(views(prev)[k] == views(ls@).take(i - 1)[k]);
                    }
                }
                assert(views(head@) =~= views(ls@).take(i as int));
            }
        }
        let mut out = join_chars(&head, &['\n']);
        push_str_chars(&mut out, "\n… (");
        push_decimal(&mut out, (n - 6) as u64);
        push_str_chars(&mut out, " more lines)");
        proof {
            assert(views(ls@).len() == n);
            assert(seq!['\n'] =~= ['\n']@);
        }
        return chars_to_string(out.as_slice());
    }
    let mut out = copy_range(c.as_slice(), 0, max_chars);
    push_str_chars(&mut out, "…");
    chars_to_string(out.as_slice())
}

// ─── Transitions ───

pub open spec fn push_entry(v: ViewModel, e: EntryModel) -> ViewModel {
    ViewModel { messages: v.messages.push(e), ..v }
}

/// The pending text, as an assistant message when there is any.
pub open spec fn flush_pending(v: ViewModel) -> ViewModel {
    if v.pending.len() > 0 {
        push_entry(v, entry("assistant"@, v.pending, false, seq![]))
    } else {
        v
    }
}

/// The usage line: prompt, completion and total tokens.
pub open spec fn usage_line(prompt: i32, completion: i32, total: i32) -> Seq<char> {
    "📥 "@ + signed_decimal(prompt as int) + "  📤 "@ + signed_decimal(completion as int)
        + "  합계: "@ + signed_decimal(total as int) + " tokens"@
}

/// The status shown once the configuration is known.
pub open spec fn ready_status(deneb_status: Seq<char>) -> Seq<char> {
    if deneb_status.len() == 0 {
        "준비됨"@
    } else {
        "준비됨 (Deneb "@ + deneb_status + seq![')']
    }
}

/// The window after the conversation was cleared.
pub open spec fn cleared(v: ViewModel) -> ViewModel {
    ViewModel {
        messages: seq![],
        streaming_text: seq![],
        usage_text: seq![],
        status_text: "대화 초기화됨"@,
        ..v
    }
}

/// The window after a piece of streamed text.
pub open spec fn text_step(v: ViewModel, content: Seq<char>) -> ViewModel {
    ViewModel { pending: v.pending + content, streaming_text: v.pending + content, ..v }
}

/// The window when a tool starts: the text streamed so far becomes a
/// message, then the tool call is shown with a preview of its arguments.
pub open spec fn tool_start_step(v: ViewModel, name: Seq<char>, args: Seq<char>) -> ViewModel {
    let w = if v.pending.len() > 0 {
        ViewModel { streaming_text: seq![], ..flushed(v) }
    } else {
        flushed(v)
    };
    push_entry(w, entry("tool"@, "⏳ "@ + safe_truncate_spec(args, 120), true, name))
}

/// The window when a tool has finished: a preview of its result is shown.
pub open spec fn tool_result_step(v: ViewModel, name: Seq<char>, result: Seq<char>) -> ViewModel {
    push_entry(v, entry("tool"@, safe_truncate_spec(result, 800), true, name + " ✅"@))
}

/// The window when a response is complete.
pub open spec fn done_step(v: ViewModel) -> ViewModel {
    ViewModel {
        streaming_text: seq![],
        is_streaming: false,
        status_text: "준비됨"@,
        ..flushed(v)
    }
}

/// The window after an error.
pub open spec fn error_step(v: ViewModel, message: Seq<char>) -> ViewModel {
    ViewModel {
        streaming_text: seq![],
        is_streaming: false,
        status_text: "오류 발생"@,
        ..push_entry(v, entry("assistant"@, "⚠️ 오류: "@ + message, false, seq![]))
    }
}

/// The window after a configuration report.
pub open spec fn config_step(
    v: ViewModel,
    needs_api_key: bool,
    model: Seq<char>,
    service: Seq<char>,
    deneb_status: Seq<char>,
) -> ViewModel {
    if needs_api_key {
        ViewModel { needs_api_key: true, ..v }
    } else {
        ViewModel {
            needs_api_key: false,
            model_name: model,
            service_name: service,
            status_text: ready_status(deneb_status),
            ..v
        }
    }
}

/// The window after one message from the server.
pub open spec fn server_step(v: ViewModel, msg: ServerMessage) -> ViewModel {
    match msg {
        ServerMessage::Text { content } => text_step(v, content@),
        ServerMessage::ToolStart { name, args } => tool_start_step(v, name@, args@),
        ServerMessage::ToolResult { name, result } => tool_result_step(v, name@, result@),
        ServerMessage::Usage { prompt, completion, total } => ViewModel {
            usage_text: usage_line(prompt, completion, total),
            ..v
        },
        ServerMessage::Done => done_step(v),
        ServerMessage::Error { message } => error_step(v, message@),
        ServerMessage::SessionSaved { path } => with_status(v, "세션 저장됨: "@ + path@),
        ServerMessage::ChatCleared => cleared(v),
        ServerMessage::ConfigStatus { needs_api_key, model, service, deneb_status } => config_step(
            v,
            needs_api_key,
            model@,
            service@,
            deneb_status@,
        ),
        ServerMessage::Pong => v,
    }
}

/// The window after the user sent a message.
pub open spec fn sent(v: ViewModel, text: Seq<char>) -> ViewModel {
    if text.len() == 0 {
        v
    } else {
        ViewModel {
            is_streaming: true,
            status_text: "생성 중..."@,
            streaming_text: seq![],
            ..push_entry(v, entry("user"@, text, false, seq![]))
        }
    }
}

/// The pending text taken, and shown as an assistant message if any.
pub open spec fn flushed(v: ViewModel) -> ViewModel {
    ViewModel { pending: seq![], ..flush_pending(v) }
}

/// The window after the connection was lost.
pub open spec fn disconnected_spec(v: ViewModel) -> ViewModel {
    ViewModel {
        connection_status: "disconnected"@,
        status_text: "서버 연결 끊김"@,
        is_streaming: false,
        ..v
    }
}

/// The window after the connection was made: the messages of the new
/// connection start with no pending streamed text.
pub open spec fn connected_spec(v: ViewModel, automatic: bool) -> ViewModel {
    ViewModel {
        pending: seq![],
        needs_server_url: false,
        connection_status: "connected"@,
        status_text: if automatic {
            "서버 연결됨"@
        } else {
            "서버 연결됨, 설정 확인 중..."@
        },
        ..v
    }
}

/// The window with another status line.
pub open spec fn with_status(v: ViewModel, text: Seq<char>) -> ViewModel {
    ViewModel { status_text: text, ..v }
}

/// The window after a run of the local agent failed.
pub open spec fn run_failed_spec(v: ViewModel, error: Seq<char>) -> ViewModel {
    ViewModel {
        streaming_text: seq![],
        is_streaming: false,
        status_text: "오류 발생"@,
        ..push_entry(v, entry("assistant"@, "❌ "@ + error, false, seq![]))
    }
}

/// The window when a message is sent before an API key is set.
pub open spec fn no_agent_spec(v: ViewModel) -> ViewModel {
    ViewModel { is_streaming: false, status_text: "API 키를 먼저 설정하세요"@, ..v }
}

/// The window once a configuration is known.
pub open spec fn configured_spec(v: ViewModel, model: Seq<char>, service: Seq<char>) -> ViewModel {
    ViewModel { needs_api_key: false, model_name: model, service_name: service, ..v }
}

fn new_entry(role: &str, content: String, is_tool: bool, tool_name: String) -> (r: ChatEntry)
    ensures
        entry_model(r) == entry(role@, content@, is_tool, tool_name@),
{
    ChatEntry { role: copy_string(role), content, is_tool, tool_name }
}

impl ChatView {
    /// A window waiting for a server address (or, on the desktop, for a key).
    pub fn new() -> (r: Self)
        ensures
            r@.messages.len() == 0,
            r@.pending.len() == 0,
            r@.streaming_text.len() == 0,
            !r@.is_streaming,
            r@.status_text.len() == 0,
            r@.usage_text.len() == 0,
            !r@.needs_api_key,
            r@.model_name.len() == 0,
            r@.service_name.len() == 0,
            r@.connection_status.len() == 0,
            r@.needs_server_url,
    {
        let r = ChatView {
            messages: Vec::new(),
            pending: String::new(),
            streaming_text: String::new(),
            is_streaming: false,
            status_text: String::new(),
            usage_text: String::new(),
            needs_api_key: false,
            model_name: String::new(),
            service_name: String::new(),
            connection_status: String::new(),
            needs_server_url: true,
        };
        assert(r@.messages =~= Seq::<EntryModel>::empty());
        r
    }

    /// Add a message to the list.
    pub fn push_message(&mut self, role: &str, content: String, is_tool: bool, tool_name: String)
        ensures
            final(self)@ == push_entry(old(self)@, entry(role@, content@, is_tool, tool_name@)),
    {
        let e = new_entry(role, content, is_tool, tool_name);
        self.messages.push(e);
        assert(self@.messages =~= old(self)@.messages.push(entry_model(e)));
    }

    /// Take the pending text; it becomes an assistant message when it is
    /// not empty.
    fn flush(&mut self)
        ensures
            final(self)@ == flushed(old(self)@),
    {
        let mut pending = String::new();
        std::mem::swap(&mut pending, &mut self.pending);
        if !pending.as_str().is_empty() {
            self.push_message("assistant", pending, false, String::new());
        }
        assert(self@.messages =~= flush_pending(old(self)@).messages);
    }

    fn on_text(&mut self, content: &str)
        ensures
            final(self)@ == text_step(old(self)@, content@),
    {
        let buf = concat_strs(self.pending.as_str(), content);
        self.streaming_text = buf.clone();
        self.pending = buf;
        assert(self@.messages =~= old(self)@.messages);
    }

    fn on_tool_start(&mut self, name: String, args: &str)
        ensures
            final(self)@ == tool_start_step(old(self)@, name@, args@),
    {
        let had_pending = !self.pending.as_str().is_empty();
        self.flush();
        if had_pending {
            self.streaming_text = String::new();
        }
        let ghost mid = self@;
        let summary = safe_truncate(args, 120);
        let content = concat_strs("⏳ ", summary.as_str());
        self.push_message("tool", content, true, name);
    }

    fn on_done(&mut self)
        ensures
            final(self)@ == done_step(old(self)@),
    {
        self.flush();
        let ghost mid = self@;
        self.streaming_text = String::new();
        self.is_streaming = false;
        self.status_text = copy_string("준비됨");
        assert(self@.messages =~= mid.messages);
    }

    fn on_error(&mut self, message: &str)
        ensures
            final(self)@ == error_step(old(self)@, message@),
    {
        let content = concat_strs("⚠️ 오류: ", message);
        self.push_message("assistant", content, false, String::new());
        let ghost mid = self@;
        self.streaming_text = String::new();
        self.is_streaming = false;
        self.status_text = copy_string("오류 발생");
        assert(self@.messages =~= mid.messages);
    }

    fn on_config(&mut self, needs_api_key: bool, model: String, service: String, deneb_status: &str)
        ensures
            final(self)@ == config_step(old(self)@, needs_api_key, model@, service@, deneb_status@),
    {
        self.needs_api_key = needs_api_key;
        if !needs_api_key {
            self.model_name = model;
            self.service_name = service;
            if deneb_status.is_empty() {
                self.status_text = copy_string("준비됨");
            } else {
                let mut t: Vec<char> = Vec::new();
                push_str_chars(&mut t, "준비됨 (Deneb ");
                push_str_chars(&mut t, deneb_status);
                t.push(')');
                assert(t@ =~= "준비됨 (Deneb "@ + deneb_status@ + seq![')']);
                self.status_text = chars_to_string(t.as_slice());
            }
        }
        assert(self@.messages =~= old(self)@.messages);
    }

    /// Apply one message from the server.
    pub fn apply_server_message(&mut self, msg: ServerMessage)
        ensures
            final(self)@ == server_step(old(self)@, msg),
    {
        match msg {
            ServerMessage::Text { content } => self.on_text(content.as_str()),
            ServerMessage::ToolStart { name, args } => self.on_tool_start(name, args.as_str()),
            ServerMessage::ToolResult { name, result } => {
                let short = safe_truncate(result.as_str(), 800);
                let label = concat_strs(name.as_str(), " ✅");
                self.push_message("tool", short, true, label);
            },
            ServerMessage::Usage { prompt, completion, total } => {
                let mut t: Vec<char> = Vec::new();
                push_str_chars(&mut t, "📥 ");
                push_signed_decimal(&mut t, prompt as i64);
                push_str_chars(&mut t, "  📤 ");
                push_signed_decimal(&mut t, completion as i64);
                push_str_chars(&mut t, "  합계: ");
                push_signed_decimal(&mut t, total as i64);
                push_str_chars(&mut t, " tokens");
                self.usage_text = chars_to_string(t.as_slice());
                assert(self@.messages =~= old(self)@.messages);
            },
            ServerMessage::Done => self.on_done(),
            ServerMessage::Error { message } => self.on_error(message.as_str()),
            ServerMessage::SessionSaved { path } => {
                self.status_text = concat_strs("세션 저장됨: ", path.as_str());
                assert(self@.messages =~= old(self)@.messages);
            },
            ServerMessage::ChatCleared => self.clear_messages(),
            ServerMessage::ConfigStatus { needs_api_key, model, service, deneb_status } => {
                self.on_config(needs_api_key, model, service, deneb_status.as_str())
            },
            ServerMessage::Pong => {},
        }
    }

    /// Apply one event of the local agent (the desktop application): the
    /// same as the server message that reports it.
    pub fn apply_agent_event(&mut self, evt: AgentEvent)
        ensures
            final(self)@ == server_step(old(self)@, server_message_of(evt)),
    {
        let msg = crate::protocol::agent_event_to_server_message(evt);
        self.apply_server_message(msg);
    }

    /// Clear the list of messages, as after "clear chat".
    pub fn clear_messages(&mut self)
        ensures
            final(self)@ == cleared(old(self)@),
    {
        self.messages = Vec::new();
        self.streaming_text = String::new();
        self.usage_text = String::new();
        self.status_text = copy_string("대화 초기화됨");
        assert(self@.messages =~= Seq::<EntryModel>::empty());
    }

    /// The user sends a message: it is shown at once and generation starts;
    /// an empty message is ignored. Returns whether it is to be sent.
    pub fn send_message(&mut self, text: &str) -> (r: bool)
        ensures
            r == (text@.len() > 0),
            final(self)@ == sent(old(self)@, text@),
    {
        let c = str_to_chars(text);
        if c.len() == 0 {
            return false;
        }
        self.push_message("user", chars_to_string(c.as_slice()), false, String::new());
        self.is_streaming = true;
        self.status_text = copy_string("생성 중...");
        self.streaming_text = String::new();
        true
    }

    /// The connection to the server was lost.
    pub fn disconnected(&mut self)
        ensures
            final(self)@ == disconnected_spec(old(self)@),
    {
        self.connection_status = copy_string("disconnected");
        self.status_text = copy_string("서버 연결 끊김");
        self.is_streaming = false;
    }

    /// The connection to the server was established; `automatic` when it
    /// was made with the saved address at start-up.
    pub fn connected(&mut self, automatic: bool)
        ensures
            final(self)@ == connected_spec(old(self)@, automatic),
    {
        self.pending = String::new();
        self.needs_server_url = false;
        self.connection_status = copy_string("connected");
        self.status_text = if automatic {
            copy_string("서버 연결됨")
        } else {
            copy_string("서버 연결됨, 설정 확인 중...")
        };
    }

    /// Set the status line.
    pub fn set_status(&mut self, text: String)
        ensures
            final(self)@ == with_status(old(self)@, text@),
    {
        self.status_text = text;
    }

    /// A run of the local agent failed: the error is shown and generation
    /// stops.
    pub fn run_failed(&mut self, error: &str)
        ensures
            final(self)@ == run_failed_spec(old(self)@, error@),
    {
        let content = concat_strs("❌ ", error);
        self.push_message("assistant", content, false, String::new());
        self.streaming_text = String::new();
        self.is_streaming = false;
        self.status_text = copy_string("오류 발생");
    }

    /// The local agent cannot run before an API key is set.
    pub fn no_agent(&mut self)
        ensures
            final(self)@ == no_agent_spec(old(self)@),
    {
        self.is_streaming = false;
        self.status_text = copy_string("API 키를 먼저 설정하세요");
    }

    /// A configuration was loaded or saved: model and service are shown and
    /// the key prompt goes away.
    pub fn configured(&mut self, model: String, service: String)
        ensures
            final(self)@ == configured_spec(old(self)@, model@, service@),
    {
        self.needs_api_key = false;
        self.model_name = model;
        self.service_name = service;
    }
}

/// The text of an input field with surrounding white space removed, or
/// `None` when nothing remains (the input is then ignored).
pub fn trimmed_input(s: &str) -> (r: Option<String>)
    ensures
        match r {
            Some(t) => t@ == trim(s@) && t@.len() > 0,
            None => trim(s@).len() == 0,
        },
{
    let c = str_to_chars(s);
    let t = trim_chars(c.as_slice());
    if t.len() == 0 {
        None
    } else {
        Some(chars_to_string(t.as_slice()))
    }
}

// ─── Laws ───

/// Streamed text is shown as it grows, and when the response is done it
/// becomes one assistant message, the streaming area is cleared and
/// generation stops.
pub proof fn law_streamed_text_becomes_message(v: ViewModel, a: String, b: String)
    requires
        v.pending.len() == 0,
        a@.len() + b@.len() > 0,
    ensures
        ({
            let v1 = server_step(v, ServerMessage::Text { content: a });
            let v2 = server_step(v1, ServerMessage::Text { content: b });
            let v3 = server_step(v2, ServerMessage::Done);
            &&& v2.streaming_text == a@ + b@
            &&& v3.messages == v.messages.push(entry("assistant"@, a@ + b@, false, seq![]))
            &&& v3.pending.len() == 0
            &&& v3.streaming_text.len() == 0
            &&& !v3.is_streaming
        }),
{
    let v1 = server_step(v, ServerMessage::Text { content: a });
    assert(v1.pending =~= a@);
    let v2 = server_step(v1, ServerMessage::Text { content: b });
    assert(v2.pending =~= a@ + b@);
}

} // verus!
