//! The desktop agent's conversation state: the system prompt, the history of
//! messages, token totals, and the rules for trimming the context and
//! shortening tool results.
//!
//! The model call and tool execution are performed by the application, which
//! feeds their results back through `record_assistant` and
//! `record_tool_result`.
use vstd::prelude::*;
use crate::text::{
    byte_len, byte_length, chars_to_string, copy_string, decimal, lines, push_all, push_decimal,
    push_str_chars, split_lines, str_eq, str_to_chars,
};
use crate::types::{Message, ToolCall};

verus! {

/// Iterations of model call and tool runs per user message.
pub const MAX_ITERATIONS: usize = 25;

/// Messages kept in the context, system prompt included.
pub const MAX_CONTEXT_MESSAGES: usize = 100;

/// Bytes of a tool result above which it is shortened.
pub const MAX_TOOL_RESULT_LEN: usize = 30_000;

/// The tools available without the memory service.
pub open spec fn base_tools() -> Seq<char> {
    "- read_file: Read file contents with line numbers (path, optional offset/limit)
- write_file: Create or overwrite files (path, content)
- edit_file: Replace exact string matches in files (path, old_string, new_string)
- bash: Execute shell commands (command, optional timeout in seconds)
- grep: Search file contents with regex (pattern, optional path/include filter)
- glob: Find files by glob pattern (pattern, optional base path)"@
}

/// The tools of the memory service.
pub open spec fn deneb_tools() -> Seq<char> {
    "
- ask_deneb: Deneb AI 에이전트에게 질문 전송 (message, optional session_key). Deneb은 장기 메모리를 가진 AI 에이전트입니다.
- deneb_memory: Deneb의 장기 메모리에서 검색 (query)"@
}

/// The working guidelines.
pub open spec fn guidelines() -> Seq<char> {
    "Guidelines:
1. Read files before modifying them to understand context
2. old_string in edit_file must match exactly once in the file
3. Use markdown with language identifiers for code blocks
4. Keep bash commands focused; use timeout for long-running tasks
5. Respond in the same language as the user
6. When showing file changes, briefly explain what changed and why"@
}

/// The system prompt: introduction, tool list (with the memory tools when the
/// memory service is connected), guidelines.
pub open spec fn system_prompt(deneb_connected: bool) -> Seq<char> {
    "You are Aurora, an AI coding assistant. You help users with software engineering tasks.\n\nAvailable tools:\n"@
        + base_tools() + (if deneb_connected {
        deneb_tools()
    } else {
        seq![]
    }) + "\n\n"@ + guidelines()
}

/// Build the system prompt.
pub fn build_system_prompt(deneb_connected: bool) -> (r: String)
    ensures
        r@ == system_prompt(deneb_connected),
{
    let mut p: Vec<char> = Vec::new();
    push_str_chars(
        &mut p,
        "You are Aurora, an AI coding assistant. You help users with software engineering tasks.\n\nAvailable tools:\n",
    );
    push_str_chars(
        &mut p,
        "- read_file: Read file contents with line numbers (path, optional offset/limit)
- write_file: Create or overwrite files (path, content)
- edit_file: Replace exact string matches in files (path, old_string, new_string)
- bash: Execute shell commands (command, optional timeout in seconds)
- grep: Search file contents with regex (pattern, optional path/include filter)
- glob: Find files by glob pattern (pattern, optional base path)",
    );
    if deneb_connected {
        push_str_chars(
            &mut p,
            "
- ask_deneb: Deneb AI 에이전트에게 질문 전송 (message, optional session_key). Deneb은 장기 메모리를 가진 AI 에이전트입니다.
- deneb_memory: Deneb의 장기 메모리에서 검색 (query)",
        );
    }
    push_str_chars(&mut p, "\n\n");
    push_str_chars(
        &mut p,
        "Guidelines:
1. Read files before modifying them to understand context
2. old_string in edit_file must match exactly once in the file
3. Use markdown with language identifiers for code blocks
4. Keep bash commands focused; use timeout for long-running tasks
5. Respond in the same language as the user
6. When showing file changes, briefly explain what changed and why",
    );
    assert(p@ =~= system_prompt(deneb_connected));
    chars_to_string(p.as_slice())
}

/// A message with only a role and a text content.
pub open spec fn is_plain_message(m: Message, role: Seq<char>, content: Seq<char>) -> bool {
    &&& m.role@ == role
    &&& m.content matches Some(c) && c@ == content
    &&& m.tool_calls is None
    &&& m.tool_call_id is None
}

/// A system message carrying `prompt`.
pub fn make_sys_msg(prompt: &str) -> (r: Message)
    ensures
        is_plain_message(r, "system"@, prompt@),
{
    Message {
        role: copy_string("system"),
        content: Some(copy_string(prompt)),
        tool_calls: None,
        tool_call_id: None,
    }
}

/// The conversation state of the desktop agent.
pub struct Agent {
    messages: Vec<Message>,
    total_prompt_tokens: i32,
    total_completion_tokens: i32,
    deneb_connected: bool,
}

/// Whether a message is from the user.
pub open spec fn is_user(m: Message) -> bool {
    m.role@ == "user"@
}

/// Where trimming cuts a history of `n > MAX_CONTEXT_MESSAGES` messages: at
/// the first user message among the last 99, so that an assistant message is
/// never separated from its tool results; at the 99th last message when there
/// is none.
pub open spec fn trim_start(h: Seq<Message>) -> int {
    let keep_from = h.len() - (MAX_CONTEXT_MESSAGES - 1);
    first_user_from(h, keep_from, keep_from)
}

/// The first user message at or after `i`, or `fallback`.
pub open spec fn first_user_from(h: Seq<Message>, i: int, fallback: int) -> int
    decreases h.len() - i,
{
    if i >= h.len() || i < 0 {
        fallback
    } else if is_user(h[i]) {
        i
    } else {
        first_user_from(h, i + 1, fallback)
    }
}

pub proof fn lemma_first_user_from(h: Seq<Message>, i: int, fallback: int)
    requires
        0 <= i <= h.len(),
    ensures
        (exists|j: int| i <= j < h.len() && is_user(#[trigger] h[j])) ==> {
            let r = first_user_from(h, i, fallback);
            &&& i <= r < h.len()
            &&& is_user(h[r])
            &&& forall|j: int| i <= j < r ==> !is_user(#[trigger] h[j])
        },
        !(exists|j: int| i <= j < h.len() && is_user(#[trigger] h[j])) ==> first_user_from(
            h,
            i,
            fallback,
        ) == fallback,
    decreases h.len() - i,
{
    if i < h.len() && !is_user(h[i]) {
        lemma_first_user_from(h, i + 1, fallback);
        if exists|j: int| i <= j < h.len() && is_user(#[trigger] h[j]) {
            let j = choose|j: int| i <= j < h.len() && is_user(#[trigger] h[j]);
            assert(i + 1 <= j);
        }
    }
}

fn is_user_exec(m: &Message) -> (r: bool)
    ensures
        r == is_user(*m),
{
    str_eq(m.role.as_str(), "user")
}

/// The history after trimming: the system prompt, then the messages from the
/// cut on; unchanged when it is within the limit.
pub open spec fn trimmed_history(h: Seq<Message>) -> Seq<Message> {
    if h.len() <= MAX_CONTEXT_MESSAGES {
        h
    } else {
        seq![h[0]] + h.skip(trim_start(h))
    }
}

/// A plain user message.
pub open spec fn is_user_text(m: Message, text: Seq<char>) -> bool {
    is_plain_message(m, "user"@, text)
}

/// Where a history longer than the limit is cut (`trim_start`).
pub fn cut_point(messages: &Vec<Message>) -> (r: usize)
    requires
        messages@.len() > MAX_CONTEXT_MESSAGES,
    ensures
        r == trim_start(messages@),
        messages@.len() - (MAX_CONTEXT_MESSAGES - 1) <= r < messages@.len(),
{
    let n = messages.len();
    let keep_from = n - (MAX_CONTEXT_MESSAGES - 1);
    let ghost h = messages@;
    let mut i = keep_from;
    while i < n && !is_user_exec(&messages[i])
        invariant
            keep_from <= i <= n == h.len(),
            h == messages@,
            first_user_from(h, keep_from as int, keep_from as int) == first_user_from(
                h,
                i as int,
                keep_from as int,
            ),
        decreases n - i,
    {
        i = i + 1;
    }
    proof {
        lemma_first_user_from(h, i as int, keep_from as int);
    }
    if i < n {
        i
    } else {
        keep_from
    }
}

impl Agent {
    /// The messages of the conversation, system prompt first.
    pub closed spec fn history(&self) -> Seq<Message> {
        self.messages@
    }

    pub closed spec fn deneb(&self) -> bool {
        self.deneb_connected
    }

    pub closed spec fn prompt_tokens(&self) -> int {
        self.total_prompt_tokens as int
    }

    pub closed spec fn completion_tokens(&self) -> int {
        self.total_completion_tokens as int
    }

    /// The history starts with the system prompt.
    pub open spec fn well_formed(&self) -> bool {
        &&& self.history().len() >= 1
        &&& is_plain_message(self.history()[0], "system"@, system_prompt(self.deneb()))
    }

    pub fn new(deneb_connected: bool) -> (r: Self)
        ensures
            r.well_formed(),
            r.history().len() == 1,
            r.deneb() == deneb_connected,
            r.prompt_tokens() == 0,
            r.completion_tokens() == 0,
    {
        let system_prompt = build_system_prompt(deneb_connected);
        let mut messages: Vec<Message> = Vec::new();
        messages.push(make_sys_msg(system_prompt.as_str()));
        Agent { messages, total_prompt_tokens: 0, total_completion_tokens: 0, deneb_connected }
    }

    /// Forget the conversation: only the system prompt remains, token totals
    /// restart.
    pub fn clear(&mut self)
        ensures
            final(self).well_formed(),
            final(self).history().len() == 1,
            final(self).deneb() == old(self).deneb(),
            final(self).prompt_tokens() == 0,
            final(self).completion_tokens() == 0,
    {
        let system_prompt = build_system_prompt(self.deneb_connected);
        let mut messages: Vec<Message> = Vec::new();
        messages.push(make_sys_msg(system_prompt.as_str()));
        self.messages = messages;
        self.total_prompt_tokens = 0;
        self.total_completion_tokens = 0;
    }

    /// Number of messages besides the system prompt.
    pub fn message_count(&self) -> (r: usize)
        ensures
            r == if self.history().len() == 0 {
                0
            } else {
                self.history().len() - 1
            },
    {
        self.messages.len().saturating_sub(1)
    }

    /// The whole history, system prompt first (what is sent to the model).
    pub fn messages(&self) -> (r: &[Message])
        ensures
            r@ == self.history(),
    {
        self.messages.as_slice()
    }

    /// The conversation without the system prompt (what is exported).
    pub fn conversation(&self) -> (r: &[Message])
        ensures
            r@ == if self.history().len() == 0 {
                seq![]
            } else {
                self.history().skip(1)
            },
    {
        let n = self.messages.len();
        if n == 0 {
            return self.messages.as_slice();
        }
        let s = self.messages.as_slice();
        let (_, rest) = s.split_at(1);
        assert(rest@ =~= self.messages@.skip(1));
        rest
    }

    /// Replace the conversation with `history`, behind a fresh system prompt;
    /// returns how many messages were imported.
    pub fn import_history(&mut self, history: Vec<Message>) -> (r: usize)
        ensures
            final(self).well_formed(),
            final(self).history() == seq![final(self).history()[0]] + history@,
            r == history@.len(),
            final(self).deneb() == old(self).deneb(),
            final(self).prompt_tokens() == old(self).prompt_tokens(),
            final(self).completion_tokens() == old(self).completion_tokens(),
    {
        let count = history.len();
        let system_prompt = build_system_prompt(self.deneb_connected);
        let mut messages: Vec<Message> = Vec::new();
        messages.push(make_sys_msg(system_prompt.as_str()));
        let ghost first = messages@;
        let mut h = history;
        messages.append(&mut h);
        assert(messages@ =~= first + history@);
        self.messages = messages;
        count
    }

    /// Trim older messages to keep the context within bounds, keeping the
    /// system prompt and the most recent messages.
    pub fn trim_context(&mut self)
        requires
            old(self).history().len() >= 1,
        ensures
            final(self).history() == trimmed_history(old(self).history()),
            final(self).deneb() == old(self).deneb(),
            final(self).prompt_tokens() == old(self).prompt_tokens(),
            final(self).completion_tokens() == old(self).completion_tokens(),
    {
        let n = self.messages.len();
        if n <= MAX_CONTEXT_MESSAGES {
            return;
        }
        let ghost h = self.messages@;
        let safe_start = cut_point(&self.messages);
        let mut rest = self.messages.split_off(safe_start);
        let mut kept: Vec<Message> = Vec::new();
        let system = self.messages.swap_remove(0);
        kept.push(system);
        kept.append(&mut rest);
        assert(kept@ =~= seq![h[0]] + h.skip(safe_start as int));
        self.messages = kept;
    }

    /// Start a turn: the user's message is added and the context trimmed.
    pub fn begin_turn(&mut self, user_message: String)
        requires
            old(self).history().len() >= 1,
        ensures
            ({
                let pushed = final(self).history();
                exists|m: Message|
                    is_user_text(m, user_message@) && pushed == trimmed_history(
                        old(self).history().push(m),
                    )
            }),
            final(self).deneb() == old(self).deneb(),
            final(self).prompt_tokens() == old(self).prompt_tokens(),
            final(self).completion_tokens() == old(self).completion_tokens(),
    {
        let m = Message {
            role: copy_string("user"),
            content: Some(user_message),
            tool_calls: None,
            tool_call_id: None,
        };
        let ghost gm = m;
        self.messages.push(m);
        self.trim_context();
        assert(is_user_text(gm, user_message@));
    }

    /// The prompt and completion tokens counted so far.
    pub fn totals(&self) -> (r: (i32, i32))
        ensures
            r.0 == self.prompt_tokens(),
            r.1 == self.completion_tokens(),
    {
        (self.total_prompt_tokens, self.total_completion_tokens)
    }

    /// Add the token usage of one response; returns the new totals.
    pub fn add_usage(&mut self, prompt: i32, completion: i32) -> (r: (i32, i32))
        requires
            i32::MIN <= old(self).prompt_tokens() + prompt <= i32::MAX,
            i32::MIN <= old(self).completion_tokens() + completion <= i32::MAX,
        ensures
            final(self).prompt_tokens() == old(self).prompt_tokens() + prompt,
            final(self).completion_tokens() == old(self).completion_tokens() + completion,
            r.0 == final(self).prompt_tokens(),
            r.1 == final(self).completion_tokens(),
            final(self).history() == old(self).history(),
            final(self).deneb() == old(self).deneb(),
    {
        self.total_prompt_tokens = self.total_prompt_tokens + prompt;
        self.total_completion_tokens = self.total_completion_tokens + completion;
        (self.total_prompt_tokens, self.total_completion_tokens)
    }

    /// Record the model's reply; returns whether it asks for tool calls.
    pub fn record_assistant(&mut self, msg: Message) -> (r: bool)
        ensures
            final(self).history() == old(self).history().push(msg),
            r == (msg.tool_calls matches Some(tc) && tc@.len() > 0),
            final(self).deneb() == old(self).deneb(),
            final(self).prompt_tokens() == old(self).prompt_tokens(),
            final(self).completion_tokens() == old(self).completion_tokens(),
    {
        let has_tools = match &msg.tool_calls {
            Some(tc) => tc.len() > 0,
            None => false,
        };
        self.messages.push(msg);
        has_tools
    }

    /// The tool calls of the last message, if it is an assistant message with any.
    pub fn last_tool_calls(&self) -> (r: Option<&Vec<ToolCall>>)
        ensures
            self.history().len() > 0 ==> match r {
                Some(v) => self.history().last().tool_calls == Some(*v),
                None => self.history().last().tool_calls is None,
            },
            self.history().len() == 0 ==> r is None,
    {
        let n = self.messages.len();
        if n == 0 {
            return None;
        }
        self.messages[n - 1].tool_calls.as_ref()
    }

    /// Record the result of a tool call, shortened when it is very large.
    pub fn record_tool_result(&mut self, tool_call_id: String, result: &str)
        requires
            byte_len(result@) <= usize::MAX,
        ensures
            ({
                let h = final(self).history();
                &&& h.len() == old(self).history().len() + 1
                &&& h.drop_last() == old(self).history()
                &&& h.last().role@ == "tool"@
                &&& h.last().content matches Some(c) && c@ == shortened_tool_result(result@)
                &&& h.last().tool_calls is None
                &&& h.last().tool_call_id == Some(tool_call_id)
            }),
            final(self).deneb() == old(self).deneb(),
            final(self).prompt_tokens() == old(self).prompt_tokens(),
            final(self).completion_tokens() == old(self).completion_tokens(),
    {
        let content = truncate_tool_result(result);
        let ghost old_h = self.messages@;
        self.messages.push(
            Message {
                role: copy_string("tool"),
                content: Some(content),
                tool_calls: None,
                tool_call_id: Some(tool_call_id),
            },
        );
        assert(self.messages@.drop_last() =~= old_h);
    }
}

// ─── Tool result shortening ───

/// The number of lines of `s` (`str::lines().count()`).
pub open spec fn line_count(s: Seq<char>) -> nat {
    lines(s).len()
}

/// A tool result over the byte limit is cut to its first 30 000 characters
/// and followed by a note giving the byte and line counts; a smaller result
/// is kept as it is.
pub open spec fn shortened_tool_result(result: Seq<char>) -> Seq<char> {
    if byte_len(result) > MAX_TOOL_RESULT_LEN {
        let kept = take_upto(result, MAX_TOOL_RESULT_LEN as nat);
        kept + "\n\n[Truncated: showing "@ + decimal(MAX_TOOL_RESULT_LEN as nat) + seq!['/']
            + decimal(byte_len(result)) + " bytes, "@ + decimal(line_count(kept)) + seq!['/']
            + decimal(line_count(result)) + " lines]"@
    } else {
        result
    }
}

/// The first `n` characters of `s`, or all of them when there are fewer
/// (`s.chars().take(n)`).
pub open spec fn take_upto(s: Seq<char>, n: nat) -> Seq<char> {
    if n <= s.len() {
        s.take(n as int)
    } else {
        s
    }
}

/// The first `n` characters of `s` (`s.chars().take(n)`).
pub fn take_chars(s: &[char], n: usize) -> (r: Vec<char>)
    ensures
        r@ == take_upto(s@, n as nat),
{
    let end = if n <= s.len() {
        n
    } else {
        s.len()
    };
    let r = crate::text::copy_range(s, 0, end);
    assert(s@.subrange(0, s@.len() as int) =~= s@);
    r
}

/// Shorten a very large tool result to keep the context manageable.
pub fn truncate_tool_result(result: &str) -> (r: String)
    requires
        byte_len(result@) <= usize::MAX,
    ensures
        r@ == shortened_tool_result(result@),
{
    let c = str_to_chars(result);
    let total = byte_length(c.as_slice());
    if total <= MAX_TOOL_RESULT_LEN {
        return chars_to_string(c.as_slice());
    }
    let all_lines = split_lines(c.as_slice());
    let kept = take_chars(c.as_slice(), MAX_TOOL_RESULT_LEN);
    let kept_lines = split_lines(kept.as_slice());
    let mut out: Vec<char> = Vec::new();
    push_all(&mut out, kept.as_slice());
    push_str_chars(&mut out, "\n\n[Truncated: showing ");
    push_decimal(&mut out, MAX_TOOL_RESULT_LEN as u64);
    out.push('/');
    push_decimal(&mut out, total as u64);
    push_str_chars(&mut out, " bytes, ");
    push_decimal(&mut out, kept_lines.len() as u64);
    out.push('/');
    push_decimal(&mut out, all_lines.len() as u64);
    push_str_chars(&mut out, " lines]");
    proof {
        assert(crate::text::views(kept_lines@).len() == kept_lines@.len());
        assert(crate::text::views(all_lines@).len() == all_lines@.len());
    }
    assert(out@ =~= shortened_tool_result(result@));
    chars_to_string(out.as_slice())
}

// ─── Laws ───

// ─── The turn loop ───

/// Where a turn stands: the model calls made so far, the current one
/// included.
pub struct TurnState {
    pub calls: usize,
}

/// What happened last in a turn.
pub enum TurnEvent {
    /// The user's message was recorded.
    Begin,
    /// The model answered; whether it asked for tools.
    Reply { has_tool_calls: bool },
    /// The tools it asked for have run and their results are recorded.
    ToolsDone,
}

/// What to do next.
pub enum TurnAction {
    /// Call the model with the conversation.
    CallModel,
    /// Run the tools the model asked for.
    RunTools,
    /// The turn is over: the model answered without tools.
    Done,
    /// The turn is over: it used all its iterations.
    Fail(String),
}

/// The next state and action of a turn, as values: `None` for the action
/// stands for the failure at the iteration limit.
pub open spec fn turn_next(calls: nat, ev: TurnEvent) -> (nat, Option<TurnAction>) {
    match ev {
        TurnEvent::Begin => (1, Some(TurnAction::CallModel)),
        TurnEvent::Reply { has_tool_calls } => (
            calls,
            Some(
                if has_tool_calls {
                    TurnAction::RunTools
                } else {
                    TurnAction::Done
                },
            ),
        ),
        TurnEvent::ToolsDone => if calls < MAX_ITERATIONS {
            (calls + 1, Some(TurnAction::CallModel))
        } else {
            (calls, None)
        },
    }
}

/// One step of a turn: the model is called first; an answer with tool calls
/// has its tools run and the model called again, at most `MAX_ITERATIONS`
/// times in all; an answer without tool calls ends the turn; the turn fails
/// with `max_iterations_error` when the tools have run after the last
/// allowed call.
pub fn turn_step(state: TurnState, ev: TurnEvent) -> (r: (TurnState, TurnAction))
    requires
        state.calls <= MAX_ITERATIONS,
    ensures
        r.0.calls == turn_next(state.calls as nat, ev).0,
        r.0.calls <= MAX_ITERATIONS,
        match turn_next(state.calls as nat, ev).1 {
            Some(a) => r.1 == a,
            None => r.1 matches TurnAction::Fail(e) && e@ == "Max iterations ("@ + decimal(
                MAX_ITERATIONS as nat,
            ) + ") reached"@,
        },
{
    match ev {
        TurnEvent::Begin => (TurnState { calls: 1 }, TurnAction::CallModel),
        TurnEvent::Reply { has_tool_calls } => (
            state,
            if has_tool_calls {
                TurnAction::RunTools
            } else {
                TurnAction::Done
            },
        ),
        TurnEvent::ToolsDone => if state.calls < MAX_ITERATIONS {
            (TurnState { calls: state.calls + 1 }, TurnAction::CallModel)
        } else {
            (state, TurnAction::Fail(crate::tools::max_iterations_error()))
        },
    }
}

/// The model calls a turn has made after `k` rounds of tools, when every
/// answer asks for tools.
pub open spec fn calls_after_rounds(k: nat) -> nat {
    if k + 1 <= MAX_ITERATIONS {
        k + 1
    } else {
        MAX_ITERATIONS as nat
    }
}

/// However often the model asks for tools, a turn calls it at most
/// `MAX_ITERATIONS` times: from the start, each round of tools leads to one
/// more call until the limit, and the round after the last call fails.
pub proof fn law_turn_calls_bounded(k: nat)
    ensures
        turn_next(0, TurnEvent::Begin) == (1nat, Some(TurnAction::CallModel)),
        calls_after_rounds(k) <= MAX_ITERATIONS,
        calls_after_rounds(k) < MAX_ITERATIONS ==> turn_next(calls_after_rounds(k), TurnEvent::ToolsDone)
            == (calls_after_rounds(k + 1), Some(TurnAction::CallModel)),
        turn_next(MAX_ITERATIONS as nat, TurnEvent::ToolsDone).1 is None,
        forall|c: nat, b: bool|
            turn_next(c, TurnEvent::Reply { has_tool_calls: b }).0 == c,
{
}

/// Trimming keeps the system prompt first, keeps at most
/// `MAX_CONTEXT_MESSAGES` messages, and the messages after the system
/// prompt are the most recent ones of the history, in order.
pub proof fn law_trim_keeps_recent(h: Seq<Message>)
    requires
        h.len() >= 1,
    ensures
        trimmed_history(h).len() <= MAX_CONTEXT_MESSAGES,
        trimmed_history(h)[0] == h[0],
        trimmed_history(h).skip(1) == h.skip(h.len() - (trimmed_history(h).len() - 1)),
{
    if h.len() > MAX_CONTEXT_MESSAGES {
        let k = h.len() - (MAX_CONTEXT_MESSAGES - 1);
        lemma_first_user_from(h, k, k);
        let s = trim_start(h);
        assert(k <= s < h.len());
        assert(trimmed_history(h).skip(1) =~= h.skip(s));
    } else {
        assert(h.skip(1) =~= h.skip(h.len() - (h.len() - 1)));
    }
}

/// When a user message is among the most recent messages kept, trimming
/// starts right at the first of them, so no reply or tool result is kept
/// without the request before it.
pub proof fn law_trim_starts_at_user(h: Seq<Message>)
    requires
        h.len() > MAX_CONTEXT_MESSAGES,
        exists|j: int| h.len() - (MAX_CONTEXT_MESSAGES - 1) <= j < h.len() && is_user(#[trigger] h[j]),
    ensures
        is_user(trimmed_history(h)[1]),
        forall|j: int|
            h.len() - (MAX_CONTEXT_MESSAGES - 1) <= j < trim_start(h) ==> !is_user(#[trigger] h[j]),
{
    let k = h.len() - (MAX_CONTEXT_MESSAGES - 1);
    lemma_first_user_from(h, k, k);
    assert(trimmed_history(h)[1] == h[trim_start(h)]);
}

/// The two prompts differ only by the memory tools: both are the
/// introduction and the base tool list, then the guidelines, and the prompt
/// for a connected memory service has the memory tools between the two.
pub proof fn law_prompts_differ_by_memory_tools()
    ensures
        ({
            let head = "You are Aurora, an AI coding assistant. You help users with software engineering tasks.\n\nAvailable tools:\n"@
                + base_tools();
            let tail = "\n\n"@ + guidelines();
            &&& system_prompt(false) == head + tail
            &&& system_prompt(true) == head + deneb_tools() + tail
        }),
{
    let head = "You are Aurora, an AI coding assistant. You help users with software engineering tasks.\n\nAvailable tools:\n"@
        + base_tools();
    let tail = "\n\n"@ + guidelines();
    assert(system_prompt(false) =~= head + tail);
    assert(system_prompt(true) =~= head + deneb_tools() + tail);
}

/// A tool result within the byte limit is recorded as it is; a longer one
/// is recorded with its first 30 000 characters first.
pub proof fn law_tool_result_prefix(result: Seq<char>)
    ensures
        byte_len(result) <= MAX_TOOL_RESULT_LEN ==> shortened_tool_result(result) == result,
        byte_len(result) > MAX_TOOL_RESULT_LEN ==> shortened_tool_result(result).take(
            take_upto(result, MAX_TOOL_RESULT_LEN as nat).len() as int,
        ) == take_upto(result, MAX_TOOL_RESULT_LEN as nat),
{
    if byte_len(result) > MAX_TOOL_RESULT_LEN {
        let kept = take_upto(result, MAX_TOOL_RESULT_LEN as nat);
        assert(shortened_tool_result(result).take(kept.len() as int) =~= kept);
    }
}
} // verus!
