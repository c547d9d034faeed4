//! The server's agent: like the desktop agent, but its prompt names the
//! working directory and more tools, a trimmed context is replaced by a
//! summary, and a long tool result keeps both its head and its tail.
use vstd::prelude::*;
use crate::agent::{
    cut_point, deneb_tools, is_plain_message, make_sys_msg, take_chars, take_upto, trim_start,
    MAX_CONTEXT_MESSAGES, MAX_TOOL_RESULT_LEN,
};
use crate::json::{json_str, json_str_at};
use crate::text::{
    byte_len, byte_length, chars_eq, chars_to_string, copy_range, copy_string, decimal, join,
    join_chars, lemma_byte_len_concat, lines, push_all, push_decimal, push_str_chars,
    split_lines, str_eq, str_to_chars, trim, trim_chars, views,
};
use crate::types::{Message, ToolCall};

verus! {

/// Characters of a long tool result kept from its start.
pub const HEAD_BUDGET: usize = 24_000;

/// Bytes of a long tool result kept from its end, whole lines only.
pub const TAIL_BUDGET: usize = 6_000;

/// The tools the server offers without the memory service.
pub open spec fn server_base_tools() -> Seq<char> {
    "- read_file: Read file contents with line numbers (path, optional offset/limit)
- write_file: Create or overwrite files (path, content)
- edit_file: Replace exact string matches in files (path, old_string, new_string)
- bash: Execute shell commands (command, optional timeout in seconds)
- grep: Search file contents with regex (pattern, optional path/include filter, case_insensitive, context_lines)
- glob: Find files by glob pattern (pattern, optional base path)
- list_dir: List directory contents with file types and sizes (path, optional recursive/max_depth)
- web_fetch: Fetch a web page and return cleaned content with metadata (url, optional include_metadata/raw)"@
}

/// The server's working guidelines.
pub open spec fn server_guidelines() -> Seq<char> {
    "Guidelines:
1. **Understand before acting**: Always read files and explore the project structure before making changes. Use list_dir and grep to build context.
2. **Think step by step**: For complex tasks, break the problem down. Explain your reasoning before implementing changes.
3. **Precise edits**: old_string in edit_file must match exactly once. Include enough surrounding context to ensure uniqueness.
4. **Verify your work**: After making changes, read the modified file or run tests/builds to confirm correctness.
5. **Respond in the user's language**: Match the language the user writes in.
6. **Explain changes**: When modifying code, briefly explain what changed and why.
7. **Use markdown**: Format code blocks with language identifiers for readability.
8. **Focused commands**: Keep bash commands targeted; use timeout for long-running tasks.
9. **Explore broadly, edit narrowly**: When diagnosing issues, search widely across the codebase. When fixing, make minimal targeted changes.
10. **Error recovery**: If a tool call fails, analyze the error, adjust your approach, and retry with corrected parameters."@
}

/// The opening of the server's prompt.
pub open spec fn server_intro() -> Seq<char> {
    "You are Aurora, an AI coding assistant powered by advanced reasoning. You help users with software engineering tasks including debugging, implementing features, refactoring, code review, and project exploration.\n\n"@
}

/// The server's system prompt for a working directory.
pub open spec fn server_system_prompt(cwd: Seq<char>, deneb_connected: bool) -> Seq<char> {
    server_intro() + "Working directory: "@ + cwd + "\n\n"@ + "Available tools:\n"@
        + server_base_tools() + (if deneb_connected {
        deneb_tools()
    } else {
        seq![]
    }) + "\n\n"@ + server_guidelines()
}

/// Build the server's system prompt; `cwd` is the working directory as text
/// (`(unknown)` when it cannot be read).
pub fn build_system_prompt(cwd: &str, deneb_connected: bool) -> (r: String)
    ensures
        r@ == server_system_prompt(cwd@, deneb_connected),
{
    let mut p: Vec<char> = Vec::new();
    push_str_chars(
        &mut p,
        "You are Aurora, an AI coding assistant powered by advanced reasoning. You help users with software engineering tasks including debugging, implementing features, refactoring, code review, and project exploration.\n\n",
    );
    push_str_chars(&mut p, "Working directory: ");
    push_str_chars(&mut p, cwd);
    push_str_chars(&mut p, "\n\n");
    push_str_chars(&mut p, "Available tools:\n");
    push_str_chars(
        &mut p,
        "- read_file: Read file contents with line numbers (path, optional offset/limit)
- write_file: Create or overwrite files (path, content)
- edit_file: Replace exact string matches in files (path, old_string, new_string)
- bash: Execute shell commands (command, optional timeout in seconds)
- grep: Search file contents with regex (pattern, optional path/include filter, case_insensitive, context_lines)
- glob: Find files by glob pattern (pattern, optional base path)
- list_dir: List directory contents with file types and sizes (path, optional recursive/max_depth)
- web_fetch: Fetch a web page and return cleaned content with metadata (url, optional include_metadata/raw)",
    );
    if deneb_connected {
        push_str_chars(
            &mut p,
            "
- ask_deneb: Deneb AI 에이전트에게 질문 전송 (message, optional session_key). Deneb은 장기 메모리를 가진 AI 에이전트입니다.
- deneb_memory: Deneb의 장기 메모리에서 검색 (query)",
        );
    }
    push_str_chars(&mut p, "\n\n");
    push_str_chars(
        &mut p,
        "Guidelines:
1. **Understand before acting**: Always read files and explore the project structure before making changes. Use list_dir and grep to build context.
2. **Think step by step**: For complex tasks, break the problem down. Explain your reasoning before implementing changes.
3. **Precise edits**: old_string in edit_file must match exactly once. Include enough surrounding context to ensure uniqueness.
4. **Verify your work**: After making changes, read the modified file or run tests/builds to confirm correctness.
5. **Respond in the user's language**: Match the language the user writes in.
6. **Explain changes**: When modifying code, briefly explain what changed and why.
7. **Use markdown**: Format code blocks with language identifiers for readability.
8. **Focused commands**: Keep bash commands targeted; use timeout for long-running tasks.
9. **Explore broadly, edit narrowly**: When diagnosing issues, search widely across the codebase. When fixing, make minimal targeted changes.
10. **Error recovery**: If a tool call fails, analyze the error, adjust your approach, and retry with corrected parameters.",
    );
    assert(p@ =~= server_system_prompt(cwd@, deneb_connected));
    chars_to_string(p.as_slice())
}

// ─── Summary of a trimmed context ───

/// What a summary records of the messages it replaces.
pub struct Digest {
    pub topics: Seq<Seq<char>>,
    pub tools: Seq<Seq<char>>,
    pub files: Seq<Seq<char>>,
}

pub open spec fn empty_digest() -> Digest {
    Digest { topics: seq![], tools: seq![], files: seq![] }
}

/// `s` with `x` added at the end unless it is already there.
pub open spec fn add_unique(s: Seq<Seq<char>>, x: Seq<char>) -> Seq<Seq<char>> {
    if s.contains(x) {
        s
    } else {
        s.push(x)
    }
}

/// The first `n` items of `s`, or all of them when there are fewer.
pub open spec fn first_n<T>(s: Seq<T>, n: nat) -> Seq<T> {
    if n <= s.len() {
        s.take(n as int)
    } else {
        s
    }
}

/// The digest after some tool calls: each tool name once, and each `path`
/// argument once, in order of first appearance.
pub open spec fn calls_digest(d: Digest, calls: Seq<ToolCall>) -> Digest
    decreases calls.len(),
{
    if calls.len() == 0 {
        d
    } else {
        let d0 = calls_digest(d, calls.drop_last());
        let tc = calls.last();
        Digest {
            tools: add_unique(d0.tools, tc.function.name@),
            files: match json_str_at(tc.function.arguments@, "/path"@) {
                Some(p) => add_unique(d0.files, p),
                None => d0.files,
            },
            ..d0
        }
    }
}

/// The first line of a text, trimmed.
pub open spec fn first_line(c: Seq<char>) -> Seq<char> {
    trim(
        if lines(c).len() > 0 {
            lines(c)[0]
        } else {
            seq![]
        },
    )
}

/// The digest after one message. A message without content is passed over;
/// a user message adds its first line (up to 80 characters) as a topic.
pub open spec fn message_digest(d: Digest, m: Message) -> Digest {
    match m.content {
        None => d,
        Some(c) => {
            let d1 = if m.role@ == "user"@ && first_line(c@).len() > 0 {
                Digest { topics: d.topics.push(take_upto(first_line(c@), 80)), ..d }
            } else {
                d
            };
            match m.tool_calls {
                None => d1,
                Some(tcs) => calls_digest(d1, tcs@),
            }
        },
    }
}

/// The digest of a run of messages, in order.
pub open spec fn digest(ms: Seq<Message>) -> Digest
    decreases ms.len(),
{
    if ms.len() == 0 {
        empty_digest()
    } else {
        message_digest(digest(ms.drop_last()), ms.last())
    }
}

/// The summary text: up to 5 topics, the tools, up to 10 files, one line
/// each, leaving out what is empty.
pub open spec fn summary_text(d: Digest) -> Seq<char> {
    let parts = (if d.topics.len() > 0 {
        seq!["User topics: "@ + join(first_n(d.topics, 5), "; "@)]
    } else {
        seq![]
    }) + (if d.tools.len() > 0 {
        seq!["Tools used: "@ + join(d.tools, ", "@)]
    } else {
        seq![]
    }) + (if d.files.len() > 0 {
        seq!["Files touched: "@ + join(first_n(d.files, 10), ", "@)]
    } else {
        seq![]
    });
    join(parts, "\n"@)
}

/// The tool calls leave the topics alone, and what they add to the tools
/// and files depends on those lists only.
proof fn lemma_calls_digest_parts(d: Digest, calls: Seq<ToolCall>)
    ensures
        calls_digest(d, calls).topics == d.topics,
        calls_digest(d, calls).tools == calls_digest(
            Digest { topics: seq![], tools: d.tools, files: d.files },
            calls,
        ).tools,
        calls_digest(d, calls).files == calls_digest(
            Digest { topics: seq![], tools: d.tools, files: d.files },
            calls,
        ).files,
    decreases calls.len(),
{
    if calls.len() > 0 {
        lemma_calls_digest_parts(d, calls.drop_last());
    }
}

/// Whether `x` is one of the sequences held by `v`.
fn contains_seq_in(v: &Vec<Vec<char>>, x: &[char]) -> (r: bool)
    ensures
        r == views(v@).contains(x@),
{
    let mut i: usize = 0;
    while i < v.len()
        invariant
            i <= v@.len(),
            forall|j: int| 0 <= j < i ==> views(v@)[j] != x@,
        decreases v@.len() - i,
    {
        if chars_eq(v[i].as_slice(), x) {
            assert(views(v@)[i as int] == x@);
            return true;
        }
        i = i + 1;
    }
    proof {
        if views(v@).contains(x@) {
            let j = choose|j: int| 0 <= j < views(v@).len() && views(v@)[j] == x@;
            assert(views(v@)[j] != x@);
        }
    }
    false
}

/// Adds `x` at the end of `v` unless it is already there.
fn push_unique(v: &mut Vec<Vec<char>>, x: Vec<char>)
    ensures
        views(final(v)@) == add_unique(views(old(v)@), x@),
{
    if !contains_seq_in(v, x.as_slice()) {
        let ghost before = views(v@);
        v.push(x);
        assert(views(v@) =~= before.push(x@));
    }
}

/// The first line of a text, trimmed (exec).
fn first_line_of(c: &str) -> (r: Vec<char>)
    ensures
        r@ == first_line(c@),
{
    let cs = str_to_chars(c);
    let ls = split_lines(cs.as_slice());
    if ls.len() > 0 {
        assert(views(ls@)[0] == ls@[0]@);
        trim_chars(ls[0].as_slice())
    } else {
        let empty: Vec<char> = Vec::new();
        trim_chars(empty.as_slice())
    }
}

/// Digest the tool calls of one message into the running lists.
fn digest_calls(tools: &mut Vec<Vec<char>>, files: &mut Vec<Vec<char>>, calls: &Vec<ToolCall>)
    ensures
        ({
            let d = calls_digest(
                Digest { topics: seq![], tools: views(old(tools)@), files: views(old(files)@) },
                calls@,
            );
            views(final(tools)@) == d.tools && views(final(files)@) == d.files
        }),
{
    let ghost d0 = Digest { topics: seq![], tools: views(tools@), files: views(files@) };
    let mut i: usize = 0;
    while i < calls.len()
        invariant
            i <= calls@.len(),
            ({
                let d = calls_digest(d0, calls@.take(i as int));
                views(tools@) == d.tools && views(files@) == d.files
            }),
        decreases calls@.len() - i,
    {
        let tc = &calls[i];
        proof {
            assert(calls@.take(i + 1).drop_last() =~= calls@.take(i as int));
            assert(calls@.take(i + 1).last() == calls@[i as int]);
        }
        let name = str_to_chars(tc.function.name.as_str());
        push_unique(tools, name);
        match json_str(tc.function.arguments.as_str(), "/path") {
            Some(p) => {
                let pc = str_to_chars(p.as_str());
                push_unique(files, pc);
            },
            None => {},
        }
        i = i + 1;
    }
    assert(calls@.take(calls@.len() as int) =~= calls@);
}

/// Joins the first `n` sequences of `v` (all when there are fewer) with `sep`.
fn join_first(v: &Vec<Vec<char>>, n: usize, sep: &str) -> (r: Vec<char>)
    ensures
        r@ == join(first_n(views(v@), n as nat), sep@),
{
    let m = if n <= v.len() {
        n
    } else {
        v.len()
    };
    let mut head: Vec<Vec<char>> = Vec::new();
    let mut i: usize = 0;
    while i < m
        invariant
            i <= m <= v@.len(),
            head@.len() == i,
            forall|j: int| 0 <= j < i ==> (#[trigger] head@[j])@ == v@[j]@,
        decreases m - i,
    {
        let x = copy_range(v[i].as_slice(), 0, v[i].len());
        assert(v@[i as int]@.subrange(0, v@[i as int]@.len() as int) =~= v@[i as int]@);
        head.push(x);
        i = i + 1;
    }
    assert(views(head@) =~= first_n(views(v@), n as nat));
    let sepc = str_to_chars(sep);
    join_chars(&head, sepc.as_slice())
}

/// A summary of the messages a trim removes: the user's topics, the tools
/// used and the files they touched.
pub fn summarize_trimmed(messages: &[Message]) -> (r: String)
    ensures
        r@ == summary_text(digest(messages@)),
{
    let mut topics: Vec<Vec<char>> = Vec::new();
    let mut tools: Vec<Vec<char>> = Vec::new();
    let mut files: Vec<Vec<char>> = Vec::new();
    let mut i: usize = 0;
    assert(messages@.take(0) =~= Seq::<Message>::empty());
    assert(views(topics@) =~= Seq::<Seq<char>>::empty());
    assert(views(tools@) =~= Seq::<Seq<char>>::empty());
    assert(views(files@) =~= Seq::<Seq<char>>::empty());
    while i < messages.len()
        invariant
            i <= messages@.len(),
            digest(messages@.take(i as int)).topics == views(topics@),
            digest(messages@.take(i as int)).tools == views(tools@),
            digest(messages@.take(i as int)).files == views(files@),
        decreases messages@.len() - i,
    {
        let msg = &messages[i];
        proof {
            assert(messages@.take(i + 1).drop_last() =~= messages@.take(i as int));
            assert(messages@.take(i + 1).last() == messages@[i as int]);
        }
        match &msg.content {
            None => {},
            Some(c) => {
                if str_eq(msg.role.as_str(), "user") {
                    let fl = first_line_of(c.as_str());
                    if fl.len() > 0 {
                        let t = take_chars(fl.as_slice(), 80);
                        let ghost before = views(topics@);
                        topics.push(t);
                        assert(views(topics@) =~= before.push(t@));
                    }
                }
                match &msg.tool_calls {
                    None => {},
                    Some(tcs) => {
                        proof {
                            let d = digest(messages@.take(i as int));
                            let d1 = if msg.role@ == "user"@ && first_line(c@).len() > 0 {
                                Digest { topics: d.topics.push(take_upto(first_line(c@), 80)), ..d }
                            } else {
                                d
                            };
                            lemma_calls_digest_parts(d1, tcs@);
                        }
                        digest_calls(&mut tools, &mut files, tcs);
                    },
                }
            },
        }
        i = i + 1;
    }
    assert(messages@.take(messages@.len() as int) =~= messages@);
    let ghost d = digest(messages@);
    let mut parts: Vec<Vec<char>> = Vec::new();
    if topics.len() > 0 {
        let mut p: Vec<char> = Vec::new();
        push_str_chars(&mut p, "User topics: ");
        let j = join_first(&topics, 5, "; ");
        push_all(&mut p, j.as_slice());
        parts.push(p);
    }
    if tools.len() > 0 {
        let mut p: Vec<char> = Vec::new();
        push_str_chars(&mut p, "Tools used: ");
        let j = join_first(&tools, tools.len(), ", ");
        push_all(&mut p, j.as_slice());
        assert(first_n(views(tools@), tools@.len() as nat) =~= views(tools@));
        parts.push(p);
    }
    if files.len() > 0 {
        let mut p: Vec<char> = Vec::new();
        push_str_chars(&mut p, "Files touched: ");
        let j = join_first(&files, 10, ", ");
        push_all(&mut p, j.as_slice());
        parts.push(p);
    }
    let ghost expected = (if d.topics.len() > 0 {
        seq!["User topics: "@ + join(first_n(d.topics, 5), "; "@)]
    } else {
        seq![]
    }) + (if d.tools.len() > 0 {
        seq!["Tools used: "@ + join(d.tools, ", "@)]
    } else {
        seq![]
    }) + (if d.files.len() > 0 {
        seq!["Files touched: "@ + join(first_n(d.files, 10), ", "@)]
    } else {
        seq![]
    });
    assert(views(parts@) =~= expected);
    let nl = ['\n'];
    let out = join_chars(&parts, &nl);
    proof {
        reveal_strlit("\n");
    }
    assert(nl@ =~= "\n"@);
    chars_to_string(out.as_slice())
}

/// The heading of the message that replaces trimmed messages.
pub open spec fn summary_heading() -> Seq<char> {
    "[Context trimmed — summary of earlier conversation]\n"@
}

/// The history after trimming: unchanged within the limit; else the system
/// prompt, a system message summarizing the messages cut (when the summary
/// is not empty), and the messages from the cut on.
pub open spec fn trimmed_ok(h: Seq<Message>, r: Seq<Message>) -> bool {
    if h.len() <= MAX_CONTEXT_MESSAGES {
        r == h
    } else {
        let s = trim_start(h);
        let sum = summary_text(digest(h.subrange(1, s)));
        if sum.len() > 0 {
            &&& r.len() == h.len() - s + 2
            &&& r[0] == h[0]
            &&& is_plain_message(r[1], "system"@, summary_heading() + sum)
            &&& r.skip(2) == h.skip(s)
        } else {
            r == seq![h[0]] + h.skip(s)
        }
    }
}

/// The server's agent.
pub struct Agent {
    messages: Vec<Message>,
    total_prompt_tokens: i32,
    total_completion_tokens: i32,
    deneb_connected: bool,
}

impl Agent {
    /// The messages of the conversation, system prompt first.
    pub closed spec fn history(&self) -> Seq<Message> {
        self.messages@
    }

    pub closed spec fn deneb(&self) -> bool {
        self.deneb_connected
    }

    pub closed spec fn prompt_tokens(&self) -> int {
        self.total_prompt_tokens as int
    }

    pub closed spec fn completion_tokens(&self) -> int {
        self.total_completion_tokens as int
    }

    /// An agent whose history holds only the system prompt for `cwd`.
    pub fn new(cwd: &str, deneb_connected: bool) -> (r: Self)
        ensures
            r.history().len() == 1,
            is_plain_message(r.history()[0], "system"@, server_system_prompt(cwd@, deneb_connected)),
            r.deneb() == deneb_connected,
            r.prompt_tokens() == 0,
            r.completion_tokens() == 0,
    {
        let prompt = build_system_prompt(cwd, deneb_connected);
        let mut messages: Vec<Message> = Vec::new();
        messages.push(make_sys_msg(prompt.as_str()));
        Agent { messages, total_prompt_tokens: 0, total_completion_tokens: 0, deneb_connected }
    }

    /// Forget the conversation: a fresh system prompt (for the working
    /// directory now), token totals restart.
    pub fn clear(&mut self, cwd: &str)
        ensures
            final(self).history().len() == 1,
            is_plain_message(
                final(self).history()[0],
                "system"@,
                server_system_prompt(cwd@, old(self).deneb()),
            ),
            final(self).deneb() == old(self).deneb(),
            final(self).prompt_tokens() == 0,
            final(self).completion_tokens() == 0,
    {
        let prompt = build_system_prompt(cwd, self.deneb_connected);
        let mut messages: Vec<Message> = Vec::new();
        messages.push(make_sys_msg(prompt.as_str()));
        self.messages = messages;
        self.total_prompt_tokens = 0;
        self.total_completion_tokens = 0;
    }

    /// The whole history, system prompt first (what is sent to the model).
    pub fn messages(&self) -> (r: &[Message])
        ensures
            r@ == self.history(),
    {
        self.messages.as_slice()
    }

    /// The conversation without the system prompt (what is exported).
    pub fn conversation(&self) -> (r: &[Message])
        ensures
            r@ == if self.history().len() == 0 {
                seq![]
            } else {
                self.history().skip(1)
            },
    {
        let n = self.messages.len();
        if n == 0 {
            return self.messages.as_slice();
        }
        let s = self.messages.as_slice();
        let (_, rest) = s.split_at(1);
        assert(rest@ =~= self.messages@.skip(1));
        rest
    }

    /// Trim older messages to keep the context within bounds, replacing them
    /// by a summary.
    pub fn trim_context(&mut self)
        requires
            old(self).history().len() >= 1,
        ensures
            trimmed_ok(old(self).history(), final(self).history()),
            final(self).deneb() == old(self).deneb(),
            final(self).prompt_tokens() == old(self).prompt_tokens(),
            final(self).completion_tokens() == old(self).completion_tokens(),
    {
        let n = self.messages.len();
        if n <= MAX_CONTEXT_MESSAGES {
            return;
        }
        let ghost h = self.messages@;
        let safe_start = cut_point(&self.messages);
        let summary = {
            let all = self.messages.as_slice();
            let (front, _) = all.split_at(safe_start);
            let (_, trimmed) = front.split_at(1);
            assert(trimmed@ =~= h.subrange(1, safe_start as int));
            summarize_trimmed(trimmed)
        };
        let mut rest = self.messages.split_off(safe_start);
        let system = self.messages.swap_remove(0);
        let mut kept: Vec<Message> = Vec::new();
        kept.push(system);
        if !summary.as_str().is_empty() {
            let mut text: Vec<char> = Vec::new();
            push_str_chars(&mut text, "[Context trimmed — summary of earlier conversation]\n");
            push_str_chars(&mut text, summary.as_str());
            let m = make_sys_msg(chars_to_string(text.as_slice()).as_str());
            kept.push(m);
            let ghost k2 = kept@;
            kept.append(&mut rest);
            assert(kept@.skip(2) =~= h.skip(safe_start as int));
        } else {
            kept.append(&mut rest);
            assert(kept@ =~= seq![h[0]] + h.skip(safe_start as int));
        }
        self.messages = kept;
    }

    /// Start a turn: the user's message is added and the context trimmed.
    pub fn begin_turn(&mut self, user_message: String)
        requires
            old(self).history().len() >= 1,
        ensures
            exists|m: Message|
                is_plain_message(m, "user"@, user_message@) && trimmed_ok(
                    #[trigger] old(self).history().push(m),
                    final(self).history(),
                ),
            final(self).deneb() == old(self).deneb(),
            final(self).prompt_tokens() == old(self).prompt_tokens(),
            final(self).completion_tokens() == old(self).completion_tokens(),
    {
        let m = Message {
            role: copy_string("user"),
            content: Some(user_message),
            tool_calls: None,
            tool_call_id: None,
        };
        let ghost gm = m;
        self.messages.push(m);
        self.trim_context();
        assert(is_plain_message(gm, "user"@, user_message@));
    }

    /// The prompt and completion tokens counted so far.
    pub fn totals(&self) -> (r: (i32, i32))
        ensures
            r.0 == self.prompt_tokens(),
            r.1 == self.completion_tokens(),
    {
        (self.total_prompt_tokens, self.total_completion_tokens)
    }

    /// Add the token usage of one response; returns the new totals.
    pub fn add_usage(&mut self, prompt: i32, completion: i32) -> (r: (i32, i32))
        requires
            i32::MIN <= old(self).prompt_tokens() + prompt <= i32::MAX,
            i32::MIN <= old(self).completion_tokens() + completion <= i32::MAX,
        ensures
            final(self).prompt_tokens() == old(self).prompt_tokens() + prompt,
            final(self).completion_tokens() == old(self).completion_tokens() + completion,
            r.0 == final(self).prompt_tokens(),
            r.1 == final(self).completion_tokens(),
            final(self).history() == old(self).history(),
            final(self).deneb() == old(self).deneb(),
    {
        self.total_prompt_tokens = self.total_prompt_tokens + prompt;
        self.total_completion_tokens = self.total_completion_tokens + completion;
        (self.total_prompt_tokens, self.total_completion_tokens)
    }

    /// Record the model's reply; returns whether it asks for tool calls.
    pub fn record_assistant(&mut self, msg: Message) -> (r: bool)
        ensures
            final(self).history() == old(self).history().push(msg),
            r == (msg.tool_calls matches Some(tc) && tc@.len() > 0),
            final(self).deneb() == old(self).deneb(),
            final(self).prompt_tokens() == old(self).prompt_tokens(),
            final(self).completion_tokens() == old(self).completion_tokens(),
    {
        let has_tools = match &msg.tool_calls {
            Some(tc) => tc.len() > 0,
            None => false,
        };
        self.messages.push(msg);
        has_tools
    }

    /// Record the result of a tool call, shortened when it is very large.
    pub fn record_tool_result(&mut self, tool_call_id: String, result: &str)
        requires
            byte_len(result@) <= usize::MAX,
        ensures
            ({
                let h = final(self).history();
                &&& h.len() == old(self).history().len() + 1
                &&& h.drop_last() == old(self).history()
                &&& h.last().role@ == "tool"@
                &&& h.last().content matches Some(c) && c@ == head_tail_result(result@)
                &&& h.last().tool_calls is None
                &&& h.last().tool_call_id == Some(tool_call_id)
            }),
            final(self).deneb() == old(self).deneb(),
            final(self).prompt_tokens() == old(self).prompt_tokens(),
            final(self).completion_tokens() == old(self).completion_tokens(),
    {
        let content = truncate_tool_result(result);
        let ghost old_h = self.messages@;
        self.messages.push(
            Message {
                role: copy_string("tool"),
                content: Some(content),
                tool_calls: None,
                tool_call_id: Some(tool_call_id),
            },
        );
        assert(self.messages@.drop_last() =~= old_h);
    }
}

// ─── Long tool results ───

/// Where the kept tail begins: going back from line `k`, lines are kept
/// while their bytes (each with its line ending) fit in the tail budget
/// together with those already kept (`used`).
pub open spec fn tail_start_from(ls: Seq<Seq<char>>, k: int, used: nat) -> int
    decreases k,
{
    if k <= 0 {
        0
    } else if used + byte_len(ls[k - 1]) + 1 > TAIL_BUDGET {
        k
    } else {
        tail_start_from(ls, k - 1, used + byte_len(ls[k - 1]) + 1)
    }
}

/// A tool result over the byte limit keeps its first 24 000 characters and
/// its last lines (up to 6 000 bytes), with a note on how many lines were
/// left out between; when no line would be left out it is cut to its first
/// 30 000 characters with a note instead. A smaller result is kept whole.
pub open spec fn head_tail_result(result: Seq<char>) -> Seq<char> {
    if byte_len(result) > MAX_TOOL_RESULT_LEN {
        let ls = lines(result);
        let total = ls.len();
        let head = take_upto(result, HEAD_BUDGET as nat);
        let head_lines = lines(head).len();
        let ts = tail_start_from(ls, total as int, 0);
        if ts > head_lines {
            head + "\n\n[... "@ + decimal((ts - head_lines) as nat) + " lines omitted ("@
                + decimal(byte_len(result)) + seq!['/'] + decimal(MAX_TOOL_RESULT_LEN as nat)
                + " bytes total, "@ + decimal(total) + " lines) ...]\n\n"@ + join(
                ls.skip(ts),
                seq!['\n'],
            )
        } else {
            take_upto(result, MAX_TOOL_RESULT_LEN as nat) + "\n\n[Truncated: "@ + decimal(
                MAX_TOOL_RESULT_LEN as nat,
            ) + seq!['/'] + decimal(byte_len(result)) + " bytes, "@ + decimal(total)
                + " lines total]"@
        }
    } else {
        result
    }
}

/// The start of the kept tail of `ls`.
fn tail_start(ls: &Vec<Vec<char>>) -> (r: usize)
    ensures
        r == tail_start_from(views(ls@), ls@.len() as int, 0),
        r <= ls@.len(),
{
    let ghost v = views(ls@);
    let n = ls.len();
    let mut k: usize = n;
    let mut used: usize = 0;
    while k > 0
        invariant
            k <= n == ls@.len() == v.len(),
            v == views(ls@),
            used <= TAIL_BUDGET,
            tail_start_from(v, n as int, 0) == tail_start_from(v, k as int, used as nat),
        decreases k,
    {
        assert(v[k - 1] == ls@[k - 1]@);
        match crate::text::byte_length_below(ls[k - 1].as_slice(), TAIL_BUDGET - used) {
            None => {
                return k;
            },
            Some(b) => {
                used = used + b + 1;
                k = k - 1;
            },
        }
    }
    0
}

/// Shorten a very large tool result, keeping its head and its tail.
pub fn truncate_tool_result(result: &str) -> (r: String)
    requires
        byte_len(result@) <= usize::MAX,
    ensures
        r@ == head_tail_result(result@),
{
    let c = str_to_chars(result);
    let total = byte_length(c.as_slice());
    if total <= MAX_TOOL_RESULT_LEN {
        return chars_to_string(c.as_slice());
    }
    let ls = split_lines(c.as_slice());
    let ghost v = views(ls@);
    let n = ls.len();
    let head = take_chars(c.as_slice(), HEAD_BUDGET);
    let head_lines = split_lines(head.as_slice());
    let hl = head_lines.len();
    let ts = tail_start(&ls);
    proof {
        assert(views(head_lines@).len() == hl);
        assert(v.len() == n);
    }
    let mut out: Vec<char> = Vec::new();
    if ts > hl {
        let mut tail: Vec<Vec<char>> = Vec::new();
        let mut i: usize = ts;
        while i < n
            invariant
                ts <= i <= n == ls@.len() == v.len(),
                v == views(ls@),
                views(tail@) == v.subrange(ts as int, i as int),
            decreases n - i,
        {
            let x = copy_range(ls[i].as_slice(), 0, ls[i].len());
            assert(ls@[i as int]@.subrange(0, ls@[i as int]@.len() as int) =~= v[i as int]);
            let ghost before = views(tail@);
            tail.push(x);
            i = i + 1;
            assert(views(tail@) =~= before.push(x@));
            assert(v.subrange(ts as int, i as int) =~= v.subrange(ts as int, i - 1).push(
                v[i - 1],
            ));
        }
        assert(v.subrange(ts as int, n as int) =~= v.skip(ts as int));
        push_all(&mut out, head.as_slice());
        push_str_chars(&mut out, "\n\n[... ");
        push_decimal(&mut out, (ts - hl) as u64);
        push_str_chars(&mut out, " lines omitted (");
        push_decimal(&mut out, total as u64);
        out.push('/');
        push_decimal(&mut out, MAX_TOOL_RESULT_LEN as u64);
        push_str_chars(&mut out, " bytes total, ");
        push_decimal(&mut out, n as u64);
        push_str_chars(&mut out, " lines) ...]\n\n");
        let j = join_chars(&tail, &['\n']);
        push_all(&mut out, j.as_slice());
        assert(['\n']@ =~= seq!['\n']);
    } else {
        let kept = take_chars(c.as_slice(), MAX_TOOL_RESULT_LEN);
        push_all(&mut out, kept.as_slice());
        push_str_chars(&mut out, "\n\n[Truncated: ");
        push_decimal(&mut out, MAX_TOOL_RESULT_LEN as u64);
        out.push('/');
        push_decimal(&mut out, total as u64);
        push_str_chars(&mut out, " bytes, ");
        push_decimal(&mut out, n as u64);
        push_str_chars(&mut out, " lines total]");
    }
    assert(out@ =~= head_tail_result(result@));
    chars_to_string(out.as_slice())
}

// ─── Laws ───

/// The server's trimming keeps the system prompt first and at most one
/// message more than the limit (the summary), and the messages after the
/// system prompt and the summary are the most recent of the history.
pub proof fn law_server_trim_bounded(h: Seq<Message>, r: Seq<Message>)
    requires
        h.len() >= 1,
        trimmed_ok(h, r),
    ensures
        r.len() <= MAX_CONTEXT_MESSAGES + 1,
        r[0] == h[0],
        h.len() > MAX_CONTEXT_MESSAGES ==> exists|k: int|
            1 <= k <= 2 && #[trigger] r.skip(k) == h.skip(h.len() - (r.len() - k)),
{
    if h.len() > MAX_CONTEXT_MESSAGES {
        let kf = h.len() - (MAX_CONTEXT_MESSAGES - 1);
        crate::agent::lemma_first_user_from(h, kf, kf);
        let s = trim_start(h);
        let sum = summary_text(digest(h.subrange(1, s)));
        if sum.len() > 0 {
            assert(r.skip(2) == h.skip(h.len() - (r.len() - 2)));
        } else {
            assert(r.skip(1) =~= h.skip(s));
            assert(r.skip(1) == h.skip(h.len() - (r.len() - 1)));
        }
    }
}

/// A long tool result keeps its first characters: its first 24 000 when
/// its tail is kept, its first 30 000 otherwise; a short one is kept whole.
pub proof fn law_head_kept(result: Seq<char>)
    ensures
        byte_len(result) <= MAX_TOOL_RESULT_LEN ==> head_tail_result(result) == result,
        byte_len(result) > MAX_TOOL_RESULT_LEN ==> {
            let out = head_tail_result(result);
            let head = take_upto(result, HEAD_BUDGET as nat);
            out.take(head.len() as int) == head
        },
{
    if byte_len(result) > MAX_TOOL_RESULT_LEN {
        let out = head_tail_result(result);
        let head = take_upto(result, HEAD_BUDGET as nat);
        let ls = lines(result);
        let hl = lines(head).len();
        let ts = tail_start_from(ls, ls.len() as int, 0);
        if ts > hl {
            assert(out.take(head.len() as int) =~= head);
        } else {
            let kept = take_upto(result, MAX_TOOL_RESULT_LEN as nat);
            assert(kept.take(head.len() as int) =~= head);
            assert(out.take(head.len() as int) =~= head);
        }
    }
}
} // verus!
