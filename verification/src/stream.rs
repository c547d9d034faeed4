//! The streaming chat-completion protocol: server-sent events are split into
//! data payloads, and the deltas they carry are accumulated into the
//! assistant's message.
//!
//! The network transfer and the JSON decoding of each payload are done by
//! the caller; this module holds what is decided on the text and the deltas.
use vstd::prelude::*;
use crate::text::{
    chars_eq, chars_to_string, concat_strs, copy_range, copy_string, find_char_from,
    lemma_next_index_is, lemma_next_index_of, next_index_of, push_all, push_decimal, push_str_chars, str_to_chars,
    string_views, trim, trim_chars, decimal,
};
use crate::types::{FunctionCall, Message, StreamEvent, ToolCall};

verus! {

/// Attempts of a request before giving up.
pub const MAX_RETRIES: usize = 3;

// ─── Server-sent events ───

/// The payload of an event line: the text after `data: ` (or `data:`), or the
/// whole line when it has neither prefix.
pub open spec fn sse_data(line: Seq<char>) -> Seq<char> {
    if line.len() >= 6 && line.take(6) == "data: "@ {
        line.skip(6)
    } else if line.len() >= 5 && line.take(5) == "data:"@ {
        line.skip(5)
    } else {
        line
    }
}

/// The payloads of the complete lines of `buf` from `start` on, and the
/// text left over. Each line is trimmed; empty lines and comments (lines
/// starting with `:`) are skipped; a `[DONE]` payload ends the drain, and
/// what follows it is left for later.
pub open spec fn sse_drain_from(buf: Seq<char>, start: int) -> (Seq<Seq<char>>, Seq<char>)
    decreases buf.len() + 1 - start,
    via sse_drain_decreases
{
    if start < 0 || start > buf.len() {
        (seq![], seq![])
    } else {
        let e = next_index_of(buf, '\n', start);
        if e >= buf.len() {
            (seq![], buf.subrange(start, buf.len() as int))
        } else {
            let line = trim(buf.subrange(start, e + 1));
            if line.len() == 0 || line[0] == ':' {
                sse_drain_from(buf, e + 1)
            } else {
                let data = trim(sse_data(line));
                if data == "[DONE]"@ {
                    (seq![], buf.subrange(e + 1, buf.len() as int))
                } else {
                    let rest = sse_drain_from(buf, e + 1);
                    (seq![data] + rest.0, rest.1)
                }
            }
        }
    }
}

#[via_fn]
proof fn sse_drain_decreases(buf: Seq<char>, start: int) {
    if 0 <= start <= buf.len() {
        lemma_next_index_of(buf, '\n', start);
    }
}

/// The payloads of the complete lines of `buf`, and what is left.
pub open spec fn sse_drain(buf: Seq<char>) -> (Seq<Seq<char>>, Seq<char>) {
    sse_drain_from(buf, 0)
}

/// Whether draining `buf` from `start` reaches a `[DONE]` payload.
pub open spec fn sse_done_from(buf: Seq<char>, start: int) -> bool
    decreases buf.len() + 1 - start,
    via sse_done_decreases
{
    if start < 0 || start > buf.len() {
        false
    } else {
        let e = next_index_of(buf, '\n', start);
        if e >= buf.len() {
            false
        } else {
            let line = trim(buf.subrange(start, e + 1));
            if line.len() == 0 || line[0] == ':' {
                sse_done_from(buf, e + 1)
            } else if trim(sse_data(line)) == "[DONE]"@ {
                true
            } else {
                sse_done_from(buf, e + 1)
            }
        }
    }
}

#[via_fn]
proof fn sse_done_decreases(buf: Seq<char>, start: int) {
    if 0 <= start <= buf.len() {
        lemma_next_index_of(buf, '\n', start);
    }
}

/// Whether the complete lines of `buf` end the stream.
pub open spec fn sse_done(buf: Seq<char>) -> bool {
    sse_done_from(buf, 0)
}

/// Text received from the event stream and not yet split into lines.
pub struct SseBuffer {
    buf: Vec<char>,
}

impl SseBuffer {
    /// The text not yet consumed.
    pub closed spec fn pending(&self) -> Seq<char> {
        self.buf@
    }

    pub fn new() -> (r: Self)
        ensures
            r.pending() == Seq::<char>::empty(),
    {
        SseBuffer { buf: Vec::new() }
    }

    /// Append a chunk of the stream and take the payloads of the lines it
    /// completes.
    pub fn feed(&mut self, chunk: &str) -> (r: Vec<String>)
        ensures
            string_views(r@) == sse_drain(old(self).pending() + chunk@).0,
            final(self).pending() == sse_drain(old(self).pending() + chunk@).1,
    {
        let mut all: Vec<char> = Vec::new();
        std::mem::swap(&mut all, &mut self.buf);
        push_str_chars(&mut all, chunk);
        let ghost a = all@;
        let n = all.len();
        let mut out: Vec<String> = Vec::new();
        let mut start: usize = 0;
        let mut rest_from: usize = n;
        loop
            invariant_except_break
                start <= n == a.len(),
                all@ == a,
                sse_drain(a) == (
                    string_views(out@) + sse_drain_from(a, start as int).0,
                    sse_drain_from(a, start as int).1,
                ),
            ensures
                rest_from <= n == a.len(),
                all@ == a,
                sse_drain(a) == (string_views(out@), a.subrange(rest_from as int, n as int)),
            decreases n - start,
        {
            proof {
                lemma_next_index_of(a, '\n', start as int);
            }
            let e = find_char_from(all.as_slice(), '\n', start);
            if e >= n {
                rest_from = start;
                assert(string_views(out@) + seq![] =~= string_views(out@));
                break;
            }
            let raw = copy_range(all.as_slice(), start, e + 1);
            let line = trim_chars(raw.as_slice());
            if line.len() == 0 || line[0] == ':' {
                start = e + 1;
                continue;
            }
            let payload = strip_data(line.as_slice());
            let data = trim_chars(payload.as_slice());
            if chars_eq(data.as_slice(), &['[', 'D', 'O', 'N', 'E', ']']) {
                proof {
                    reveal_strlit("[DONE]");
                    assert(['[', 'D', 'O', 'N', 'E', ']']@ =~= "[DONE]"@);
                }
                rest_from = e + 1;
                assert(string_views(out@) + seq![] =~= string_views(out@));
                break;
            }
            proof {
                reveal_strlit("[DONE]");
                assert(['[', 'D', 'O', 'N', 'E', ']']@ =~= "[DONE]"@);
            }
            let ghost before = string_views(out@);
            out.push(chars_to_string(data.as_slice()));
            proof {
                assert(string_views(out@) =~= before.push(data@));
                assert(before + (seq![data@] + sse_drain_from(a, e + 1).0) =~= string_views(out@)
                    + sse_drain_from(a, e + 1).0);
            }
            start = e + 1;
        }
        self.buf = copy_range(all.as_slice(), rest_from, n);
        out
    }
}

/// The line without its `data: ` or `data:` prefix.
fn strip_data(line: &[char]) -> (r: Vec<char>)
    ensures
        r@ == sse_data(line@),
{
    proof {
        reveal_strlit("data: ");
        reveal_strlit("data:");
    }
    let n = line.len();
    if n >= 6 && line[0] == 'd' && line[1] == 'a' && line[2] == 't' && line[3] == 'a' && line[4]
        == ':' && line[5] == ' ' {
        assert(line@.take(6) =~= "data: "@);
        assert(line@.subrange(6, n as int) =~= line@.skip(6));
        copy_range(line, 6, n)
    } else if n >= 5 && line[0] == 'd' && line[1] == 'a' && line[2] == 't' && line[3] == 'a'
        && line[4] == ':' {
        assert(line@.take(5) =~= "data:"@);
        proof {
            if n >= 6 && line@.take(6) == "data: "@ {
                assert(line@.take(6)[5] == ' ');
            }
        }
        assert(line@.subrange(5, n as int) =~= line@.skip(5));
        copy_range(line, 5, n)
    } else {
        proof {
            if n >= 6 && line@.take(6) == "data: "@ {
                assert(line@.take(6)[0] == 'd');
                assert(line@.take(6)[4] == ':');
                assert(line@.take(6)[5] == ' ');
            }
            if n >= 5 && line@.take(5) == "data:"@ {
                assert(line@.take(5)[0] == 'd');
                assert(line@.take(5)[4] == ':');
            }
        }
        assert(line@.subrange(0, n as int) =~= line@);
        copy_range(line, 0, n)
    }
}

// ─── Accumulating the response ───

/// A tool call being assembled from deltas.
pub struct ToolCallBuilder {
    pub id: String,
    pub name: String,
    pub arguments: String,
}

/// A tool call being assembled, as values.
pub struct BuilderModel {
    pub id: Seq<char>,
    pub name: Seq<char>,
    pub arguments: Seq<char>,
}

pub open spec fn builder_model(b: ToolCallBuilder) -> BuilderModel {
    BuilderModel { id: b.id@, name: b.name@, arguments: b.arguments@ }
}

pub open spec fn empty_builder() -> BuilderModel {
    BuilderModel { id: seq![], name: seq![], arguments: seq![] }
}

/// The builders, with empty ones added so that position `idx` exists.
pub open spec fn grown(b: Seq<BuilderModel>, idx: nat) -> Seq<BuilderModel> {
    if idx < b.len() {
        b
    } else {
        b + Seq::new((idx + 1 - b.len()) as nat, |i: int| empty_builder())
    }
}

/// A builder after a delta: a non-empty id or name replaces the one held,
/// argument text is appended.
pub open spec fn merged(b: BuilderModel, id: Seq<char>, name: Seq<char>, arguments: Seq<char>) -> BuilderModel {
    BuilderModel {
        id: if id.len() > 0 {
            id
        } else {
            b.id
        },
        name: if name.len() > 0 {
            name
        } else {
            b.name
        },
        arguments: b.arguments + arguments,
    }
}

/// The builders after a delta for the call at position `idx`.
pub open spec fn with_delta(
    b: Seq<BuilderModel>,
    idx: nat,
    id: Seq<char>,
    name: Seq<char>,
    arguments: Seq<char>,
) -> Seq<BuilderModel> {
    grown(b, idx).update(idx as int, merged(grown(b, idx)[idx as int], id, name, arguments))
}

/// The position a delta refers to; a delta without one refers to the first call.
pub open spec fn delta_index(index: Option<i32>) -> nat {
    match index {
        Some(i) => i as nat,
        None => 0,
    }
}

/// The assistant's message as it is received.
pub struct StreamAccumulator {
    content: String,
    tool_calls: Vec<ToolCallBuilder>,
}

/// Whether `r` is the message assembled from `content` and `builders`: no
/// content when none arrived, no tool calls when none were announced.
pub open spec fn assembled(r: Message, content: Seq<char>, builders: Seq<BuilderModel>) -> bool {
    &&& r.role@ == "assistant"@
    &&& if content.len() == 0 {
        r.content is None
    } else {
        r.content matches Some(c) && c@ == content
    }
    &&& if builders.len() == 0 {
        r.tool_calls is None
    } else {
        r.tool_calls matches Some(v) && v@.len() == builders.len() && forall|i: int|
            0 <= i < builders.len() ==> {
                let t = #[trigger] v@[i];
                &&& t.id@ == builders[i].id
                &&& t.call_type@ == "function"@
                &&& t.function.name@ == builders[i].name
                &&& t.function.arguments@ == builders[i].arguments
                &&& t.index is None
            }
    }
    &&& r.tool_call_id is None
}

impl StreamAccumulator {
    /// The text received so far.
    pub closed spec fn content(&self) -> Seq<char> {
        self.content@
    }

    /// The tool calls announced so far.
    pub closed spec fn builders(&self) -> Seq<BuilderModel> {
        Seq::new(self.tool_calls@.len(), |i: int| builder_model(self.tool_calls@[i]))
    }

    pub fn new() -> (r: Self)
        ensures
            r.content() == Seq::<char>::empty(),
            r.builders() == Seq::<BuilderModel>::empty(),
    {
        let r = StreamAccumulator { content: String::new(), tool_calls: Vec::new() };
        assert(r.builders() =~= Seq::<BuilderModel>::empty());
        r
    }

    /// A delta of text: non-empty text is appended and reported.
    pub fn add_text(&mut self, text: Option<String>) -> (r: Option<StreamEvent>)
        ensures
            match text {
                Some(t) => if t@.len() > 0 {
                    &&& final(self).content() == old(self).content() + t@
                    &&& r matches Some(StreamEvent::Text(u)) && u == t
                } else {
                    &&& final(self).content() == old(self).content()
                    &&& r is None
                },
                None => final(self).content() == old(self).content() && r is None,
            },
            final(self).builders() == old(self).builders(),
    {
        match text {
            Some(t) => {
                if t.as_str().is_empty() {
                    None
                } else {
                    self.content = concat_strs(self.content.as_str(), t.as_str());
                    Some(StreamEvent::Text(t))
                }
            },
            None => None,
        }
    }

    /// A delta of a tool call.
    pub fn add_tool_delta(&mut self, index: Option<i32>, id: &str, name: &str, arguments: &str)
        requires
            index matches Some(i) ==> i >= 0,
        ensures
            final(self).builders() == with_delta(
                old(self).builders(),
                delta_index(index),
                id@,
                name@,
                arguments@,
            ),
            final(self).content() == old(self).content(),
    {
        let idx: usize = match index {
            Some(i) => i as usize,
            None => 0,
        };
        let ghost b0 = self.builders();
        let ghost g = grown(b0, idx as nat);
        while self.tool_calls.len() <= idx
            invariant
                b0.len() <= self.tool_calls@.len(),
                b0.len() <= idx ==> self.tool_calls@.len() <= idx + 1,
                b0.len() > idx ==> self.tool_calls@.len() == b0.len(),
                forall|i: int|
                    0 <= i < self.tool_calls@.len() ==> builder_model(#[trigger] self.tool_calls@[i])
                        == if i < b0.len() {
                        b0[i]
                    } else {
                        empty_builder()
                    },
                self.content@ == old(self).content@,
            decreases idx + 1 - self.tool_calls@.len(),
        {
            self.tool_calls.push(
                ToolCallBuilder { id: String::new(), name: String::new(), arguments: String::new() },
            );
        }
        proof {
            assert(self.builders() =~= g);
        }
        let cur = &self.tool_calls[idx];
        let new_id = if id.is_empty() {
            cur.id.clone()
        } else {
            copy_string(id)
        };
        let new_name = if name.is_empty() {
            cur.name.clone()
        } else {
            copy_string(name)
        };
        let new_args = concat_strs(cur.arguments.as_str(), arguments);
        let nb = ToolCallBuilder { id: new_id, name: new_name, arguments: new_args };
        let ghost before = self.tool_calls@;
        self.tool_calls.set(idx, nb);
        proof {
            assert(self.builders() =~= with_delta(b0, idx as nat, id@, name@, arguments@));
        }
    }

    /// The assistant's message.
    pub fn finish(self) -> (r: Message)
        ensures
            assembled(r, self.content(), self.builders()),
    {
        let ghost bs = self.builders();
        let n = self.tool_calls.len();
        let tool_calls = if n == 0 {
            None
        } else {
            let mut v: Vec<ToolCall> = Vec::new();
            let mut i: usize = 0;
            while i < n
                invariant
                    i <= n == self.tool_calls@.len() == bs.len(),
                    bs == self.builders(),
                    v@.len() == i,
                    forall|j: int|
                        0 <= j < i ==> {
                            let t = #[trigger] v@[j];
                            &&& t.id@ == bs[j].id
                            &&& t.call_type@ == "function"@
                            &&& t.function.name@ == bs[j].name
                            &&& t.function.arguments@ == bs[j].arguments
                            &&& t.index is None
                        },
                decreases n - i,
            {
                let b = &self.tool_calls[i];
                v.push(
                    ToolCall {
                        id: b.id.clone(),
                        call_type: copy_string("function"),
                        function: FunctionCall { name: b.name.clone(), arguments: b.arguments.clone() },
                        index: None,
                    },
                );
                i = i + 1;
            }
            Some(v)
        };
        let content = if self.content.as_str().is_empty() {
            None
        } else {
            Some(self.content)
        };
        Message { role: copy_string("assistant"), content, tool_calls, tool_call_id: None }
    }
}

/// The usage report of a response; missing counts are 0.
pub fn usage_event(prompt: Option<i32>, completion: Option<i32>, total: Option<i32>) -> (r: StreamEvent)
    ensures
        r == (StreamEvent::Usage {
            prompt: match prompt {
                Some(p) => p,
                None => 0,
            },
            completion: match completion {
                Some(c) => c,
                None => 0,
            },
            total: match total {
                Some(t) => t,
                None => 0,
            },
        }),
{
    StreamEvent::Usage {
        prompt: match prompt {
            Some(p) => p,
            None => 0,
        },
        completion: match completion {
            Some(c) => c,
            None => 0,
        },
        total: match total {
            Some(t) => t,
            None => 0,
        },
    }
}

// ─── Retries ───

/// What to do after a request could not be sent.
pub enum SendDecision {
    /// Wait this many milliseconds, then try again.
    Retry { delay_ms: u64 },
    /// Give up with this error.
    Fail(String),
}

/// The wait before attempt `attempt` (counted from 0): 500 ms doubled per attempt.
pub open spec fn backoff_ms(attempt: nat) -> nat
    decreases attempt,
{
    if attempt == 0 {
        500
    } else {
        2 * backoff_ms((attempt - 1) as nat)
    }
}

/// The error of failed attempt `attempt` (counted from 0).
pub open spec fn request_failed_message(attempt: nat, error: Seq<char>) -> Seq<char> {
    "Request failed (attempt "@ + decimal(attempt + 1) + "): "@ + error
}

/// After attempt `attempt` failed: a timeout or a connection failure is
/// retried after the back-off while attempts remain; any other failure, or
/// the last one, ends the request with the error of that attempt.
pub fn after_send_error(attempt: usize, error: &str, is_timeout: bool, is_connect: bool) -> (r: SendDecision)
    requires
        attempt < MAX_RETRIES,
    ensures
        match r {
            SendDecision::Retry { delay_ms } => {
                &&& is_timeout || is_connect
                &&& attempt + 1 < MAX_RETRIES
                &&& delay_ms == backoff_ms((attempt + 1) as nat)
            },
            SendDecision::Fail(e) => {
                &&& !((is_timeout || is_connect) && attempt + 1 < MAX_RETRIES)
                &&& e@ == request_failed_message(attempt as nat, error@)
            },
        },
{
    if (is_timeout || is_connect) && attempt + 1 < MAX_RETRIES {
        let delay: u64 = if attempt == 0 {
            1000
        } else {
            2000
        };
        proof {
            reveal_with_fuel(backoff_ms, 3);
        }
        SendDecision::Retry { delay_ms: delay }
    } else {
        let mut v: Vec<char> = Vec::new();
        push_str_chars(&mut v, "Request failed (attempt ");
        push_decimal(&mut v, (attempt + 1) as u64);
        push_str_chars(&mut v, "): ");
        push_str_chars(&mut v, error);
        SendDecision::Fail(chars_to_string(v.as_slice()))
    }
}

/// The error for a response whose status is not a success.
pub fn api_error(status: &str, body: &str) -> (r: String)
    ensures
        r@ == "API error (HTTP "@ + status@ + "): "@ + body@,
{
    let mut v: Vec<char> = Vec::new();
    push_str_chars(&mut v, "API error (HTTP ");
    push_str_chars(&mut v, status);
    push_str_chars(&mut v, "): ");
    push_str_chars(&mut v, body);
    chars_to_string(v.as_slice())
}

/// The error for a failure while the response streams in.
pub fn stream_error(error: &str) -> (r: String)
    ensures
        r@ == "Stream error: "@ + error@,
{
    concat_strs("Stream error: ", error)
}

// ─── Laws ───

/// Argument text of deltas for the same call is appended in the order the
/// deltas arrive, and a delta for one call leaves the others as they were.
pub proof fn law_deltas_append(
    b: Seq<BuilderModel>,
    idx: nat,
    id1: Seq<char>,
    name1: Seq<char>,
    args1: Seq<char>,
    id2: Seq<char>,
    name2: Seq<char>,
    args2: Seq<char>,
)
    ensures
        with_delta(with_delta(b, idx, id1, name1, args1), idx, id2, name2, args2)[idx as int].arguments
            == grown(b, idx)[idx as int].arguments + args1 + args2,
        forall|j: int|
            0 <= j < b.len() && j != idx ==> #[trigger] with_delta(b, idx, id1, name1, args1)[j]
                == b[j],
{
    let b1 = with_delta(b, idx, id1, name1, args1);
    assert(grown(b1, idx) == b1);
    assert(b1[idx as int].arguments == grown(b, idx)[idx as int].arguments + args1);
    assert(grown(b, idx)[idx as int].arguments + args1 + args2 =~= (grown(
        b,
        idx,
    )[idx as int].arguments + args1) + args2);
    assert forall|j: int| 0 <= j < b.len() && j != idx implies #[trigger] b1[j] == b[j] by {
        assert(grown(b, idx)[j] == b[j]);
    }
}
/// A stream cut into chunks anywhere gives the payloads that it gives in one
/// piece: feeding `a` and then `b` after `pending` yields, in order, what
/// feeding `a + b` yields, and leaves the same text pending, as long as the
/// lines completed by `a` do not end the stream.
pub proof fn law_chunks_split_anywhere(pending: Seq<char>, a: Seq<char>, b: Seq<char>)
    requires
        !sse_done(pending + a),
    ensures
        ({
            let first = sse_drain(pending + a);
            let second = sse_drain(first.1 + b);
            sse_drain(pending + a + b) == (first.0 + second.0, second.1)
        }),
{
    lemma_drain_append(pending + a, b, 0);
}

/// Draining `buf + b` from `start` is draining `buf`, then draining what it
/// leaves followed by `b`, when no line of `buf` ends the stream.
proof fn lemma_drain_append(buf: Seq<char>, b: Seq<char>, start: int)
    requires
        0 <= start <= buf.len(),
        !sse_done_from(buf, start),
    ensures
        ({
            let first = sse_drain_from(buf, start);
            let second = sse_drain(first.1 + b);
            sse_drain_from(buf + b, start) == (first.0 + second.0, second.1)
        }),
    decreases buf.len() - start,
{
    let whole = buf + b;
    lemma_next_index_of(buf, '\n', start);
    let e = next_index_of(buf, '\n', start);
    if e >= buf.len() {
        lemma_next_index_of(whole, '\n', start);
        let first = sse_drain_from(buf, start);
        assert(first.1 == buf.subrange(start, buf.len() as int));
        assert(whole =~= buf.subrange(0, start) + (first.1 + b));
        lemma_drain_shift(buf.subrange(0, start), first.1 + b, 0);
        assert(first.0 + sse_drain(first.1 + b).0 =~= sse_drain(first.1 + b).0);
    } else {
        assert forall|j: int| start <= j < e implies whole[j] != '\n' by {
            assert(whole[j] == buf[j]);
        }
        lemma_next_index_is(whole, '\n', start, e);
        assert(whole.subrange(start, e + 1) =~= buf.subrange(start, e + 1));
        let line = trim(buf.subrange(start, e + 1));
        lemma_drain_append(buf, b, e + 1);
        if line.len() == 0 || line[0] == ':' {
        } else {
            let rest = sse_drain_from(buf, e + 1);
            let second = sse_drain(rest.1 + b);
            let data = trim(sse_data(line));
            assert(seq![data] + (rest.0 + second.0) =~= (seq![data] + rest.0) + second.0);
        }
    }
}

/// Draining from a point past a prefix sees only what follows the prefix.
proof fn lemma_drain_shift(pre: Seq<char>, z: Seq<char>, t: int)
    requires
        0 <= t <= z.len(),
    ensures
        sse_drain_from(pre + z, pre.len() + t) == sse_drain_from(z, t),
    decreases z.len() - t,
{
    let whole = pre + z;
    let p = pre.len() as int;
    lemma_next_index_of(z, '\n', t);
    let e = next_index_of(z, '\n', t);
    assert forall|j: int| p + t <= j < p + e implies whole[j] != '\n' by {
        assert(whole[j] == z[j - p]);
    }
    if e < z.len() {
        assert(whole[p + e] == z[e]);
    }
    lemma_next_index_is(whole, '\n', p + t, p + e);
    if e >= z.len() {
        assert(whole.subrange(p + t, whole.len() as int) =~= z.subrange(t, z.len() as int));
    } else {
        assert(whole.subrange(p + t, p + e + 1) =~= z.subrange(t, e + 1));
        assert(whole.subrange(p + e + 1, whole.len() as int) =~= z.subrange(e + 1, z.len() as int));
        lemma_drain_shift(pre, z, e + 1);
    }
}

/// A delta's name (and id) replaces the one held only when it is not empty:
/// a later chunk that carries only argument text keeps the name already
/// received, so after the deltas of a call its name is the last non-empty
/// name sent for it; argument text is always appended.
pub proof fn law_delta_keeps_name(
    b: Seq<BuilderModel>,
    idx: nat,
    id: Seq<char>,
    name: Seq<char>,
    args: Seq<char>,
    later_id: Seq<char>,
    later_args: Seq<char>,
)
    ensures
        name.len() == 0 ==> with_delta(b, idx, id, name, args)[idx as int].name == grown(b, idx)[idx as int].name,
        name.len() > 0 ==> with_delta(b, idx, id, name, args)[idx as int].name == name,
        id.len() == 0 ==> with_delta(b, idx, id, name, args)[idx as int].id == grown(b, idx)[idx as int].id,
        id.len() > 0 ==> with_delta(b, idx, id, name, args)[idx as int].id == id,
        with_delta(b, idx, id, name, args)[idx as int].arguments == grown(b, idx)[idx as int].arguments + args,
        name.len() > 0 ==> with_delta(
            with_delta(b, idx, id, name, args),
            idx,
            later_id,
            seq![],
            later_args,
        )[idx as int].name == name,
        name.len() > 0 ==> with_delta(
            with_delta(b, idx, id, name, args),
            idx,
            later_id,
            seq![],
            later_args,
        )[idx as int].arguments == grown(b, idx)[idx as int].arguments + args + later_args,
{
    let b1 = with_delta(b, idx, id, name, args);
    assert(grown(b1, idx) == b1);
}

} // verus!
