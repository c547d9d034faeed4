//! Dreaming: when enough conversation has piled up, the agent asks its memory
//! service to distil it into long-term memory.
//!
//! `DreamTracker` decides when to dream; `build_dream_request` writes the
//! request that is sent.
use vstd::prelude::*;
use std::time::Instant;
use crate::text::{
    byte_len, byte_length, byte_prefix, byte_prefix_chars, chars_to_string, lemma_byte_len_concat,
    push_all, push_str_chars, str_eq, str_to_chars,
};
use crate::types::Message;

verus! {

/// Seconds since the last dream after which a dream may start (5 minutes).
pub const DREAM_TIME_INTERVAL_SECS: u64 = 300;

/// Messages since the last dream that trigger a dream on their own.
pub const DREAM_MESSAGE_THRESHOLD: usize = 10;

/// Bytes of text since the last dream that trigger a dream on their own (20 KB).
pub const DREAM_CHARS_THRESHOLD: usize = 20_000;

/// Session key under which dream requests are sent.
pub const DREAM_SESSION_KEY: &'static str = "aurora-dream";

/// Byte budget of the conversation excerpt in a dream request.
pub const MAX_DREAM_INPUT: usize = 20_000;

#[verifier::external_type_specification]
#[verifier::external_body]
pub struct ExInstant(Instant);

/// `Instant::now` of std: the current monotonic time. Nothing is claimed of it.
#[verifier::external_body]
fn instant_now() -> Instant {
    Instant::now()
}

/// `Instant::elapsed` of std. Nothing is claimed of the result: it depends
/// on the clock.
#[verifier::external_body]
fn instant_elapsed(t: &Instant) -> std::time::Duration {
    t.elapsed()
}

/// `Duration::as_secs` of std: the whole seconds of a duration.
#[verifier::external_body]
pub(crate) fn duration_secs(d: &std::time::Duration) -> u64 {
    d.as_secs()
}

/// Whole seconds since `t`.
fn elapsed_secs(t: &Instant) -> u64 {
    let d = instant_elapsed(t);
    duration_secs(&d)
}

/// What a `DreamTracker` counts.
pub struct DreamState {
    pub messages: nat,
    pub chars: nat,
    pub dreaming: bool,
    pub count: nat,
}

/// Dreaming state: what has accumulated since the last dream.
pub struct DreamTracker {
    last_dream_time: Instant,
    messages_since_dream: usize,
    chars_since_dream: usize,
    is_dreaming: bool,
    dream_count: usize,
}

impl View for DreamTracker {
    type V = DreamState;

    closed spec fn view(&self) -> DreamState {
        DreamState {
            messages: self.messages_since_dream as nat,
            chars: self.chars_since_dream as nat,
            dreaming: self.is_dreaming,
            count: self.dream_count as nat,
        }
    }
}

/// The state after a message or tool result of `len` bytes is counted.
pub open spec fn after_message(st: DreamState, len: nat) -> DreamState {
    DreamState { messages: st.messages + 1, chars: st.chars + len, ..st }
}

/// The state after a dream starts.
pub open spec fn started(st: DreamState) -> DreamState {
    DreamState { dreaming: true, ..st }
}

/// The state after a dream completes: counters reset, one more dream counted.
pub open spec fn finished(st: DreamState) -> DreamState {
    DreamState { messages: 0, chars: 0, dreaming: false, count: st.count + 1 }
}

/// The state after a dream fails: only the dreaming flag is cleared.
pub open spec fn failed(st: DreamState) -> DreamState {
    DreamState { dreaming: false, ..st }
}

/// Whether to dream, `elapsed_secs` seconds after the last dream: not while
/// dreaming, not before two messages, then after five minutes or once ten
/// messages or 20 000 bytes have accumulated.
pub open spec fn should_dream_spec(st: DreamState, elapsed_secs: nat) -> bool {
    &&& !st.dreaming
    &&& st.messages >= 2
    &&& (elapsed_secs >= DREAM_TIME_INTERVAL_SECS || st.messages >= DREAM_MESSAGE_THRESHOLD
        || st.chars >= DREAM_CHARS_THRESHOLD)
}

impl DreamTracker {
    pub fn new() -> (r: Self)
        ensures
            r@ == (DreamState { messages: 0, chars: 0, dreaming: false, count: 0 }),
    {
        DreamTracker {
            last_dream_time: instant_now(),
            messages_since_dream: 0,
            chars_since_dream: 0,
            is_dreaming: false,
            dream_count: 0,
        }
    }

    /// Called when a message is added: one more message, `content_len` more bytes.
    pub fn track_message(&mut self, content_len: usize)
        requires
            old(self)@.messages < usize::MAX,
            old(self)@.chars + content_len <= usize::MAX,
        ensures
            final(self)@ == after_message(old(self)@, content_len as nat),
    {
        self.messages_since_dream = self.messages_since_dream + 1;
        self.chars_since_dream = self.chars_since_dream + content_len;
    }

    /// Called when a tool result is added; it counts like a message.
    pub fn track_tool_result(&mut self, content_len: usize)
        requires
            old(self)@.messages < usize::MAX,
            old(self)@.chars + content_len <= usize::MAX,
        ensures
            final(self)@ == after_message(old(self)@, content_len as nat),
    {
        self.messages_since_dream = self.messages_since_dream + 1;
        self.chars_since_dream = self.chars_since_dream + content_len;
    }

    /// Whether to dream, given the seconds elapsed since the last dream.
    pub fn should_dream_after(&self, elapsed_secs: u64) -> (r: bool)
        ensures
            r == should_dream_spec(self@, elapsed_secs as nat),
    {
        if self.is_dreaming {
            return false;
        }
        if self.messages_since_dream < 2 {
            return false;
        }
        let time_trigger = elapsed_secs >= DREAM_TIME_INTERVAL_SECS;
        let volume_trigger = self.messages_since_dream >= DREAM_MESSAGE_THRESHOLD
            || self.chars_since_dream >= DREAM_CHARS_THRESHOLD;
        time_trigger || volume_trigger
    }

    /// Whether dreaming should be triggered now. The elapsed time comes from
    /// the clock, so the result is pinned down only where it does not matter.
    pub fn should_dream(&self) -> (r: bool)
        ensures
            exists|e: nat| r == should_dream_spec(self@, e),
            r ==> !self@.dreaming && self@.messages >= 2,
            !self@.dreaming && self@.messages >= 2 && (self@.messages >= DREAM_MESSAGE_THRESHOLD
                || self@.chars >= DREAM_CHARS_THRESHOLD) ==> r,
    {
        let secs = elapsed_secs(&self.last_dream_time);
        let r = self.should_dream_after(secs);
        assert(r == should_dream_spec(self@, secs as nat));
        r
    }

    /// A dream starts.
    pub fn start_dreaming(&mut self)
        ensures
            final(self)@ == started(old(self)@),
    {
        self.is_dreaming = true;
    }

    /// A dream completed: counters reset, the clock restarts.
    pub fn finish_dreaming(&mut self)
        requires
            old(self)@.count < usize::MAX,
        ensures
            final(self)@ == finished(old(self)@),
    {
        self.is_dreaming = false;
        self.last_dream_time = instant_now();
        self.messages_since_dream = 0;
        self.chars_since_dream = 0;
        self.dream_count = self.dream_count + 1;
    }

    /// A dream failed: only the flag is reset, so the counters still call for
    /// a retry.
    pub fn fail_dreaming(&mut self)
        ensures
            final(self)@ == failed(old(self)@),
    {
        self.is_dreaming = false;
    }

    pub fn is_dreaming(&self) -> (r: bool)
        ensures
            r == self@.dreaming,
    {
        self.is_dreaming
    }

    pub fn dream_count(&self) -> (r: usize)
        ensures
            r == self@.count,
    {
        self.dream_count
    }

    pub fn messages_since_dream(&self) -> (r: usize)
        ensures
            r == self@.messages,
    {
        self.messages_since_dream
    }

    pub fn chars_since_dream(&self) -> (r: usize)
        ensures
            r == self@.chars,
    {
        self.chars_since_dream
    }
}

// ─── Laws of the tracker ───

/// No dream is triggered while one is running, however much has accumulated
/// and however long it has been.
pub proof fn law_no_dream_while_dreaming(st: DreamState, elapsed_secs: nat)
    ensures
        !should_dream_spec(started(st), elapsed_secs),
{
}

/// A failed dream leaves the tracker as it was before the dream started, so
/// the same trigger fires again.
pub proof fn law_failed_dream_restores_state(st: DreamState, elapsed_secs: nat)
    requires
        !st.dreaming,
    ensures
        failed(started(st)) == st,
        should_dream_spec(failed(started(st)), elapsed_secs) == should_dream_spec(st, elapsed_secs),
{
}

/// After a completed dream, no new dream is due until two more messages have
/// been counted.
pub proof fn law_finished_dream_waits_for_two_messages(
    st: DreamState,
    len: nat,
    elapsed_secs: nat,
)
    ensures
        !should_dream_spec(finished(st), elapsed_secs),
        !should_dream_spec(after_message(finished(st), len), elapsed_secs),
        finished(st).count == st.count + 1,
{
}

/// Ten messages since the last dream trigger one, whatever the clock says.
pub proof fn law_message_volume_triggers(st: DreamState, elapsed_secs: nat)
    requires
        !st.dreaming,
        st.messages >= DREAM_MESSAGE_THRESHOLD,
    ensures
        should_dream_spec(st, elapsed_secs),
{
}

/// A call on a tracker, as far as its counters are concerned.
pub enum TrackerCall {
    /// `track_message` with this many bytes.
    Message(nat),
    /// `track_tool_result` with this many bytes.
    ToolResult(nat),
    Start,
    Finish,
    Fail,
}

/// The state after one call.
pub open spec fn after_call(st: DreamState, c: TrackerCall) -> DreamState {
    match c {
        TrackerCall::Message(n) => after_message(st, n),
        TrackerCall::ToolResult(n) => after_message(st, n),
        TrackerCall::Start => started(st),
        TrackerCall::Finish => finished(st),
        TrackerCall::Fail => failed(st),
    }
}

/// The state after the calls, in order.
pub open spec fn after_calls(st: DreamState, calls: Seq<TrackerCall>) -> DreamState
    decreases calls.len(),
{
    if calls.len() == 0 {
        st
    } else {
        after_call(after_calls(st, calls.drop_last()), calls.last())
    }
}

/// The state of a new tracker.
pub open spec fn fresh() -> DreamState {
    DreamState { messages: 0, chars: 0, dreaming: false, count: 0 }
}

/// How many of the calls finish a dream.
pub open spec fn finishes(calls: Seq<TrackerCall>) -> nat
    decreases calls.len(),
{
    if calls.len() == 0 {
        0
    } else {
        finishes(calls.drop_last()) + if calls.last() is Finish {
            1nat
        } else {
            0nat
        }
    }
}

/// The messages and tool results after the last finished dream, and their
/// bytes.
pub open spec fn counted_since_finish(calls: Seq<TrackerCall>) -> (nat, nat)
    decreases calls.len(),
{
    if calls.len() == 0 {
        (0, 0)
    } else {
        let prev = counted_since_finish(calls.drop_last());
        match calls.last() {
            TrackerCall::Message(n) => (prev.0 + 1, prev.1 + n),
            TrackerCall::ToolResult(n) => (prev.0 + 1, prev.1 + n),
            TrackerCall::Finish => (0, 0),
            _ => prev,
        }
    }
}

/// Whether a dream is running after the calls: the last call that starts,
/// finishes or fails a dream is a start.
pub open spec fn running_after(calls: Seq<TrackerCall>) -> bool
    decreases calls.len(),
{
    if calls.len() == 0 {
        false
    } else {
        match calls.last() {
            TrackerCall::Start => true,
            TrackerCall::Finish => false,
            TrackerCall::Fail => false,
            _ => running_after(calls.drop_last()),
        }
    }
}

/// A tool result counts exactly as a message of the same size: the tracker
/// ends in the same state, so every query on it answers the same.
pub proof fn law_tool_result_counts_as_message(st: DreamState, n: nat, elapsed_secs: nat)
    ensures
        after_call(st, TrackerCall::ToolResult(n)) == after_call(st, TrackerCall::Message(n)),
        should_dream_spec(after_call(st, TrackerCall::ToolResult(n)), elapsed_secs)
            == should_dream_spec(after_call(st, TrackerCall::Message(n)), elapsed_secs),
{
}

/// Over any sequence of calls on a new tracker: the dream count is the
/// number of finished dreams (so it never decreases), the message and byte
/// counters hold what was tracked since the last finished dream, and a dream
/// is running exactly when the last start, finish or failure was a start.
pub proof fn law_counters_over_calls(calls: Seq<TrackerCall>)
    ensures
        after_calls(fresh(), calls).count == finishes(calls),
        after_calls(fresh(), calls).messages == counted_since_finish(calls).0,
        after_calls(fresh(), calls).chars == counted_since_finish(calls).1,
        after_calls(fresh(), calls).dreaming == running_after(calls),
    decreases calls.len(),
{
    if calls.len() > 0 {
        law_counters_over_calls(calls.drop_last());
    }
}

// ─── Dream request ───

/// UTF-8 safe truncation: the longest prefix of `s` within `max_chars` bytes.
pub fn safe_truncate_str(s: &str, max_chars: usize) -> (r: String)
    ensures
        r@ == byte_prefix(s@, max_chars as nat),
{
    let v = str_to_chars(s);
    let p = byte_prefix_chars(v.as_slice(), max_chars);
    chars_to_string(p.as_slice())
}

/// Whether a message is the system prompt.
pub open spec fn is_system(m: Message) -> bool {
    m.role@ == "system"@
}

/// How a role is labelled in the dream request.
pub open spec fn role_label(role: Seq<char>) -> Seq<char> {
    if role == "user"@ {
        "사용자"@
    } else if role == "assistant"@ {
        "Aurora"@
    } else if role == "tool"@ {
        "도구결과"@
    } else {
        role
    }
}

/// A message's content, empty when it has none.
pub open spec fn content_chars(m: Message) -> Seq<char> {
    match m.content {
        Some(c) => c@,
        None => seq![],
    }
}

/// Tool results are cut to 500 bytes, other messages to 2000.
pub open spec fn content_limit(m: Message) -> nat {
    if m.role@ == "tool"@ {
        500
    } else {
        2000
    }
}

/// One line of the conversation excerpt: `[label]: content\n`.
pub open spec fn dream_entry(m: Message) -> Seq<char> {
    "["@ + role_label(m.role@) + "]: "@ + byte_prefix(content_chars(m), content_limit(m)) + "\n"@
}

/// In the excerpt a tool result is cut to its first 500 bytes and any other
/// message to its first 2000: a message other than a tool result that fits
/// in 2000 bytes appears whole, and a tool result never takes more than 500.
pub proof fn law_dream_entry_limits(m: Message)
    ensures
        m.role@ != "tool"@ && byte_len(content_chars(m)) <= 2000 ==> dream_entry(m) == "["@
            + role_label(m.role@) + "]: "@ + content_chars(m) + "\n"@,
        m.role@ == "tool"@ ==> dream_entry(m) == "["@ + "도구결과"@ + "]: "@ + byte_prefix(
            content_chars(m),
            500,
        ) + "\n"@,
        m.role@ == "tool"@ ==> byte_len(byte_prefix(content_chars(m), 500)) <= 500,
        byte_prefix(content_chars(m), content_limit(m)).is_prefix_of(content_chars(m)),
        byte_len(byte_prefix(content_chars(m), content_limit(m))) <= 2000,
{
    let c = content_chars(m);
    crate::text::lemma_byte_prefix_exists(c, 2000);
    crate::text::lemma_byte_prefix_exists(c, 500);
    let k2 = choose|k: int| crate::text::is_byte_prefix(c, 2000, k);
    let k5 = choose|k: int| crate::text::is_byte_prefix(c, 500, k);
    crate::text::lemma_byte_prefix_whole(c, 2000, k2);
    assert(c.take(c.len() as int) =~= c);
    if m.role@ == "tool"@ {
        reveal_strlit("tool");
        reveal_strlit("user");
        reveal_strlit("assistant");
        assert(m.role@[0] == 't' && "user"@[0] == 'u');
        assert(m.role@.len() != "assistant"@.len());
        assert(role_label(m.role@) == "도구결과"@);
    }
}

/// The entries in order, as long as the running byte total stays within the
/// budget; the first entry that would exceed it ends the excerpt.
pub open spec fn entries_within(entries: Seq<Seq<char>>, total: nat) -> Seq<char>
    decreases entries.len(),
{
    if entries.len() == 0 {
        seq![]
    } else {
        let t = total + byte_len(entries[0]);
        if t > MAX_DREAM_INPUT {
            seq![]
        } else {
            entries[0] + entries_within(entries.drop_first(), t)
        }
    }
}

/// The instructions that open a dream request.
pub open spec fn dream_header() -> Seq<char> {
    "다음 대화를 분석하여 중요한 정보를 장기 메모리에 저장해주세요.\n"@
        + "사용자의 코딩 스타일, 프로젝트 구조, 선호하는 패턴, 해결한 문제, 중요한 결정사항 등을 기억해주세요.\n\n"@
        + "--- 대화 내용 ---\n"@
}

/// Positions, below `n`, of the messages that are not the system prompt.
pub open spec fn non_system_upto(messages: Seq<Message>, n: int) -> Seq<int>
    decreases n,
{
    if n <= 0 {
        seq![]
    } else {
        let rest = non_system_upto(messages, n - 1);
        if is_system(messages[n - 1]) {
            rest
        } else {
            rest.push(n - 1)
        }
    }
}

/// The conversation excerpt's entries: non-system messages, newest first.
pub open spec fn dream_entries(messages: Seq<Message>) -> Seq<Seq<char>> {
    let idx = non_system_upto(messages, messages.len() as int);
    Seq::new(idx.len(), |k: int| dream_entry(messages[idx[idx.len() - 1 - k]]))
}

/// The dream request for a conversation: the header and the non-system
/// messages, newest first, within the byte budget; an error when there is no
/// such message.
pub open spec fn dream_request_spec(messages: Seq<Message>) -> Result<Seq<char>, Seq<char>> {
    if non_system_upto(messages, messages.len() as int).len() == 0 {
        Err("요약할 대화가 없습니다"@)
    } else {
        Ok(dream_header() + entries_within(dream_entries(messages), 0))
    }
}

/// Every role fits in memory, as every `String` does.
pub open spec fn roles_bounded(messages: Seq<Message>) -> bool {
    forall|i: int| 0 <= i < messages.len() ==> byte_len((#[trigger] messages[i]).role@) <= isize::MAX
}

fn label_chars(role: &str) -> (r: Vec<char>)
    ensures
        r@ == role_label(role@),
{
    let mut v: Vec<char> = Vec::new();
    if str_eq(role, "user") {
        push_str_chars(&mut v, "사용자");
    } else if str_eq(role, "assistant") {
        push_str_chars(&mut v, "Aurora");
    } else if str_eq(role, "tool") {
        push_str_chars(&mut v, "도구결과");
    } else {
        push_str_chars(&mut v, role);
    }
    v
}

fn entry_chars(m: &Message) -> (r: Vec<char>)
    requires
        byte_len(m.role@) <= isize::MAX,
    ensures
        r@ == dream_entry(*m),
        byte_len(r@) <= isize::MAX + 3000,
{
    let mut e: Vec<char> = Vec::new();
    push_str_chars(&mut e, "[");
    let label = label_chars(m.role.as_str());
    push_all(&mut e, label.as_slice());
    push_str_chars(&mut e, "]: ");
    let content: Vec<char> = match &m.content {
        Some(c) => str_to_chars(c.as_str()),
        None => Vec::new(),
    };
    let limit: usize = if str_eq(m.role.as_str(), "tool") {
        500
    } else {
        2000
    };
    let cut = byte_prefix_chars(content.as_slice(), limit);
    push_all(&mut e, cut.as_slice());
    push_str_chars(&mut e, "\n");
    proof {
        assert(content@ == content_chars(*m));
        reveal_strlit("[");
        reveal_strlit("]: ");
        reveal_strlit("\n");
        reveal_strlit("user");
        reveal_strlit("assistant");
        reveal_strlit("tool");
        reveal_strlit("사용자");
        reveal_strlit("Aurora");
        reveal_strlit("도구결과");
        let lab = role_label(m.role@);
        assert(byte_len(lab) <= isize::MAX) by {
            if m.role@ == "user"@ || m.role@ == "assistant"@ || m.role@ == "tool"@ {
                assert(byte_len("사용자"@) <= 12) by { reveal_with_fuel(byte_len, 4); }
                assert(byte_len("Aurora"@) <= 24) by { reveal_with_fuel(byte_len, 7); }
                assert(byte_len("도구결과"@) <= 16) by { reveal_with_fuel(byte_len, 5); }
            }
        }
        lemma_byte_len_concat("["@, lab);
        lemma_byte_len_concat("["@ + lab, "]: "@);
        lemma_byte_len_concat("["@ + lab + "]: "@, cut@);
        lemma_byte_len_concat("["@ + lab + "]: "@ + cut@, "\n"@);
        assert(byte_len("["@) == 1) by { reveal_with_fuel(byte_len, 2); }
        assert(byte_len("]: "@) == 3) by { reveal_with_fuel(byte_len, 4); }
        assert(byte_len("\n"@) == 1) by { reveal_with_fuel(byte_len, 2); }
    }
    e
}

/// The request text for a dream over `messages` (see `dream_request_spec`).
pub fn build_dream_request(messages: &[Message]) -> (r: Result<String, String>)
    requires
        roles_bounded(messages@),
    ensures
        match r {
            Ok(s) => dream_request_spec(messages@) == Ok::<Seq<char>, Seq<char>>(s@),
            Err(e) => dream_request_spec(messages@) == Err::<Seq<char>, Seq<char>>(e@),
        },
{
    // Indices of the non-system messages, in order.
    let mut relevant: Vec<usize> = Vec::new();
    let mut i: usize = 0;
    while i < messages.len()
        invariant
            i <= messages@.len(),
            relevant@.map_values(|x: usize| x as int) == non_system_upto(messages@, i as int),
            forall|k: int| 0 <= k < relevant@.len() ==> #[trigger] relevant@[k] < i,
        decreases messages@.len() - i,
    {
        let ghost before = non_system_upto(messages@, i as int);
        let ghost old_rel = relevant@;
        let is_sys = str_eq(messages[i].role.as_str(), "system");
        assert(non_system_upto(messages@, i + 1) == if is_system(messages@[i as int]) {
            before
        } else {
            before.push(i as int)
        });
        if !is_sys {
            relevant.push(i);
            assert(relevant@.map_values(|x: usize| x as int) =~= old_rel.map_values(
                |x: usize| x as int,
            ).push(i as int));
        }
        i = i + 1;
    }
    let ghost idx = non_system_upto(messages@, messages@.len() as int);
    assert(relevant@.len() == idx.len()) by {
        assert(relevant@.map_values(|x: usize| x as int).len() == relevant@.len());
    }
    if relevant.len() == 0 {
        let mut e: Vec<char> = Vec::new();
        push_str_chars(&mut e, "요약할 대화가 없습니다");
        return Err(chars_to_string(e.as_slice()));
    }
    let mut summary: Vec<char> = Vec::new();
    push_str_chars(&mut summary, "다음 대화를 분석하여 중요한 정보를 장기 메모리에 저장해주세요.\n");
    push_str_chars(
        &mut summary,
        "사용자의 코딩 스타일, 프로젝트 구조, 선호하는 패턴, 해결한 문제, 중요한 결정사항 등을 기억해주세요.\n\n",
    );
    push_str_chars(&mut summary, "--- 대화 내용 ---\n");
    let ghost entries = dream_entries(messages@);
    let ghost header = summary@;
    assert(header == dream_header());
    let mut total: usize = 0;
    let mut j: usize = relevant.len();
    assert(entries.len() == idx.len());
    assert(entries.skip(0) =~= entries);
    // Newest first.
    while j > 0
        invariant
            j <= relevant@.len() == idx.len(),
            idx.len() > 0,
            header == dream_header(),
            entries == dream_entries(messages@),
            entries.len() == idx.len(),
            idx == non_system_upto(messages@, messages@.len() as int),
            roles_bounded(messages@),
            relevant@.map_values(|x: usize| x as int) == idx,
            forall|k: int| 0 <= k < relevant@.len() ==> #[trigger] relevant@[k] < messages@.len(),
            total <= MAX_DREAM_INPUT,
            summary@ + entries_within(entries.skip(idx.len() - j), total as nat) == header
                + entries_within(entries, 0),
        decreases j,
    {
        let pos = relevant[j - 1];
        assert(pos as int == relevant@.map_values(|x: usize| x as int)[j - 1]);
        let entry = entry_chars(&messages[pos]);
        let len = byte_length(entry.as_slice());
        let ghost rest = entries.skip(idx.len() - j);
        proof {
            assert(rest[0] == entries[idx.len() - j]);
            assert(entries[idx.len() - j] == dream_entry(messages@[idx[j - 1]]));
            assert(rest.drop_first() =~= entries.skip(idx.len() - (j - 1)));
        }
        assert(rest.len() > 0);
        if total + len > MAX_DREAM_INPUT {
            assert(entries_within(rest, total as nat) =~= seq![]);
            assert(summary@ =~= header + entries_within(entries, 0));
            assert(dream_request_spec(messages@) == Ok::<Seq<char>, Seq<char>>(summary@));
            return Ok(chars_to_string(summary.as_slice()));
        }
        assert(entries_within(rest, total as nat) == rest[0] + entries_within(
            rest.drop_first(),
            (total + len) as nat,
        ));
        total = total + len;
        push_all(&mut summary, entry.as_slice());
        j = j - 1;
        assert(summary@ + entries_within(entries.skip(idx.len() - j), total as nat) =~= header
            + entries_within(entries, 0));
    }
    assert(entries.skip(idx.len() as int) =~= seq![]);
    assert(summary@ =~= header + entries_within(entries, 0));
    assert(idx.len() > 0);
    assert(dream_request_spec(messages@) == Ok::<Seq<char>, Seq<char>>(summary@));
    Ok(chars_to_string(summary.as_slice()))
}

} // verus!
