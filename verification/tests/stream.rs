use aurora::stream::{
    after_send_error, api_error, usage_event, SendDecision, SseBuffer, StreamAccumulator,
};
use aurora::types::StreamEvent;

#[test]
fn lines_are_split_across_chunks() {
    let mut b = SseBuffer::new();
    assert!(b.feed("data: {\"a\"").is_empty());
    let out = b.feed(":1}\n\n: comment\ndata:{\"b\":2}\r\npartial");
    assert_eq!(out, vec!["{\"a\":1}".to_string(), "{\"b\":2}".to_string()]);
    let out = b.feed(" line\n");
    assert_eq!(out, vec!["partial line".to_string()]);
}

#[test]
fn every_cut_of_a_stream_gives_the_same_payloads() {
    let stream = "data: one\n\n: ping\ndata:two\r\ndata: three\nrest";
    let mut whole = SseBuffer::new();
    let expected = whole.feed(stream);
    assert_eq!(expected, vec!["one".to_string(), "two".to_string(), "three".to_string()]);
    for cut in 0..=stream.len() {
        let mut b = SseBuffer::new();
        let mut got = b.feed(&stream[..cut]);
        got.extend(b.feed(&stream[cut..]));
        assert_eq!(got, expected, "cut at {}", cut);
        let mut c = SseBuffer::new();
        c.feed(&stream[..cut]);
        c.feed(&stream[cut..]);
        assert_eq!(c.feed("\n"), vec!["rest".to_string()]);
    }
}

#[test]
fn done_stops_the_current_chunk() {
    let mut b = SseBuffer::new();
    let out = b.feed("data: x\ndata: [DONE]\ndata: y\n");
    assert_eq!(out, vec!["x".to_string()]);
    // What follows the end marker is read with the next chunk.
    let out = b.feed("");
    assert_eq!(out, vec!["y".to_string()]);
}

#[test]
fn text_and_tool_deltas_build_the_message() {
    let mut acc = StreamAccumulator::new();
    assert!(matches!(acc.add_text(Some("Hel".to_string())), Some(StreamEvent::Text(t)) if t == "Hel"));
    assert!(acc.add_text(Some(String::new())).is_none());
    acc.add_text(Some("lo".to_string()));
    acc.add_tool_delta(Some(1), "call_b", "grep", "{\"pat");
    acc.add_tool_delta(None, "call_a", "bash", "{}");
    acc.add_tool_delta(Some(1), "", "", "tern\":1}");
    let m = acc.finish();
    assert_eq!(m.role, "assistant");
    assert_eq!(m.content.as_deref(), Some("Hello"));
    let calls = m.tool_calls.unwrap();
    assert_eq!(calls.len(), 2);
    assert_eq!(calls[0].id, "call_a");
    assert_eq!(calls[0].function.name, "bash");
    assert_eq!(calls[1].id, "call_b");
    assert_eq!(calls[1].function.arguments, "{\"pattern\":1}");
    assert_eq!(calls[1].call_type, "function");
    assert!(calls[1].index.is_none());
}

#[test]
fn an_empty_response_has_no_content_and_no_calls() {
    let m = StreamAccumulator::new().finish();
    assert!(m.content.is_none());
    assert!(m.tool_calls.is_none());
}

#[test]
fn usage_defaults_to_zero() {
    assert!(matches!(
        usage_event(Some(5), None, Some(7)),
        StreamEvent::Usage { prompt: 5, completion: 0, total: 7 }
    ));
}

#[test]
fn retries_back_off_then_give_up() {
    assert!(matches!(after_send_error(0, "t", true, false), SendDecision::Retry { delay_ms: 1000 }));
    assert!(matches!(after_send_error(1, "t", false, true), SendDecision::Retry { delay_ms: 2000 }));
    match after_send_error(2, "timed out", true, false) {
        SendDecision::Fail(e) => assert_eq!(e, "Request failed (attempt 3): timed out"),
        _ => panic!("the last attempt gives up"),
    }
    match after_send_error(0, "refused", false, false) {
        SendDecision::Fail(e) => assert_eq!(e, "Request failed (attempt 1): refused"),
        _ => panic!("other failures give up at once"),
    }
    assert_eq!(api_error("401 Unauthorized", "no"), "API error (HTTP 401 Unauthorized): no");
}
