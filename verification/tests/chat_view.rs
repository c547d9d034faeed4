use aurora::chat_view::{safe_truncate, trimmed_input, ChatView};
use aurora::protocol::{
    agent_event_to_server_message, classify_frame, config_status, deneb_status,
    handle_client_message, invalid_message, session_saved, ClientMessage, FrameAction,
    ServerMessage, WsEffect, WsFrame,
};
use aurora::config::Config;
use aurora::types::AgentEvent;

#[test]
fn streamed_text_becomes_an_assistant_message() {
    let mut v = ChatView::new();
    assert!(v.send_message("hello"));
    assert!(v.is_streaming);
    assert_eq!(v.status_text, "생성 중...");
    v.apply_server_message(ServerMessage::Text { content: "Hi ".to_string() });
    v.apply_server_message(ServerMessage::Text { content: "there".to_string() });
    assert_eq!(v.streaming_text, "Hi there");
    v.apply_server_message(ServerMessage::Done);
    assert_eq!(v.messages.len(), 2);
    assert_eq!(v.messages[1].role, "assistant");
    assert_eq!(v.messages[1].content, "Hi there");
    assert_eq!(v.streaming_text, "");
    assert!(!v.is_streaming);
    assert_eq!(v.status_text, "준비됨");
}

#[test]
fn empty_input_is_not_sent() {
    let mut v = ChatView::new();
    assert!(!v.send_message(""));
    assert!(v.messages.is_empty());
}

#[test]
fn tool_start_flushes_text_and_shows_a_preview() {
    let mut v = ChatView::new();
    v.apply_server_message(ServerMessage::Text { content: "thinking".to_string() });
    v.apply_server_message(ServerMessage::ToolStart {
        name: "bash".to_string(),
        args: "{\"command\":\"ls\"}".to_string(),
    });
    assert_eq!(v.messages.len(), 2);
    assert_eq!(v.messages[0].content, "thinking");
    assert_eq!(v.messages[1].content, "⏳ {\"command\":\"ls\"}");
    assert_eq!(v.messages[1].tool_name, "bash");
    assert!(v.messages[1].is_tool);
    assert_eq!(v.pending, "");
    v.apply_server_message(ServerMessage::ToolResult { name: "bash".to_string(), result: "a\nb".to_string() });
    assert_eq!(v.messages[2].tool_name, "bash ✅");
    assert_eq!(v.messages[2].content, "a\nb");
}

#[test]
fn usage_and_errors_are_shown() {
    let mut v = ChatView::new();
    v.apply_server_message(ServerMessage::Usage { prompt: 12, completion: -3, total: 9 });
    assert_eq!(v.usage_text, "📥 12  📤 -3  합계: 9 tokens");
    v.apply_server_message(ServerMessage::Error { message: "boom".to_string() });
    assert_eq!(v.messages[0].content, "⚠️ 오류: boom");
    assert_eq!(v.status_text, "오류 발생");
}

#[test]
fn configuration_and_clearing() {
    let mut v = ChatView::new();
    v.apply_server_message(ServerMessage::ConfigStatus {
        needs_api_key: false,
        model: "m".to_string(),
        service: "s".to_string(),
        deneb_status: "연결됨".to_string(),
    });
    assert_eq!(v.status_text, "준비됨 (Deneb 연결됨)");
    assert_eq!(v.model_name, "m");
    v.send_message("x");
    v.apply_server_message(ServerMessage::ChatCleared);
    assert!(v.messages.is_empty());
    assert_eq!(v.status_text, "대화 초기화됨");
    v.disconnected();
    assert_eq!(v.connection_status, "disconnected");
}

#[test]
fn agent_events_show_like_server_messages() {
    let mut a = ChatView::new();
    let mut b = ChatView::new();
    a.apply_agent_event(AgentEvent::Text("x".to_string()));
    b.apply_server_message(ServerMessage::Text { content: "x".to_string() });
    assert_eq!(a.streaming_text, b.streaming_text);
}

#[test]
fn previews_of_long_text() {
    assert_eq!(safe_truncate("short", 10), "short");
    assert_eq!(safe_truncate("abcdefghij", 4), "abcd…");
    let many = "1\n2\n3\n4\n5\n6\n7\n8\n9\n10";
    assert_eq!(safe_truncate(many, 5), "1\n2\n3\n4\n5\n6\n… (4 more lines)");
}

#[test]
fn inputs_are_trimmed() {
    assert_eq!(trimmed_input("  ws://h:1  ").as_deref(), Some("ws://h:1"));
    assert!(trimmed_input("   ").is_none());
}

#[test]
fn client_messages_become_effects() {
    let e = handle_client_message(ClientMessage::SendMessage { text: "q".to_string() }, false);
    assert_eq!(e.len(), 2);
    assert!(matches!(e[0], WsEffect::ResetCancel));
    match &e[1] {
        WsEffect::Send(ServerMessage::Error { message }) => assert_eq!(message, "API 키를 먼저 설정하세요"),
        _ => panic!("expected an error"),
    }
    let e = handle_client_message(ClientMessage::SendMessage { text: "q".to_string() }, true);
    assert!(matches!(&e[1], WsEffect::RunAgent(t) if t == "q"));
    let e = handle_client_message(ClientMessage::StopGeneration, true);
    assert!(matches!(e[0], WsEffect::Cancel) && matches!(e[1], WsEffect::Send(ServerMessage::Done)));
    let e = handle_client_message(ClientMessage::SaveSession, false);
    assert!(matches!(&e[0], WsEffect::Send(ServerMessage::Error { message }) if message == "에이전트가 초기화되지 않았습니다"));
    let e = handle_client_message(ClientMessage::Ping, false);
    assert!(matches!(e[0], WsEffect::Send(ServerMessage::Pong)));
}

#[test]
fn frames_and_errors() {
    assert!(matches!(classify_frame(WsFrame::Close), FrameAction::Stop));
    assert!(matches!(classify_frame(WsFrame::Ping), FrameAction::Reply(ServerMessage::Pong)));
    assert!(matches!(invalid_message("bad"), ServerMessage::Error { message } if message == "Invalid message: bad"));
    assert!(matches!(session_saved(Ok("/p".to_string())), ServerMessage::SessionSaved { path } if path == "/p"));
    assert!(matches!(agent_event_to_server_message(AgentEvent::Done), ServerMessage::Done));
}

#[test]
fn configuration_report() {
    let c = Config::init_with_key("k".to_string());
    match config_status(Some(&c), deneb_status(true, false)) {
        ServerMessage::ConfigStatus { needs_api_key, model, service, deneb_status } => {
            assert!(!needs_api_key);
            assert_eq!(model, "glm-5-turbo");
            assert_eq!(service, "Z.AI 코딩플랜");
            assert_eq!(deneb_status, "연결 실패");
        }
        _ => panic!("expected a configuration report"),
    }
    assert!(matches!(config_status(None, String::new()), ServerMessage::ConfigStatus { needs_api_key: true, .. }));
}

#[test]
fn a_new_connection_starts_without_stale_stream_text() {
    let mut v = ChatView::new();
    v.apply_server_message(ServerMessage::Text { content: "half".to_string() });
    v.disconnected();
    v.connected(true);
    assert_eq!(v.pending, "");
    v.apply_server_message(ServerMessage::Text { content: "fresh".to_string() });
    assert_eq!(v.streaming_text, "fresh");
}
