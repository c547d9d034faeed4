use aurora::dreaming::{build_dream_request, safe_truncate_str, DreamTracker};
use aurora::types::Message;

fn msg(role: &str, content: &str) -> Message {
    Message {
        role: role.to_string(),
        content: Some(content.to_string()),
        tool_calls: None,
        tool_call_id: None,
    }
}

#[test]
fn volume_triggers_a_dream() {
    let mut t = DreamTracker::new();
    assert!(!t.should_dream_after(0));
    t.track_message(10);
    assert!(!t.should_dream_after(10_000));
    for _ in 0..9 {
        t.track_tool_result(1);
    }
    assert_eq!(t.messages_since_dream(), 10);
    assert_eq!(t.chars_since_dream(), 19);
    assert!(t.should_dream_after(0));
}

#[test]
fn time_triggers_a_dream_after_two_messages() {
    let mut t = DreamTracker::new();
    t.track_message(1);
    t.track_message(1);
    assert!(!t.should_dream_after(299));
    assert!(t.should_dream_after(300));
}

#[test]
fn characters_trigger_a_dream() {
    let mut t = DreamTracker::new();
    t.track_message(19_999);
    t.track_message(1);
    assert!(t.should_dream_after(0));
}

#[test]
fn dreaming_blocks_and_finishing_resets() {
    let mut t = DreamTracker::new();
    for _ in 0..10 {
        t.track_message(5);
    }
    t.start_dreaming();
    assert!(t.is_dreaming());
    assert!(!t.should_dream_after(1_000));
    t.fail_dreaming();
    assert!(!t.is_dreaming());
    assert_eq!(t.messages_since_dream(), 10);
    assert!(t.should_dream_after(0));
    t.start_dreaming();
    t.finish_dreaming();
    assert_eq!(t.dream_count(), 1);
    assert_eq!(t.messages_since_dream(), 0);
    assert_eq!(t.chars_since_dream(), 0);
}

#[test]
fn dream_request_lists_newest_first() {
    let msgs = vec![
        msg("system", "prompt"),
        msg("user", "first"),
        msg("assistant", "reply"),
        msg("tool", "result"),
    ];
    let r = build_dream_request(&msgs).unwrap();
    assert!(r.starts_with("다음 대화를 분석하여 중요한 정보를 장기 메모리에 저장해주세요.\n"));
    assert!(r.ends_with("--- 대화 내용 ---\n[도구결과]: result\n[Aurora]: reply\n[사용자]: first\n"));
    assert!(!r.contains("prompt"));
}

#[test]
fn nothing_to_dream_about() {
    assert_eq!(build_dream_request(&[msg("system", "p")]).err().unwrap(), "요약할 대화가 없습니다");
}

#[test]
fn truncation_keeps_whole_characters() {
    assert_eq!(safe_truncate_str("héllo", 2), "h");
    assert_eq!(safe_truncate_str("abc", 3), "abc");
}

#[test]
fn counters_follow_the_calls() {
    let mut t = DreamTracker::new();
    t.track_message(3);
    t.track_tool_result(4);
    t.start_dreaming();
    t.finish_dreaming();
    t.track_message(5);
    t.start_dreaming();
    t.fail_dreaming();
    t.track_tool_result(6);
    t.start_dreaming();
    t.finish_dreaming();
    t.track_message(7);
    t.start_dreaming();
    assert_eq!(t.dream_count(), 2);
    assert_eq!(t.messages_since_dream(), 1);
    assert_eq!(t.chars_since_dream(), 7);
    assert!(t.is_dreaming());
}
