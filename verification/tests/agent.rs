use aurora::agent::{
    build_system_prompt, make_sys_msg, truncate_tool_result, turn_step, Agent, TurnAction,
    TurnEvent, TurnState, MAX_ITERATIONS,
};
use aurora::server_agent;
use aurora::types::{FunctionCall, Message, ToolCall};

fn msg(role: &str, content: &str) -> Message {
    Message {
        role: role.to_string(),
        content: Some(content.to_string()),
        tool_calls: None,
        tool_call_id: None,
    }
}

fn call(name: &str, args: &str) -> ToolCall {
    ToolCall {
        id: "c1".to_string(),
        call_type: "function".to_string(),
        function: FunctionCall { name: name.to_string(), arguments: args.to_string() },
        index: None,
    }
}

#[test]
fn system_prompt_lists_memory_tools_only_when_connected() {
    let with = build_system_prompt(true);
    let without = build_system_prompt(false);
    assert!(with.starts_with("You are Aurora, an AI coding assistant."));
    assert!(with.contains("- ask_deneb:"));
    assert!(!without.contains("ask_deneb"));
    assert!(without.ends_with("briefly explain what changed and why"));
}

#[test]
fn system_message_has_only_role_and_content() {
    let m = make_sys_msg("hello");
    assert_eq!(m.role, "system");
    assert_eq!(m.content.as_deref(), Some("hello"));
    assert!(m.tool_calls.is_none() && m.tool_call_id.is_none());
}

#[test]
fn new_agent_holds_only_the_prompt() {
    let a = Agent::new(false);
    assert_eq!(a.message_count(), 0);
    assert!(a.conversation().is_empty());
}

#[test]
fn trimming_keeps_prompt_and_starts_at_a_user_message() {
    let mut a = Agent::new(false);
    let mut history = Vec::new();
    for i in 0..60 {
        history.push(msg("user", &format!("question {i}")));
        history.push(msg("assistant", &format!("answer {i}")));
    }
    assert_eq!(a.import_history(history), 120);
    a.begin_turn("next".to_string());
    // 122 messages with the prompt: the last 99 start at index 23, which
    // holds a user message ("question 11").
    let conv = a.conversation();
    assert_eq!(conv.len(), 99);
    assert_eq!(conv[0].content.as_deref(), Some("question 11"));
    assert_eq!(conv[98].content.as_deref(), Some("next"));
    assert_eq!(a.message_count(), 99);
}

#[test]
fn assistant_reply_with_tool_calls_asks_for_tools() {
    let mut a = Agent::new(false);
    a.begin_turn("hi".to_string());
    let mut reply = msg("assistant", "");
    reply.tool_calls = Some(vec![call("read_file", "{\"path\":\"a\"}")]);
    assert!(a.record_assistant(reply));
    assert_eq!(a.last_tool_calls().unwrap().len(), 1);
    assert!(!a.record_assistant(msg("assistant", "done")));
}

#[test]
fn usage_accumulates() {
    let mut a = Agent::new(false);
    assert_eq!(a.add_usage(10, 5), (10, 5));
    assert_eq!(a.add_usage(1, 2), (11, 7));
    a.clear();
    assert_eq!(a.add_usage(0, 0), (0, 0));
}

#[test]
fn small_tool_results_are_kept() {
    assert_eq!(truncate_tool_result("short"), "short");
}

#[test]
fn large_tool_results_are_cut_with_a_note() {
    let line = "x".repeat(99);
    let big = format!("{line}\n").repeat(400); // 40 000 bytes, 400 lines
    let out = truncate_tool_result(&big);
    assert!(out.starts_with(&big[..30_000]));
    assert!(out.ends_with("\n\n[Truncated: showing 30000/40000 bytes, 300/400 lines]"));
}

#[test]
fn tool_results_are_recorded_with_their_call_id() {
    let mut a = Agent::new(false);
    a.record_tool_result("id-7".to_string(), "ok");
    let conv = a.conversation();
    assert_eq!(conv[0].role, "tool");
    assert_eq!(conv[0].tool_call_id.as_deref(), Some("id-7"));
    assert_eq!(conv[0].content.as_deref(), Some("ok"));
}

#[test]
fn server_prompt_names_the_working_directory() {
    let p = server_agent::build_system_prompt("/work", false);
    assert!(p.contains("Working directory: /work\n\n"));
    assert!(p.contains("- web_fetch:"));
}

#[test]
fn summary_records_topics_tools_and_files() {
    let mut tool_msg = msg("assistant", "looking");
    tool_msg.tool_calls = Some(vec![
        call("read_file", r#"{"path":"src/a.rs"}"#),
        call("read_file", r#"{"path":"src/a.rs"}"#),
        call("bash", r#"{"command":"ls"}"#),
    ]);
    let msgs = vec![msg("user", "  fix the bug\nsecond line"), tool_msg, msg("user", "")];
    let s = server_agent::summarize_trimmed(&msgs);
    assert_eq!(s, "User topics: fix the bug\nTools used: read_file, bash\nFiles touched: src/a.rs");
}

#[test]
fn summary_of_nothing_is_empty() {
    assert_eq!(server_agent::summarize_trimmed(&[]), "");
}

#[test]
fn server_trimming_inserts_a_summary() {
    let mut a = server_agent::Agent::new("/w", false);
    for i in 0..60 {
        a.begin_turn(format!("question {i}"));
        a.record_assistant(msg("assistant", &format!("answer {i}")));
    }
    a.begin_turn("next".to_string());
    let conv = a.conversation();
    assert!(conv.len() <= 100);
    assert_eq!(conv[0].role, "system");
    assert!(conv[0].content.as_deref().unwrap().starts_with("[Context trimmed — summary of earlier conversation]\nUser topics: "));
    assert_eq!(conv.last().unwrap().content.as_deref(), Some("next"));
}

#[test]
fn server_keeps_head_and_tail_of_long_results() {
    let mut big = String::new();
    for i in 0..4000 {
        big.push_str(&format!("line {i:05}\n"));
    }
    // 4000 lines of 11 bytes: 44 000 bytes.
    let out = server_agent::truncate_tool_result(&big);
    assert!(out.starts_with(&big[..24_000]));
    assert!(out.contains("lines omitted (44000/30000 bytes total, 4000 lines) ...]\n\n"));
    assert!(out.ends_with("line 03999"));
}

#[test]
fn a_turn_calls_the_model_until_it_answers_without_tools() {
    let (s, a) = turn_step(TurnState { calls: 0 }, TurnEvent::Begin);
    assert_eq!(s.calls, 1);
    assert!(matches!(a, TurnAction::CallModel));
    let (s, a) = turn_step(s, TurnEvent::Reply { has_tool_calls: true });
    assert!(matches!(a, TurnAction::RunTools));
    let (s, a) = turn_step(s, TurnEvent::ToolsDone);
    assert_eq!(s.calls, 2);
    assert!(matches!(a, TurnAction::CallModel));
    let (_, a) = turn_step(s, TurnEvent::Reply { has_tool_calls: false });
    assert!(matches!(a, TurnAction::Done));
}

#[test]
fn a_turn_fails_after_its_last_allowed_call() {
    let (mut s, _) = turn_step(TurnState { calls: 0 }, TurnEvent::Begin);
    let mut model_calls = 1;
    loop {
        let (s1, _) = turn_step(s, TurnEvent::Reply { has_tool_calls: true });
        let (s2, a) = turn_step(s1, TurnEvent::ToolsDone);
        match a {
            TurnAction::CallModel => model_calls += 1,
            TurnAction::Fail(e) => {
                assert_eq!(e, "Max iterations (25) reached");
                break;
            }
            _ => panic!("unexpected action"),
        }
        s = s2;
    }
    assert_eq!(model_calls, MAX_ITERATIONS);
}

#[test]
fn the_prompts_differ_only_by_the_memory_tools() {
    let with = build_system_prompt(true);
    let without = build_system_prompt(false);
    let block = "\n- ask_deneb: Deneb AI 에이전트에게 질문 전송 (message, optional session_key). Deneb은 장기 메모리를 가진 AI 에이전트입니다.\n- deneb_memory: Deneb의 장기 메모리에서 검색 (query)";
    let at = without.find("\n\nGuidelines:").unwrap();
    assert_eq!(with, format!("{}{}{}", &without[..at], block, &without[at..]));
    assert!(with.contains("ask_deneb") && !without.contains("ask_deneb"));
}
