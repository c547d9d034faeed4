use aurora::deneb::{
    ask_args, chat_reply, health_reply, memory_args, memory_reply, normalize_base_url, rpc_url,
};

#[test]
fn addresses() {
    assert_eq!(normalize_base_url("http://h:1//"), "http://h:1");
    assert_eq!(rpc_url("http://h:1"), "http://h:1/api/v1/rpc");
}

#[test]
fn replies() {
    assert_eq!(chat_reply(r#"{"result":{"text":"hi"}}"#).unwrap(), "hi");
    assert_eq!(chat_reply(r#"{"result":{}}"#).err().unwrap(), "Deneb 응답에 text 필드 없음");
    assert_eq!(memory_reply(r#"{"result":{}}"#).err().unwrap(), "Deneb 메모리 검색 결과 없음");
    assert_eq!(chat_reply(r#"{"error":{"message":"nope"}}"#).err().unwrap(), "Deneb RPC 오류: nope");
    assert_eq!(chat_reply(r#"{"error":{}}"#).err().unwrap(), "Deneb RPC 오류: unknown error");
    assert_eq!(chat_reply(r#"{"other":1}"#).err().unwrap(), "Deneb 응답에 result 필드 없음");
    assert_eq!(health_reply(r#"{"result":{"ok":true}}"#).unwrap(), true);
    assert_eq!(health_reply(r#"{"result":{}}"#).unwrap(), false);
}

#[test]
fn tool_arguments() {
    assert_eq!(ask_args(r#"{"message":"m"}"#).unwrap(), ("m".to_string(), "aurora".to_string()));
    assert_eq!(ask_args(r#"{"message":"m","session_key":"k"}"#).unwrap().1, "k");
    assert_eq!(ask_args("{}").err().unwrap(), "message 파라미터가 필요합니다");
    assert_eq!(memory_args(r#"{"query":"q"}"#).unwrap(), "q");
    assert_eq!(memory_args("{}").err().unwrap(), "query 파라미터가 필요합니다");
}
