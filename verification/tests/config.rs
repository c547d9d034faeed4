use aurora::config::{default_base_url, default_model, default_server_host, default_server_port, Config};
use aurora::session::{chrono_now, saved_server_url, session_file_name, status_note_text, StatusNote};

#[test]
fn defaults() {
    assert_eq!(default_base_url(), "https://api.z.ai/api/coding/paas/v4");
    assert_eq!(default_model(), "glm-5-turbo");
    assert_eq!(default_server_host(), "0.0.0.0");
    assert_eq!(default_server_port(), 3710);
    let c = Config::init_with_key("key".to_string());
    assert_eq!(c.api_key, "key");
    assert!(c.deneb_url.is_none());
    assert_eq!(c.listen_addr(), "0.0.0.0:3710");
    assert_eq!(c.display_url(), "Z.AI 코딩플랜");
}

#[test]
fn service_names() {
    let mut c = Config::default();
    c.base_url = "https://open.bigmodel.cn/api".to_string();
    assert_eq!(c.display_url(), "智谱AI");
    c.base_url = "https://api.z.ai/v1".to_string();
    assert_eq!(c.display_url(), "Z.AI");
    c.base_url = "http://local".to_string();
    assert_eq!(c.display_url(), "http://local");
}

#[test]
fn environment_overrides() {
    let c = Config::default();
    assert!(c.with_environment(None, None).is_none());
    let c = Config::default().with_environment(Some("k".to_string()), Some("http://d".to_string())).unwrap();
    assert_eq!(c.api_key, "k");
    assert_eq!(c.deneb_url.as_deref(), Some("http://d"));
    let c = Config::init_with_key("file".to_string()).with_environment(Some(String::new()), None).unwrap();
    assert_eq!(c.api_key, "file");
}

#[test]
fn session_files_and_status_lines() {
    let now = chrono_now();
    assert!(!now.is_empty() && now.chars().all(|c| c.is_ascii_digit()));
    assert_eq!(session_file_name("17"), "17.json");
    assert_eq!(saved_server_url(r#"{"server_url":"ws://h"}"#).as_deref(), Some("ws://h"));
    assert!(saved_server_url("not json").is_none());
    assert_eq!(status_note_text(&StatusNote::AutoConnectFailed("u".to_string())), "자동 연결 실패 — 서버 주소를 확인하세요 (u)");
    assert_eq!(status_note_text(&StatusNote::KeySaved(true)), "준비됨 (Deneb 설정됨)");
}
