//! Small pieces of the front ends: session file names, the saved server
//! address, and the status lines they show.
use vstd::prelude::*;
use crate::json::{json_str, json_str_at, opt_view};
use crate::text::{chars_to_string, concat_strs, decimal, push_decimal, push_str_chars};

verus! {

#[verifier::external_type_specification]
#[verifier::external_body]
pub struct ExSystemTime(std::time::SystemTime);

/// `SystemTime::now` of std. Nothing is claimed of it: it is the clock.
#[verifier::external_body]
fn system_now() -> std::time::SystemTime {
    std::time::SystemTime::now()
}

/// `SystemTime::duration_since(UNIX_EPOCH)` of std; `None` for a time
/// before the epoch.
#[verifier::external_body]
fn since_epoch(t: &std::time::SystemTime) -> Option<std::time::Duration> {
    t.duration_since(std::time::UNIX_EPOCH).ok()
}

/// The current Unix time in whole seconds (0 before the epoch), in decimal.
pub fn chrono_now() -> (r: String)
    ensures
        exists|secs: u64| r@ == decimal(secs as nat),
{
    let now = system_now();
    let secs: u64 = match since_epoch(&now) {
        Some(d) => crate::dreaming::duration_secs(&d),
        None => 0,
    };
    let mut v: Vec<char> = Vec::new();
    push_decimal(&mut v, secs);
    chars_to_string(v.as_slice())
}

/// The name of a session file for a timestamp.
pub fn session_file_name(timestamp: &str) -> (r: String)
    ensures
        r@ == timestamp@ + ".json"@,
{
    concat_strs(timestamp, ".json")
}

/// The server address saved in the client's configuration file.
pub fn saved_server_url(config_json: &str) -> (r: Option<String>)
    ensures
        opt_view(r) == json_str_at(config_json@, "/server_url"@),
{
    json_str(config_json, "/server_url")
}

/// A status line of the front ends.
pub enum StatusNote {
    /// A server address was loaded at start-up.
    SavedServer(String),
    /// A connection is being made.
    Connecting,
    /// The connection failed with this error.
    ConnectFailed(String),
    /// The saved address could not be reached at start-up.
    AutoConnectFailed(String),
    /// The memory service answered its health check (or not).
    DenebHealth(bool),
    /// A key was saved; whether a memory service is configured.
    KeySaved(bool),
    /// Saving failed with this error.
    SaveFailed(String),
    /// The session was saved at this path.
    SessionSaved(String),
}

/// The text of a status line.
pub open spec fn status_note(n: StatusNote) -> Seq<char> {
    match n {
        StatusNote::SavedServer(url) => "저장된 서버: "@ + url@,
        StatusNote::Connecting => "연결 중..."@,
        StatusNote::ConnectFailed(e) => "연결 실패: "@ + e@,
        StatusNote::AutoConnectFailed(url) => "자동 연결 실패 — 서버 주소를 확인하세요 ("@ + url@
            + seq![')'],
        StatusNote::DenebHealth(ok) => if ok {
            "준비됨 (Deneb 연결됨)"@
        } else {
            "준비됨 (Deneb 연결 실패)"@
        },
        StatusNote::KeySaved(deneb) => if deneb {
            "준비됨 (Deneb 설정됨)"@
        } else {
            "준비됨"@
        },
        StatusNote::SaveFailed(e) => "저장 실패: "@ + e@,
        StatusNote::SessionSaved(path) => "세션 저장됨: "@ + path@,
    }
}

/// The text of a status line.
pub fn status_note_text(n: &StatusNote) -> (r: String)
    ensures
        r@ == status_note(*n),
{
    match n {
        StatusNote::SavedServer(url) => concat_strs("저장된 서버: ", url.as_str()),
        StatusNote::Connecting => crate::text::copy_string("연결 중..."),
        StatusNote::ConnectFailed(e) => concat_strs("연결 실패: ", e.as_str()),
        StatusNote::AutoConnectFailed(url) => {
            let mut v: Vec<char> = Vec::new();
            push_str_chars(&mut v, "자동 연결 실패 — 서버 주소를 확인하세요 (");
            push_str_chars(&mut v, url.as_str());
            v.push(')');
            chars_to_string(v.as_slice())
        },
        StatusNote::DenebHealth(ok) => if *ok {
            crate::text::copy_string("준비됨 (Deneb 연결됨)")
        } else {
            crate::text::copy_string("준비됨 (Deneb 연결 실패)")
        },
        StatusNote::KeySaved(deneb) => if *deneb {
            crate::text::copy_string("준비됨 (Deneb 설정됨)")
        } else {
            crate::text::copy_string("준비됨")
        },
        StatusNote::SaveFailed(e) => concat_strs("저장 실패: ", e.as_str()),
        StatusNote::SessionSaved(path) => concat_strs("세션 저장됨: ", path.as_str()),
    }
}

} // verus!
