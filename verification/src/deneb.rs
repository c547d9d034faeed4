//! The Deneb memory service: the address of its RPC endpoint, the
//! arguments of its two tools, and how its answers are read.
//!
//! Requests are sent by the application; the answers are handed here as
//! JSON text.
use vstd::prelude::*;
use crate::json::{json_bool, json_bool_at, json_present, json_present_at, json_str, json_str_at};
use crate::text::{
    chars_to_string, concat_strs, copy_string, str_to_chars, trim_end_by,
    trim_end_by_chars,
};

verus! {

/// The service's address without trailing slashes.
pub fn normalize_base_url(base_url: &str) -> (r: String)
    ensures
        r@ == trim_end_by(base_url@, Some('/')),
{
    let c = str_to_chars(base_url);
    let t = trim_end_by_chars(c.as_slice(), Some('/'));
    chars_to_string(t.as_slice())
}

/// The RPC endpoint of a service.
pub fn rpc_url(base_url: &str) -> (r: String)
    ensures
        r@ == base_url@ + "/api/v1/rpc"@,
{
    concat_strs(base_url, "/api/v1/rpc")
}

/// The outcome of an RPC call: an `error` member is reported with its
/// message ("unknown error" without one); otherwise a `result` is required.
pub open spec fn rpc_checked(resp: Seq<char>) -> Result<(), Seq<char>> {
    if json_present_at(resp, "/error"@) {
        Err(
            "Deneb RPC 오류: "@ + match json_str_at(resp, "/error/message"@) {
                Some(m) => m,
                None => "unknown error"@,
            },
        )
    } else if !json_present_at(resp, "/result"@) {
        Err("Deneb 응답에 result 필드 없음"@)
    } else {
        Ok(())
    }
}

fn check_rpc(resp: &str) -> (r: Result<(), String>)
    ensures
        match rpc_checked(resp@) {
            Ok(()) => r is Ok,
            Err(e) => r matches Err(f) && f@ == e,
        },
{
    if json_present(resp, "/error") {
        let msg = match json_str(resp, "/error/message") {
            Some(m) => m,
            None => copy_string("unknown error"),
        };
        return Err(concat_strs("Deneb RPC 오류: ", msg.as_str()));
    }
    if !json_present(resp, "/result") {
        return Err(copy_string("Deneb 응답에 result 필드 없음"));
    }
    Ok(())
}

/// The text of a `result`, or the error given for its absence.
pub open spec fn result_text(resp: Seq<char>, missing: Seq<char>) -> Result<Seq<char>, Seq<char>> {
    match rpc_checked(resp) {
        Err(e) => Err(e),
        Ok(()) => match json_str_at(resp, "/result/text"@) {
            Some(t) => Ok(t),
            None => Err(missing),
        },
    }
}

fn text_of_result(resp: &str, missing: &str) -> (r: Result<String, String>)
    ensures
        match result_text(resp@, missing@) {
            Ok(t) => r matches Ok(u) && u@ == t,
            Err(e) => r matches Err(f) && f@ == e,
        },
{
    check_rpc(resp)?;
    match json_str(resp, "/result/text") {
        Some(t) => Ok(t),
        None => Err(copy_string(missing)),
    }
}

/// The answer of Deneb's agent to a chat message.
pub fn chat_reply(resp: &str) -> (r: Result<String, String>)
    ensures
        match result_text(resp@, "Deneb 응답에 text 필드 없음"@) {
            Ok(t) => r matches Ok(u) && u@ == t,
            Err(e) => r matches Err(f) && f@ == e,
        },
{
    text_of_result(resp, "Deneb 응답에 text 필드 없음")
}

/// The result of a memory search.
pub fn memory_reply(resp: &str) -> (r: Result<String, String>)
    ensures
        match result_text(resp@, "Deneb 메모리 검색 결과 없음"@) {
            Ok(t) => r matches Ok(u) && u@ == t,
            Err(e) => r matches Err(f) && f@ == e,
        },
{
    text_of_result(resp, "Deneb 메모리 검색 결과 없음")
}

/// The answer to a health check: `result.ok`, false when it is missing.
pub fn health_reply(resp: &str) -> (r: Result<bool, String>)
    ensures
        match rpc_checked(resp@) {
            Err(e) => r matches Err(f) && f@ == e,
            Ok(()) => r == Ok::<bool, String>(
                match json_bool_at(resp@, "/result/ok"@) {
                    Some(b) => b,
                    None => false,
                },
            ),
        },
{
    check_rpc(resp)?;
    Ok(
        match json_bool(resp, "/result/ok") {
            Some(b) => b,
            None => false,
        },
    )
}

/// The arguments of `ask_deneb`: the message (required) and the session key
/// (`aurora` by default).
pub fn ask_args(args: &str) -> (r: Result<(String, String), String>)
    ensures
        match json_str_at(args@, "/message"@) {
            None => r matches Err(e) && e@ == "message 파라미터가 필요합니다"@,
            Some(m) => r matches Ok((a, b)) && a@ == m && b@ == match json_str_at(
                args@,
                "/session_key"@,
            ) {
                Some(k) => k,
                None => "aurora"@,
            },
        },
{
    let message = match json_str(args, "/message") {
        Some(m) => m,
        None => {
            return Err(copy_string("message 파라미터가 필요합니다"));
        },
    };
    let session_key = match json_str(args, "/session_key") {
        Some(k) => k,
        None => copy_string("aurora"),
    };
    Ok((message, session_key))
}

/// The argument of `deneb_memory`: the query (required).
pub fn memory_args(args: &str) -> (r: Result<String, String>)
    ensures
        match json_str_at(args@, "/query"@) {
            None => r matches Err(e) && e@ == "query 파라미터가 필요합니다"@,
            Some(q) => r matches Ok(a) && a@ == q,
        },
{
    match json_str(args, "/query") {
        Some(q) => Ok(q),
        None => Err(copy_string("query 파라미터가 필요합니다")),
    }
}

} // verus!
