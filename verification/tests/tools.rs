use aurora::tools::{
    apply_edit, bash_request, check_response, check_tool_call, edit_error_message, edit_summary,
    fetch_request, format_bash_output, format_read, max_iterations_error, read_request,
    timed_out, tool_answer, write_summary, EditError, FetchError,
};

#[test]
fn bash_arguments() {
    let r = bash_request(r#"{"command":"ls -l","timeout":1000}"#).unwrap();
    assert_eq!(r.command, "ls -l");
    assert_eq!(r.timeout_secs, 300);
    assert_eq!(bash_request(r#"{"command":"x","timeout":-5}"#).unwrap().timeout_secs, 1);
    assert_eq!(bash_request(r#"{"command":"x"}"#).unwrap().timeout_secs, 30);
    assert_eq!(bash_request("{}").err().unwrap(), "command is required");
    assert_eq!(bash_request(r#"{"command":"   "}"#).err().unwrap(), "command cannot be empty");
}

#[test]
fn bash_output_layout() {
    assert_eq!(format_bash_output("", "", true, Some(0)), "(no output)");
    assert_eq!(format_bash_output("out\n", "", true, Some(0)), "out\n");
    assert_eq!(format_bash_output("out", "err", false, Some(2)), "out\nSTDERR:\nerr\n[Exit code: 2]");
    assert_eq!(format_bash_output("", "", false, None), "\n[Exit code: -1]");
    let long = "y".repeat(100_001);
    let out = format_bash_output(&long, "", true, Some(0));
    assert!(out.starts_with("[stdout truncated to 100000 chars]\nyyy"));
    assert_eq!(out.len(), "[stdout truncated to 100000 chars]\n".len() + 100_000);
    assert_eq!(timed_out(30), "[Command timed out after 30s]");
}

#[test]
fn read_file_numbers_lines() {
    let r = read_request(r#"{"path":"a.txt","offset":2,"limit":2}"#).unwrap();
    assert_eq!((r.path.as_str(), r.offset, r.limit), ("a.txt", 2, 2));
    let d = read_request(r#"{"path":"a.txt","offset":-4,"limit":0}"#).unwrap();
    assert_eq!((d.offset, d.limit), (0, 1));
    assert_eq!(read_request("{}").err().unwrap(), "path is required");
    let text = "one\ntwo\nthree\nfour\n";
    assert_eq!(format_read(text, 2, 2), "   2\ttwo\n   3\tthree\n\n[Showing lines 2-3 of 4 total]");
    assert_eq!(format_read(text, 0, 2000), "   1\tone\n   2\ttwo\n   3\tthree\n   4\tfour\n");
    assert_eq!(format_read(text, 99, 5), "");
}

#[test]
fn edits_need_exactly_one_match() {
    assert_eq!(apply_edit("a b a", "b", "c").ok().unwrap(), "a c a");
    assert!(matches!(apply_edit("a b a", "a", "c"), Err(EditError::Ambiguous(2))));
    assert!(matches!(apply_edit("aaa", "aa", "c"), Ok(ref s) if s == "ca"));
    assert!(matches!(apply_edit("abc", "x", "c"), Err(EditError::NotFound)));
    assert!(matches!(apply_edit("abc", "", "c"), Err(EditError::EmptyOldString)));
    assert_eq!(
        edit_error_message(&EditError::Ambiguous(2), "f.rs"),
        "old_string found 2 times in f.rs. Provide more context to make it unique."
    );
    assert_eq!(edit_error_message(&EditError::NotFound, "f.rs"), "old_string not found in f.rs");
    assert_eq!(edit_summary("f.rs", "a\nb", "c"), "Edited f.rs: replaced 2 line(s) with 1 line(s)");
    assert_eq!(write_summary("f.rs", false, "héllo"), "Created f.rs (6 bytes)");
    assert_eq!(write_summary("f.rs", true, ""), "Overwrote f.rs (0 bytes)");
}

#[test]
fn fetch_arguments_and_responses() {
    let r = fetch_request(r#"{"url":"https://x.org","max_chars":10,"raw":true}"#).unwrap();
    assert_eq!(r.url, "https://x.org");
    assert!(r.include_metadata && r.raw);
    assert_eq!(r.max_chars, 10);
    assert_eq!(fetch_request(r#"{"url":"https://x.org"}"#).unwrap().max_chars, 50_000);
    assert_eq!(fetch_request(r#"{"url":"ftp://x"}"#).err().unwrap(), "URL must start with http:// or https://");
    assert_eq!(fetch_request("{}").err().unwrap(), "url is required");
    assert!(check_response(true, "200 OK", "text/html; charset=utf-8", 10).is_ok());
    assert!(check_response(true, "200 OK", "", 10).is_ok());
    assert!(matches!(check_response(true, "200 OK", "image/png", 10), Err(FetchError::ContentType(c)) if c == "image/png"));
    assert!(matches!(check_response(true, "200 OK", "text/plain", 6_000_000), Err(FetchError::TooLarge(6_000_000))));
    assert!(matches!(check_response(false, "404 Not Found", "", 0), Err(FetchError::Status(s)) if s == "404 Not Found"));
}

#[test]
fn registry_answers() {
    assert_eq!(check_tool_call(false, "nope", "{}").err().unwrap(), "Unknown tool: nope");
    assert!(check_tool_call(true, "bash", "{}").is_ok());
    assert!(check_tool_call(true, "bash", "{oops").err().unwrap().starts_with("Invalid JSON args: "));
    assert_eq!(tool_answer(Err("bad".to_string())), "Error: bad");
    assert_eq!(tool_answer(Ok("fine".to_string())), "fine");
    assert_eq!(max_iterations_error(), "Max iterations (25) reached");
}
