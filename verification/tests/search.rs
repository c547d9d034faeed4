use aurora::search::{
    format_glob_results, format_grep_results, format_match, is_binary,
    is_skipped_dir, search_full, should_search_file,
};

#[test]
fn binary_files_are_recognised_by_extension() {
    assert!(is_binary("photo.PNG"));
    assert!(is_binary("lib.a"));
    assert!(!is_binary("main.rs"));
    assert!(!is_binary("Main.class"));
    assert!(aurora::ripgrep::is_binary("Main.class"));
    assert!(aurora::ripgrep::is_binary("x.pyc"));
}

#[test]
fn globs_filter_file_names() {
    assert!(should_search_file("main.rs", Some("*.rs"), false));
    assert!(!should_search_file("main.py", Some("*.rs"), false));
    assert!(!should_search_file("x", Some("["), false));
    assert!(should_search_file("x", None, false));
    assert!(should_search_file("a.rs", Some("*.rs"), true));
    assert!(!should_search_file("a.png", None, true));
    assert!(!should_search_file("a.py", Some("*.rs"), false));
}

#[test]
fn skipped_directories() {
    assert!(is_skipped_dir(".git", false));
    assert!(is_skipped_dir("dist", true));
    assert!(!is_skipped_dir("dist", false));
    assert!(!is_skipped_dir("src", true));
}

#[test]
fn matches_and_reports() {
    assert_eq!(format_match("src/a.rs", 3, "fn x()\r\n", true), "src/a.rs:3: fn x()");
    assert_eq!(format_match("a", 1, "keep\n", false), "a:1: keep\n");
    assert_eq!(format_grep_results(&vec![]), "No matches found.");
    assert_eq!(format_grep_results(&vec!["a:1: x".to_string(), "b:2: y".to_string()]), "a:1: x\nb:2: y");
    let many: Vec<String> = (0..200).map(|i| format!("f:{i}: l")).collect();
    assert!(search_full(&many));
    assert!(format_grep_results(&many).ends_with("\n[Results truncated at 200 matches]"));
    assert_eq!(format_glob_results(&vec![]), "No matching files found.");
    assert_eq!(format_glob_results(&vec!["a.rs".to_string()]), "a.rs");
}

#[test]
fn regex_lines_are_reported_with_their_numbers() {
    let re = aurora::search::grep_pattern("fn [a-z]+").unwrap();
    let mut results = Vec::new();
    aurora::search::grep_lines(&re, "src/a.rs", "use x;\nfn main() {\r\n}\nfn go() {}", &mut results);
    assert_eq!(results, vec!["src/a.rs:2: fn main() {".to_string(), "src/a.rs:4: fn go() {}".to_string()]);
}

#[test]
fn regex_search_stops_at_the_limit() {
    let re = aurora::search::grep_pattern("x").unwrap();
    let mut results: Vec<String> = (0..199).map(|i| format!("f:{i}: x")).collect();
    aurora::search::grep_lines(&re, "g", "x\nx\nx", &mut results);
    assert_eq!(results.len(), 200);
    assert_eq!(results[199], "g:1: x");
}

#[test]
fn an_invalid_regex_is_refused() {
    let e = aurora::search::grep_pattern("(").err().unwrap();
    assert!(e.starts_with("Invalid regex: "));
}

#[test]
fn glob_selection_skips_directories_and_stops_at_the_cap() {
    let parts = |p: &str| p.split('/').map(|s| s.to_string()).collect::<Vec<String>>();
    let mut sel = aurora::search::GlobSelection::new();
    assert!(sel.offer(&parts("/b/src/a.rs"), Some("src/a.rs".to_string())));
    assert!(sel.offer(&parts("/b/target/x.rs"), Some("target/x.rs".to_string())));
    assert!(sel.offer(&parts("/elsewhere/y.rs"), None));
    assert_eq!(sel.into_matches(), vec!["src/a.rs".to_string()]);
    let mut full = aurora::search::GlobSelection::new();
    let mut offered = 0;
    while full.offer(&parts("/b/f.rs"), Some("f.rs".to_string())) {
        offered += 1;
    }
    assert_eq!(offered + 1, aurora::search::MAX_FILE_MATCHES);
    assert_eq!(full.into_matches().len(), aurora::search::MAX_FILE_MATCHES);
}
