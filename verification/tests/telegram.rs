use aurora::telegram::{format_tables_for_telegram, is_separator_row};

#[test]
fn test_basic_table_conversion() {
    let input = "\
| Name | Score |
|---|---|
| Alice | 100 |
| Bob | 95 |";

    let result = format_tables_for_telegram(input);
    assert!(result.contains("<pre>"));
    assert!(result.contains("</pre>"));
    assert!(result.contains("Alice"));
    assert!(result.contains("─┼─"));
    assert!(!result.contains("|---|"));
}

#[test]
fn test_cjk_table() {
    let input = "\
| 기능 | OpenClaw | Deneb |
|---|---|---|
| Polaris | ❌ | ✅ |
| Dreaming | ❌ | ✅ |";

    let result = format_tables_for_telegram(input);
    assert!(result.contains("<pre>"));
    assert!(result.contains("Polaris"));
    assert!(result.contains("Dreaming"));
}

#[test]
fn test_text_around_table() {
    let input = "\
Some text before.

| A | B |
|---|---|
| 1 | 2 |

Some text after.";

    let result = format_tables_for_telegram(input);
    assert!(result.contains("Some text before."));
    assert!(result.contains("Some text after."));
    assert!(result.contains("<pre>"));
}

#[test]
fn test_no_table() {
    let input = "Just normal text\nwith no table.";
    let result = format_tables_for_telegram(input);
    assert_eq!(result, input);
}

#[test]
fn test_real_world_table() {
    let input = "\
솔직히 대단해.

| 기능 | OpenClaw | Deneb |
|---|---|---|
| Polaris (시스템 문서) | ❌ | ✅ 249문서 + Pilot 연동 |
| Dreaming (자가 메모리 정제) | ❌ | ✅ Gemini + 카테고리 가중치 |
| Autonomous (자율 사이클) | ❌ | ✅ goal 자동 주입까지 |

근데 제일 중요한 건 파이프라인이야";

    let result = format_tables_for_telegram(input);
    println!("=== OUTPUT ===\n{result}\n=== END ===");

    assert!(result.contains("솔직히 대단해."));
    assert!(result.contains("근데 제일 중요한 건 파이프라인이야"));
    assert!(result.contains("<pre>"));
    assert!(result.contains("</pre>"));
    assert!(!result.contains("|---|"));
}

#[test]
fn test_separator_row_detection() {
    assert!(is_separator_row("|---|---|"));
    assert!(is_separator_row("| --- | --- |"));
    assert!(is_separator_row("|:---:|---:|"));
    assert!(!is_separator_row("| hello | world |"));
    assert!(!is_separator_row("not a separator"));
}

#[test]
fn table_is_rendered_exactly() {
    let input = "| Name | Score |\n|---|---|\n| Alice | 100 |\n| Bob | 95 |";
    let expected = "<pre>\nName  │ Score\n──────┼──────\nAlice │ 100  \nBob   │ 95   \n</pre>";
    assert_eq!(format_tables_for_telegram(input), expected);
}

#[test]
fn trailing_newline_is_kept_only_when_present() {
    assert_eq!(format_tables_for_telegram("a\nb\n"), "a\nb\n");
    assert_eq!(format_tables_for_telegram("a\nb"), "a\nb");
    assert_eq!(format_tables_for_telegram(""), "");
}

#[test]
fn header_without_separator_is_plain_text() {
    let input = "| a | b |\n| c | d |";
    assert_eq!(format_tables_for_telegram(input), input);
}

#[test]
fn missing_cells_are_padded() {
    let input = "| A | B |\n|---|---|\n| x |";
    let expected = "<pre>\nA │ B\n──┼──\nx │  \n</pre>";
    assert_eq!(format_tables_for_telegram(input), expected);
}

#[test]
fn zero_width_cell_counts_two_columns_per_char() {
    // U+200B ZERO WIDTH SPACE has unicode width 0, so it counts as 2 columns.
    let input = "| \u{200b} | b |\n|---|---|\n| 1 | 2 |";
    let result = format_tables_for_telegram(input);
    assert!(result.contains("1  │ 2"));
}
