use aurora::html_preprocess::preprocess_html;
use aurora::web_content::{
    clean_markdown, convert_to_markdown, finish_web_content, list_item_tag_in,
    truncate_by_sections, WebContentConfig, WebContentResult,
};

/// The whole pipeline as the application runs it: preprocessing, the share
/// of text as a percentage, then conversion, truncation and assembly.
fn process_web_content(html: &str, config: &WebContentConfig) -> WebContentResult {
    let pre = preprocess_html(html).expect("page can be preprocessed");
    let ratio = if pre.signals.total_len > 0 {
        (pre.signals.body_text_len as f32 / pre.signals.total_len as f32).min(1.0)
    } else {
        0.0
    };
    let percent = format!("{:.0}", ratio * 100.0);
    let markdown = if config.to_markdown {
        match convert_to_markdown(&pre) {
            Some(md) => md,
            None => clean_markdown(&html2md::parse_html(&pre.cleaned_html)),
        }
    } else {
        String::new()
    };
    finish_web_content(pre, config, &percent, &markdown)
}

#[test]
fn test_unified_pipeline() {
    let html = r#"
        <html>
        <head>
            <title>Test Article</title>
            <meta name="description" content="An interesting article">
            <meta name="author" content="John Doe">
        </head>
        <body>
            <nav><a href="/">Home</a> | <a href="/about">About</a></nav>
            <article>
                <h1>The Main Heading</h1>
                <p>This is the first paragraph with <strong>bold text</strong>.</p>
                <p>Second paragraph with a <a href="https://example.com">link</a>.</p>
                <h2>Subheading</h2>
                <p>More content under the subheading.</p>
            </article>
            <div class="ad-banner">Buy our product!</div>
            <footer>Copyright 2024</footer>
        </body>
        </html>"#;

    let config = WebContentConfig::default();
    let result = process_web_content(html, &config);

    assert!(result.content.contains("Test Article"));
    assert!(result.content.contains("The Main Heading"));
    assert!(!result.was_truncated);
    assert!(result.metadata.title.as_deref() == Some("Test Article"));
    assert!(result.metadata.author.as_deref() == Some("John Doe"));
}

#[test]
fn test_truncation_at_section_boundary() {
    let mut long_content = String::new();
    for i in 0..50 {
        long_content.push_str(&format!("## Section {i}\n\nThis is paragraph content for section {i}. It has some text to fill space and make the document longer than the truncation limit.\n\n"));
    }

    let (truncated, was_truncated) = truncate_by_sections(&long_content, 500);

    assert!(was_truncated);
    assert!(truncated.len() <= 500);
    assert!(
        truncated.ends_with('\n') || truncated.ends_with('.'),
        "Should end at a natural boundary"
    );
}

#[test]
fn test_markdown_conversion() {
    let html = r#"
        <html><body>
            <h1>Title</h1>
            <p>Text with <strong>bold</strong> and <em>italic</em>.</p>
            <ul><li>Item 1</li><li>Item 2</li></ul>
        </body></html>"#;

    let mut config = WebContentConfig::default();
    config.include_metadata = false;
    config.include_warnings = false;
    let result = process_web_content(html, &config);

    assert!(result.content.contains("**bold**") || result.content.contains("bold"));
}

#[test]
fn test_config_no_metadata() {
    let html = r#"<html><head><title>Test</title></head><body><p>Hello</p></body></html>"#;

    let mut config = WebContentConfig::default();
    config.include_metadata = false;
    config.include_warnings = false;
    let result = process_web_content(html, &config);

    assert!(!result.content.starts_with("**Test**"));
}

#[test]
fn short_content_is_not_truncated() {
    let (t, cut) = truncate_by_sections("# Title\n\nshort", 500);
    assert_eq!(t, "# Title\n\nshort");
    assert!(!cut);
}

#[test]
fn truncation_prefers_the_last_heading() {
    // 60% of 40 bytes is 24: the heading at byte 30 is far enough in.
    let content = "aaaaaaaaaaaaaaaaaaaaaaaaaaaaaa\n# next section with more text";
    let (t, cut) = truncate_by_sections(content, 40);
    assert!(cut);
    assert_eq!(t, "aaaaaaaaaaaaaaaaaaaaaaaaaaaaaa");
}

#[test]
fn truncation_without_breaks_cuts_at_the_limit() {
    let content = "x".repeat(30);
    let (t, cut) = truncate_by_sections(&content, 10);
    assert!(cut);
    assert_eq!(t, "x".repeat(10));
}

#[test]
fn truncation_never_splits_a_character() {
    let content = "가나다라마바사";
    let (t, cut) = truncate_by_sections(content, 7);
    assert!(cut);
    assert_eq!(t, "가나");
}

#[test]
fn clean_markdown_drops_empty_links_and_blank_runs() {
    let md = "line one\n\n\n\n[]()\n[]\nline two\n";
    assert_eq!(clean_markdown(md), "line one\n\nline two");
}

#[test]
fn web_content_defaults() {
    let c = WebContentConfig::default();
    assert_eq!(c.max_chars, 50_000);
    assert!(c.include_metadata);
    assert!(c.include_warnings);
    assert!(c.to_markdown);
}

#[test]
fn cleaned_markdown_has_no_blank_line_runs() {
    let md = "\n\n# Title\n\n\n\n[]()\n   \ntext  \n\n\n[]\nmore\n\n";
    let r = clean_markdown(md);
    assert_eq!(r, "# Title\n\ntext  \n\nmore");
    assert!(!r.contains("\n\n\n"));
    assert!(!r.starts_with('\n'));
    assert_eq!(r, r.trim_end());
}

#[test]
fn truncated_content_ends_without_whitespace() {
    let content = "# A\nfirst part of the text   \n\n# B\nsecond part that does not fit";
    let (t, w) = truncate_by_sections(content, 40);
    assert!(w);
    assert!(content.starts_with(t.as_str()));
    assert!(t.len() <= 40);
    assert_eq!(t, t.trim_end());
}

#[test]
fn pages_with_list_items_are_not_converted_by_the_library() {
    assert!(list_item_tag_in("<body> <b>x<LI>y</LI></b></body>"));
    assert!(!list_item_tag_in("<p>a <b>list</b></p>"));
    let with_list = preprocess_html("<html><body><ul><li>one</li></ul></body></html>").unwrap();
    assert!(convert_to_markdown(&with_list).is_none());
    let plain = preprocess_html("<html><body><h1>Title</h1><p>Text <b>bold</b>.</p></body></html>").unwrap();
    let md = convert_to_markdown(&plain).unwrap();
    assert!(md.contains("Title"));
    assert!(md.contains("**bold**"));
}
