use aurora::html_preprocess::{format_result, preprocess_html, safe_prefix};

#[test]
fn test_basic_preprocessing() {
    let html = r#"
        <html lang="en">
        <head>
            <title>Test Page</title>
            <meta name="description" content="A test page">
            <meta property="og:title" content="OG Test">
            <meta charset="utf-8">
        </head>
        <body>
            <nav class="main-nav"><a href="/">Home</a></nav>
            <main>
                <h1>Hello World</h1>
                <p>This is the main content of the page.</p>
            </main>
            <footer>Copyright 2024</footer>
            <script>console.log("noise");</script>
        </body>
        </html>"#;

    let result = preprocess_html(html).unwrap();

    assert_eq!(result.metadata.title.as_deref(), Some("Test Page"));
    assert_eq!(result.metadata.description.as_deref(), Some("A test page"));
    assert_eq!(result.metadata.og_title.as_deref(), Some("OG Test"));
    assert_eq!(result.metadata.charset.as_deref(), Some("utf-8"));
    assert_eq!(result.metadata.language.as_deref(), Some("en"));

    assert!(result.cleaned.contains("Hello World"));
    assert!(result.cleaned.contains("main content"));
    assert!(!result.cleaned.contains("console.log"));
    assert!(result.stats.elements_removed > 0);
}

#[test]
fn test_quality_signals() {
    let html = r#"
        <html>
        <body>
            <div class="paywall-overlay">Subscribe to continue reading</div>
            <div class="captcha-container">Please verify you're not a bot</div>
            <p>Some content</p>
        </body>
        </html>"#;

    let result = preprocess_html(html).unwrap();
    assert!(result.signals.has_paywall);
    assert!(result.signals.has_bot_block);
}

#[test]
fn test_json_ld_extraction() {
    let html = r#"
        <html>
        <head>
            <script type="application/ld+json">
            {"@type": "Article", "headline": "Test Article"}
            </script>
        </head>
        <body><p>Content</p></body>
        </html>"#;

    let result = preprocess_html(html).unwrap();
    assert_eq!(result.metadata.json_ld.len(), 1);
    let block: serde_json::Value = serde_json::from_str(&result.metadata.json_ld[0]).unwrap();
    assert_eq!(block["headline"], "Test Article");
}

#[test]
fn test_noise_removal() {
    let html = r#"
        <html>
        <body>
            <div class="cookie-banner">Accept cookies</div>
            <div class="ad-banner">Buy stuff!</div>
            <div class="social-share">Share on Twitter</div>
            <article>
                <h1>Real Article</h1>
                <p>Important content here.</p>
            </article>
            <div class="related-posts">You might also like...</div>
        </body>
        </html>"#;

    let result = preprocess_html(html).unwrap();
    assert!(result.cleaned.contains("Real Article"));
    assert!(result.cleaned.contains("Important content"));
    assert!(!result.cleaned.contains("Accept cookies"));
    assert!(!result.cleaned.contains("Buy stuff"));
    assert!(result.stats.elements_removed >= 3);
}

#[test]
fn test_empty_html() {
    let result = preprocess_html("").unwrap();
    assert!(result.cleaned.is_empty() || result.cleaned.trim().is_empty());
    assert!(!result.signals.has_content);
}

#[test]
fn cleaned_text_marks_headings_and_lines() {
    let html = "<html><body><h1>Head</h1><p>One  two</p><ul><li>Item</li></ul></body></html>";
    let result = preprocess_html(html).unwrap();
    assert_eq!(result.cleaned, "# Head \nOne two \n- Item");
}

#[test]
fn cleaned_html_escapes_text_and_keeps_attributes() {
    let html = r#"<html><body><p class="x">a &lt; b &amp; c</p><br><script>x()</script></body></html>"#;
    let result = preprocess_html(html).unwrap();
    assert_eq!(result.cleaned_html, "<p class=\"x\">a &lt; b &amp; c</p><br>");
    assert_eq!(result.stats.elements_removed, 1);
}

#[test]
fn charset_is_read_from_the_head_when_no_meta_gives_it() {
    let html = "<html><head><meta http-equiv=\"Content-Type\" content=\"text/html; charset=ISO-8859-1\"></head><body></body></html>";
    let result = preprocess_html(html).unwrap();
    assert_eq!(result.metadata.charset.as_deref(), Some("ISO-8859-1"));
}

#[test]
fn canonical_url_and_published_date() {
    let html = r#"<html><head><link rel="canonical" href="https://a.example/x"><meta property="article:published_time" content="2024-01-02"><meta name="og:url" content="https://b.example"></head><body></body></html>"#;
    let result = preprocess_html(html).unwrap();
    assert_eq!(result.metadata.canonical_url.as_deref(), Some("https://a.example/x"));
    assert_eq!(result.metadata.published_date.as_deref(), Some("2024-01-02"));
    assert_eq!(result.metadata.og_url.as_deref(), Some("https://b.example"));
}

#[test]
fn script_shell_is_detected() {
    let html = r#"<html><body><div id="__next"></div><noscript>Enable JavaScript</noscript></body></html>"#;
    let result = preprocess_html(html).unwrap();
    assert!(result.signals.is_spa_shell);
    assert!(result.signals.issues.iter().any(|i| i == "SPA shell detected (minimal content)"));
    assert!(!result.signals.has_content);
}

#[test]
fn sizes_are_byte_lengths() {
    let html = "<html><body><p>héllo</p></body></html>";
    let result = preprocess_html(html).unwrap();
    assert_eq!(result.stats.original_len, html.len());
    assert_eq!(result.cleaned, "héllo");
    assert_eq!(result.stats.cleaned_len, 6);
    assert_eq!(result.signals.body_text_len, 6);
    assert_eq!(result.signals.total_len, html.len());
}

#[test]
fn summary_lists_metadata_then_text() {
    let html = r#"<html><head><title>T</title><meta name="author" content="A"></head><body><p>Body</p></body></html>"#;
    let result = preprocess_html(html).unwrap();
    let s = format_result(&result, "7");
    assert!(s.starts_with("Title: T\nAuthor: A\n"));
    assert!(s.ends_with("% content ratio]\n\n---\n\nBody"));
    assert!(s.contains("7% content ratio"));
}

#[test]
fn safe_prefix_stops_at_a_character_boundary() {
    assert_eq!(safe_prefix("가나다", 4), "가");
    assert_eq!(safe_prefix("abc", 10), "abc");
}

#[test]
fn cleaned_text_is_trimmed_without_blank_line_runs() {
    let html = "<html><body>\n\n<p>  one  </p>\n\n\n\n<div>two</div><h1>three</h1>\n\n</body></html>";
    let r = preprocess_html(html).unwrap();
    assert_eq!(r.cleaned, r.cleaned.trim());
    assert!(!r.cleaned.contains("\n\n\n"));
    assert_eq!(r.stats.original_len, html.len());
    assert_eq!(r.stats.cleaned_len, r.cleaned.len());
}
