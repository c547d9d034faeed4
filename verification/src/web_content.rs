//! Web content pipeline: preprocessed HTML → Markdown → section-based
//! truncation → metadata header, in one call.
use vstd::prelude::*;
use crate::html_preprocess::{first_of, HtmlMetadata, PreprocessResult, QualitySignals};
use crate::text::{join_strings, no_triple_newline, string_views, triple_newline_at};
use crate::text::{
    byte_len, byte_length, byte_prefix, byte_prefix_chars, chars_eq, chars_to_string, copy_range,
    copy_string, decimal, is_byte_prefix, join, lemma_byte_len_take_monotone,
    lemma_byte_prefix_unique, lemma_byte_prefix_whole, lemma_trim_end_prefix, lines, push_all,
    push_decimal, push_str_chars, rfind, split_lines, str_to_chars, trim, trim_chars, trim_end,
    trim_end_chars, views,
};

verus! {

/// Configuration for the web content processor.
pub struct WebContentConfig {
    /// Maximum number of bytes of the body in the output
    pub max_chars: usize,
    /// Whether to include the metadata header
    pub include_metadata: bool,
    /// Whether to include quality warnings
    pub include_warnings: bool,
    /// Whether to convert HTML to Markdown (or use the cleaned text)
    pub to_markdown: bool,
}

impl WebContentConfig {
    pub fn default() -> (r: Self)
        ensures
            r.max_chars == 50_000,
            r.include_metadata,
            r.include_warnings,
            r.to_markdown,
    {
        WebContentConfig {
            max_chars: 50_000,
            include_metadata: true,
            include_warnings: true,
            to_markdown: true,
        }
    }
}

/// Result of the web content pipeline.
pub struct WebContentResult {
    /// Final content: metadata header and the converted, truncated body
    pub content: String,
    /// Extracted metadata
    pub metadata: HtmlMetadata,
    /// Quality signals
    pub signals: QualitySignals,
    /// Whether the body was truncated
    pub was_truncated: bool,
    /// Original HTML size in bytes
    pub original_size: usize,
}

// ─── HTML to Markdown ───

/// The Markdown that html2md makes of an HTML text.
pub uninterp spec fn html_to_markdown(html: Seq<char>) -> Seq<char>;

/// Whether the text holds `<li` in any case of its letters: the only way a
/// list item element can arise when the text is parsed as HTML (a start tag
/// is `<` and its name, ASCII letters compared in lower case).
pub open spec fn has_list_item_tag(html: Seq<char>) -> bool {
    exists|i: int|
        0 <= i && i + 2 < html.len() && #[trigger] html[i] == '<' && (html[i + 1] == 'l'
            || html[i + 1] == 'L') && (html[i + 2] == 'i' || html[i + 2] == 'I')
}

/// `html2md::parse_html`: HTML converted to Markdown. Claimed: the result is
/// `html_to_markdown` of the input, a function of the input alone, for
/// every input without a list item tag. The input is left out where a list
/// item can arise: html2md panics on some of those (a list item outside any
/// list rewrites the text before the positions its enclosing handlers have
/// kept, and their slicing then panics), and which ones is not stated here.
/// Without list items, every handler writes only at or after its own start,
/// so no kept position moves.
#[verifier::external_body]
fn parse_html_to_markdown(html: &str) -> (r: String)
    requires
        !has_list_item_tag(html@),
    ensures
        r@ == html_to_markdown(html@),
{
    html2md::parse_html(html)
}

// ─── Markdown cleanup ───

/// One step of the cleanup over a line: the output so far and whether the
/// last line kept was blank.
pub open spec fn clean_step(acc: (Seq<char>, bool), line: Seq<char>) -> (Seq<char>, bool) {
    let t = trim(line);
    if t == seq!['[', ']', '(', ')'] || t == seq!['[', ']'] {
        acc
    } else if t.len() == 0 {
        if !acc.1 && acc.0.len() > 0 {
            (acc.0.push('\n'), true)
        } else {
            acc
        }
    } else {
        (acc.0 + line + seq!['\n'], false)
    }
}

/// The cleanup over all lines, in order.
pub open spec fn clean_fold(ls: Seq<Seq<char>>) -> (Seq<char>, bool)
    decreases ls.len(),
{
    if ls.len() == 0 {
        (seq![], false)
    } else {
        clean_step(clean_fold(ls.drop_last()), ls.last())
    }
}

/// Markdown cleanup: lines that are only an empty link (`[]()` or `[]`) are
/// dropped, runs of blank lines become one empty line (none at the start),
/// trailing whitespace is removed.
pub open spec fn clean_markdown_spec(md: Seq<char>) -> Seq<char> {
    trim_end(clean_fold(lines(md)).0)
}

/// What the cleanup keeps true line after line: no three newlines in a row;
/// the output is empty or ends with a newline after a character that is
/// not one, or (after a blank line) with two newlines after such a
/// character; it never starts with a newline.
pub open spec fn clean_shape(acc: (Seq<char>, bool)) -> bool {
    let o = acc.0;
    &&& no_triple_newline(o)
    &&& o.len() > 0 ==> o[0] != '\n'
    &&& o.len() > 0 ==> if acc.1 {
        o.len() >= 3 && o[o.len() - 1] == '\n' && o[o.len() - 2] == '\n' && o[o.len() - 3] != '\n'
    } else {
        o.len() >= 2 && o[o.len() - 1] == '\n' && o[o.len() - 2] != '\n'
    }
    &&& o.len() == 0 ==> !acc.1
}

proof fn lemma_clean_fold_shape(ls: Seq<Seq<char>>)
    requires
        forall|k: int| 0 <= k < ls.len() ==> !(#[trigger] ls[k]).contains('\n'),
    ensures
        clean_shape(clean_fold(ls)),
    decreases ls.len(),
{
    if ls.len() > 0 {
        let prev = ls.drop_last();
        assert forall|k: int| 0 <= k < prev.len() implies !(#[trigger] prev[k]).contains('\n') by {
            assert(prev[k] == ls[k]);
        }
        lemma_clean_fold_shape(prev);
        let acc = clean_fold(prev);
        let line = ls.last();
        assert(!ls[ls.len() - 1].contains('\n'));
        let t = trim(line);
        let o = acc.0;
        if t == seq!['[', ']', '(', ')'] || t == seq!['[', ']'] {
        } else if t.len() == 0 {
            if !acc.1 && o.len() > 0 {
                let n = o.push('\n');
                assert forall|i: int| 0 <= i && i + 2 < n.len() implies !#[trigger] triple_newline_at(n, i) by {
                    if i + 2 < o.len() {
                        assert(!triple_newline_at(o, i));
                    }
                }
            }
        } else {
            assert(line.len() > 0) by {
                if line.len() == 0 {
                    assert(line =~= seq![]);
                    assert(crate::text::trim_end_by(crate::text::trim_start_by(line, None), None) =~= seq![]);
                }
            }
            let n = o + line + seq!['\n'];
            assert(forall|m: int| 0 <= m < line.len() ==> line[m] != '\n');
            assert forall|i: int| 0 <= i && i + 2 < n.len() implies !#[trigger] triple_newline_at(n, i) by {
                if i + 2 < o.len() {
                    assert(!triple_newline_at(o, i));
                } else if i < o.len() {
                    assert(n[o.len() as int] == line[0]);
                } else {
                    assert(n[i] == line[i - o.len()]);
                }
            }
            assert(n[n.len() - 2] == line[line.len() - 1]);
            if o.len() == 0 {
                assert(n[0] == line[0]);
            } else {
                assert(n[0] == o[0]);
            }
        }
    }
}

/// Cleaned Markdown has no two blank lines in a row, does not start with a
/// newline, and ends without trailing whitespace.
pub proof fn law_clean_markdown_shape(md: Seq<char>)
    ensures
        no_triple_newline(clean_markdown_spec(md)),
        clean_markdown_spec(md).len() > 0 ==> clean_markdown_spec(md)[0] != '\n',
        trim_end(clean_markdown_spec(md)) == clean_markdown_spec(md),
{
    let ls = lines(md);
    assert forall|k: int| 0 <= k < ls.len() implies !(#[trigger] ls[k]).contains('\n') by {
        crate::text::lemma_lines_no_newline(md, 0, k);
    }
    lemma_clean_fold_shape(ls);
    let o = clean_fold(ls).0;
    crate::text::lemma_trim_end_shape(o, None);
    lemma_trim_end_prefix(o);
    crate::text::lemma_trim_end_by_idempotent(o, None);
    if trim_end(o).len() > 0 {
        assert(trim_end(o)[0] == o[0]);
    }
}

/// Clean up Markdown output (see `clean_markdown_spec`).
pub fn clean_markdown(md: &str) -> (r: String)
    ensures
        r@ == clean_markdown_spec(md@),
{
    let chars = str_to_chars(md);
    let ls = split_lines(chars.as_slice());
    let ghost lv = views(ls@);
    let empty_link: Vec<char> = vec!['[', ']', '(', ')'];
    let brackets: Vec<char> = vec!['[', ']'];
    let mut result: Vec<char> = Vec::new();
    let mut prev_blank = false;
    let mut i: usize = 0;
    assert(lv.take(0) =~= seq![]);
    while i < ls.len()
        invariant
            i <= ls@.len(),
            lv == views(ls@),
            empty_link@ == seq!['[', ']', '(', ')'],
            brackets@ == seq!['[', ']'],
            (result@, prev_blank) == clean_fold(lv.take(i as int)),
        decreases ls@.len() - i,
    {
        let line = &ls[i];
        let t = trim_chars(line.as_slice());
        proof {
            assert(lv.take(i + 1).drop_last() =~= lv.take(i as int));
            assert(lv.take(i + 1).last() == line@);
        }
        if chars_eq(t.as_slice(), empty_link.as_slice()) || chars_eq(t.as_slice(), brackets.as_slice()) {
            i = i + 1;
        } else if t.len() == 0 {
            if !prev_blank && result.len() > 0 {
                result.push('\n');
                prev_blank = true;
            }
            i = i + 1;
        } else {
            prev_blank = false;
            push_all(&mut result, line.as_slice());
            result.push('\n');
            i = i + 1;
        }
    }
    assert(lv.take(lv.len() as int) =~= lv);
    let trimmed = trim_end_chars(result.as_slice());
    chars_to_string(trimmed.as_slice())
}

// ─── Section-based truncation ───

/// The last occurrence of `pat` in `region` at or after byte `min_keep`.
pub open spec fn break_at_least(region: Seq<char>, pat: Seq<char>, min_keep: nat) -> Option<int> {
    let p = rfind(region, pat);
    if p >= 0 && byte_len(region.take(p)) >= min_keep {
        Some(p)
    } else {
        None
    }
}

/// Where to cut: before the last heading (`\n#`), else the last paragraph
/// break (`\n\n`), else the last line break, provided it keeps at least
/// `min_keep` bytes.
pub open spec fn section_break(region: Seq<char>, min_keep: nat) -> Option<int> {
    match break_at_least(region, seq!['\n', '#'], min_keep) {
        Some(p) => Some(p),
        None => match break_at_least(region, seq!['\n', '\n'], min_keep) {
            Some(p) => Some(p),
            None => break_at_least(region, seq!['\n'], min_keep),
        },
    }
}

/// Truncation at section boundaries: content within `max` bytes is kept
/// whole; otherwise it is cut at the best break in its first `max` bytes
/// that keeps at least 60% of them (or at `max` bytes), and trailing
/// whitespace is removed.
pub open spec fn truncate_by_sections_spec(content: Seq<char>, max: nat) -> (Seq<char>, bool) {
    if byte_len(content) <= max {
        (content, false)
    } else {
        let region = byte_prefix(content, max);
        let safe_end = byte_len(region);
        let min_keep = safe_end * 3 / 5;
        let brk = match section_break(region, min_keep) {
            Some(p) => p,
            None => region.len() as int,
        };
        (trim_end(content.take(brk)), true)
    }
}

fn break_at_least_exec(region: &[char], pat: &[char], min_keep: usize) -> (r: Option<usize>)
    requires
        byte_len(region@) <= usize::MAX,
    ensures
        match r {
            Some(p) => break_at_least(region@, pat@, min_keep as nat) == Some(p as int),
            None => break_at_least(region@, pat@, min_keep as nat) is None,
        },
{
    match crate::text::rfind_chars(region, pat) {
        Some(p) => {
            proof {
                crate::text::lemma_rfind_from(region@, pat@, region@.len() - pat@.len());
                lemma_byte_len_take_monotone(region@, p as int, region@.len() as int);
                assert(region@.take(region@.len() as int) =~= region@);
            }
            let prefix = copy_range(region, 0, p);
            assert(prefix@ =~= region@.take(p as int));
            let bytes = byte_length(prefix.as_slice());
            if bytes >= min_keep {
                Some(p)
            } else {
                None
            }
        },
        None => None,
    }
}

/// Truncate content at section boundaries rather than mid-sentence.
pub fn truncate_by_sections(content: &str, max_chars: usize) -> (r: (String, bool))
    ensures
        (r.0@, r.1) == truncate_by_sections_spec(content@, max_chars as nat),
{
    let c = str_to_chars(content);
    let region = byte_prefix_chars(c.as_slice(), max_chars);
    if region.len() == c.len() {
        return (chars_to_string(c.as_slice()), false);
    }
    let safe_end = byte_length(region.as_slice());
    // safe_end * 3 / 5, computed without overflow.
    let min_keep = safe_end / 5 * 3 + safe_end % 5 * 3 / 5;
    assert(min_keep == safe_end * 3 / 5) by (nonlinear_arith)
        requires
            min_keep == safe_end / 5 * 3 + safe_end % 5 * 3 / 5,
    ;
    let heading: Vec<char> = vec!['\n', '#'];
    let para: Vec<char> = vec!['\n', '\n'];
    let nl: Vec<char> = vec!['\n'];
    let mut best = break_at_least_exec(region.as_slice(), heading.as_slice(), min_keep);
    if best.is_none() {
        best = break_at_least_exec(region.as_slice(), para.as_slice(), min_keep);
    }
    if best.is_none() {
        best = break_at_least_exec(region.as_slice(), nl.as_slice(), min_keep);
    }
    let break_at = match best {
        Some(p) => p,
        None => region.len(),
    };
    proof {
        assert(heading@ =~= seq!['\n', '#']);
        assert(para@ =~= seq!['\n', '\n']);
        assert(nl@ =~= seq!['\n']);
        crate::text::lemma_rfind_from(region@, nl@, region@.len() - 1);
    }
    assert(break_at <= region.len()) by {
        if best is Some {
            let pat = if break_at_least(region@, heading@, min_keep as nat) is Some {
                heading@
            } else if break_at_least(region@, para@, min_keep as nat) is Some {
                para@
            } else {
                nl@
            };
            crate::text::lemma_rfind_from(region@, pat, region@.len() - pat.len());
        }
    }
    let kept = copy_range(c.as_slice(), 0, break_at);
    assert(kept@ =~= c@.take(break_at as int));
    let t = trim_end_chars(kept.as_slice());
    (chars_to_string(t.as_slice()), true)
}

/// What truncation promises: the result is a prefix of the content that fits
/// in `max` bytes, it is marked truncated exactly when the content did not
/// fit, and a truncated result ends without trailing whitespace.
pub proof fn law_truncation_fits(content: Seq<char>, max: nat)
    ensures
        truncate_by_sections_spec(content, max).1 ==> trim_end(truncate_by_sections_spec(content, max).0)
            == truncate_by_sections_spec(content, max).0,
        byte_len(truncate_by_sections_spec(content, max).0) <= max,
        truncate_by_sections_spec(content, max).0.is_prefix_of(content),
        truncate_by_sections_spec(content, max).1 == (byte_len(content) > max),
        !truncate_by_sections_spec(content, max).1 ==> truncate_by_sections_spec(content, max).0
            == content,
{
    if byte_len(content) > max {
        crate::text::lemma_byte_prefix_exists(content, max);
        let k = choose|k: int| is_byte_prefix(content, max, k);
        let region = byte_prefix(content, max);
        let brk = match section_break(region, byte_len(region) * 3 / 5) {
            Some(p) => p,
            None => region.len() as int,
        };
        assert(0 <= brk <= region.len()) by {
            crate::text::lemma_rfind_from(region, seq!['\n', '#'], region.len() - 2);
            crate::text::lemma_rfind_from(region, seq!['\n', '\n'], region.len() - 2);
            crate::text::lemma_rfind_from(region, seq!['\n'], region.len() - 1);
        }
        let kept = content.take(brk);
        lemma_trim_end_prefix(kept);
        let t = trim_end(kept);
        assert(t =~= content.take(t.len() as int));
        lemma_byte_len_take_monotone(content, t.len() as int, k);
        crate::text::lemma_trim_end_by_idempotent(kept, None);
    } else {
        assert(content.is_prefix_of(content));
    }
}

/// A break that truncation may cut at keeps at least `min_keep` bytes and
/// lies on a line break.
proof fn lemma_break_at_least(region: Seq<char>, pat: Seq<char>, min_keep: nat)
    requires
        pat.len() > 0,
        pat[0] == '\n',
    ensures
        break_at_least(region, pat, min_keep) matches Some(p) ==> {
            &&& 0 <= p < region.len()
            &&& region[p] == '\n'
            &&& byte_len(region.take(p)) >= min_keep
        },
{
    crate::text::lemma_rfind_from(region, pat, region.len() - pat.len());
    let p = rfind(region, pat);
    if p >= 0 {
        assert(region.subrange(p, p + pat.len())[0] == region[p]);
    }
}

/// Truncation never cuts early: a truncated result is the content up to a
/// cut, trailing whitespace removed, where the cut is either the limit (the
/// longest prefix that fits in `max` bytes) or a line break that keeps at
/// least 60% of the bytes that fit.
pub proof fn law_truncation_keeps_most(content: Seq<char>, max: nat)
    requires
        byte_len(content) > max,
    ensures
        exists|p: int|
            #![trigger content.take(p)]
            0 <= p <= byte_prefix(content, max).len() && truncate_by_sections_spec(content, max).0
                == trim_end(content.take(p)) && (p == byte_prefix(content, max).len() || (
            content[p] == '\n' && byte_len(content.take(p)) >= byte_len(byte_prefix(content, max)) * 3
                / 5)),
{
    crate::text::lemma_byte_prefix_exists(content, max);
    let k = choose|k: int| is_byte_prefix(content, max, k);
    let region = byte_prefix(content, max);
    let min_keep = byte_len(region) * 3 / 5;
    lemma_break_at_least(region, seq!['\n', '#'], min_keep);
    lemma_break_at_least(region, seq!['\n', '\n'], min_keep);
    lemma_break_at_least(region, seq!['\n'], min_keep);
    let brk = match section_break(region, min_keep) {
        Some(p) => p,
        None => region.len() as int,
    };
    assert(region == content.take(k));
    if brk < region.len() {
        assert(region[brk] == content[brk]);
        assert(region.take(brk) =~= content.take(brk));
    }
    assert(truncate_by_sections_spec(content, max).0 == trim_end(content.take(brk)));
    assert(0 <= brk <= byte_prefix(content, max).len() && truncate_by_sections_spec(content, max).0
        == trim_end(content.take(brk)) && (brk == byte_prefix(content, max).len() || (content[brk]
        == '\n' && byte_len(content.take(brk)) >= byte_len(byte_prefix(content, max)) * 3 / 5)));
}

// ─── The pipeline ───

/// The body before truncation: the given cleaned-up Markdown of the page,
/// or the cleaned plain text.
pub open spec fn body_spec(p: PreprocessResult, config: WebContentConfig, markdown: Seq<char>) -> Seq<char> {
    if config.to_markdown {
        markdown
    } else {
        p.cleaned@
    }
}

/// Whether `<li` occurs in the text, letters in any case.
pub fn list_item_tag_in(html: &str) -> (r: bool)
    ensures
        r == has_list_item_tag(html@),
{
    let c = str_to_chars(html);
    let n = c.len();
    let mut i: usize = 0;
    while n >= 3 && i < n - 2
        invariant
            n == c@.len() == html@.len(),
            c@ == html@,
            forall|j: int|
                0 <= j < i && j + 2 < n ==> !(#[trigger] html@[j] == '<' && (html@[j + 1] == 'l'
                    || html@[j + 1] == 'L') && (html@[j + 2] == 'i' || html@[j + 2] == 'I')),
        decreases n - i,
    {
        if c[i] == '<' && (c[i + 1] == 'l' || c[i + 1] == 'L') && (c[i + 2] == 'i' || c[i + 2]
            == 'I') {
            return true;
        }
        i = i + 1;
    }
    false
}

/// Convert noise-stripped HTML to cleaned-up Markdown. A page whose HTML
/// holds a list item tag is refused (`None`): html2md may panic on it.
pub fn convert_to_markdown(preprocess: &PreprocessResult) -> (r: Option<String>)
    ensures
        r is Some == !has_list_item_tag(preprocess.cleaned_html@),
        r matches Some(m) ==> m@ == clean_markdown_spec(html_to_markdown(preprocess.cleaned_html@)),
{
    if list_item_tag_in(preprocess.cleaned_html.as_str()) {
        return None;
    }
    let md = parse_html_to_markdown(preprocess.cleaned_html.as_str());
    Some(clean_markdown(md.as_str()))
}

/// The pipeline after conversion: truncate, assemble. The share of content
/// comes already rendered as `content_percent`, and the page's cleaned-up
/// Markdown as `markdown` (used when the configuration asks for Markdown).
pub fn finish_web_content(
    preprocess: PreprocessResult,
    config: &WebContentConfig,
    content_percent: &str,
    markdown: &str,
) -> (r: WebContentResult)
    ensures
        ({
            let (body, truncated) = truncate_by_sections_spec(
                body_spec(preprocess, *config, markdown@),
                config.max_chars as nat,
            );
            &&& r.content@ == assemble_output_spec(
                body,
                preprocess,
                *config,
                truncated,
                content_percent@,
            )
            &&& r.was_truncated == truncated
            &&& r.metadata == preprocess.metadata
            &&& r.signals == preprocess.signals
            &&& r.original_size == preprocess.stats.original_len
        }),
{
    let body = if config.to_markdown {
        copy_string(markdown)
    } else {
        copy_string(preprocess.cleaned.as_str())
    };
    let (truncated_body, was_truncated) = truncate_by_sections(body.as_str(), config.max_chars);
    let content = assemble_output(
        truncated_body.as_str(),
        &preprocess,
        config,
        was_truncated,
        content_percent,
    );
    let original_size = preprocess.stats.original_len;
    WebContentResult {
        content,
        metadata: preprocess.metadata,
        signals: preprocess.signals,
        was_truncated,
        original_size,
    }
}

// ─── Output assembly ───

/// The metadata lines of the header: description, author, date, source.
pub open spec fn meta_lines(m: HtmlMetadata) -> Seq<Seq<char>> {
    (match first_of(m.og_description, m.description) {
        Some(d) => seq!["> "@ + d],
        None => seq![],
    }) + (match m.author {
        Some(a) => seq!["Author: "@ + a@],
        None => seq![],
    }) + (match m.published_date {
        Some(d) => seq!["Published: "@ + d@],
        None => seq![],
    }) + (match first_of(m.canonical_url, m.og_url) {
        Some(u) => seq!["Source: "@ + u],
        None => seq![],
    })
}

/// The metadata header: bold title, then the metadata lines.
pub open spec fn metadata_header(m: HtmlMetadata) -> Seq<char> {
    (match m.title {
        Some(t) => "**"@ + t@ + "**\n\n"@,
        None => seq![],
    }) + (if meta_lines(m).len() > 0 {
        join(meta_lines(m), "\n"@) + "\n"@
    } else {
        seq![]
    })
}

/// The final output: optional metadata header, optional warnings, a stats
/// line (with the content share rendered as `content_percent`), a rule, then
/// the body.
pub open spec fn assemble_output_spec(
    body: Seq<char>,
    p: PreprocessResult,
    config: WebContentConfig,
    was_truncated: bool,
    content_percent: Seq<char>,
) -> Seq<char> {
    (if config.include_metadata {
        metadata_header(p.metadata)
    } else {
        seq![]
    }) + (if config.include_warnings && p.signals.issues.len() > 0 {
        "\n⚠ "@ + join(string_views(p.signals.issues@), " | "@) + "\n"@
    } else {
        seq![]
    }) + "\n["@ + decimal(p.stats.original_len as nat) + " → "@ + decimal(
        p.stats.cleaned_len as nat,
    ) + " bytes | "@ + decimal(p.stats.elements_removed as nat) + " noise elements removed | "@
        + content_percent + "% content"@ + (if was_truncated {
        " | truncated"@
    } else {
        seq![]
    }) + "]\n\n---\n\n"@ + body
}

fn meta_line(prefix: &str, v: &String) -> (r: Vec<char>)
    ensures
        r@ == prefix@ + v@,
{
    let mut l: Vec<char> = Vec::new();
    push_str_chars(&mut l, prefix);
    push_str_chars(&mut l, v.as_str());
    l
}

fn header_chars(m: &HtmlMetadata) -> (r: Vec<char>)
    ensures
        r@ == metadata_header(*m),
{
    let mut out: Vec<char> = Vec::new();
    if let Some(title) = &m.title {
        push_str_chars(&mut out, "**");
        push_str_chars(&mut out, title.as_str());
        push_str_chars(&mut out, "**\n\n");
    }
    let ghost head = out@;
    let mut lines: Vec<Vec<char>> = Vec::new();
    let desc = match &m.og_description {
        Some(d) => Some(d),
        None => match &m.description {
            Some(d) => Some(d),
            None => None,
        },
    };
    if let Some(d) = desc {
        lines.push(meta_line("> ", d));
    }
    let ghost l1 = views(lines@);
    if let Some(a) = &m.author {
        lines.push(meta_line("Author: ", a));
    }
    let ghost l2 = views(lines@);
    if let Some(d) = &m.published_date {
        lines.push(meta_line("Published: ", d));
    }
    let ghost l3 = views(lines@);
    let url = match &m.canonical_url {
        Some(u) => Some(u),
        None => match &m.og_url {
            Some(u) => Some(u),
            None => None,
        },
    };
    if let Some(u) = url {
        lines.push(meta_line("Source: ", u));
    }
    proof {
        assert(views(lines@) =~= meta_lines(*m));
    }
    if lines.len() > 0 {
        let nl: Vec<char> = str_to_chars("\n");
        let joined = crate::text::join_chars(&lines, nl.as_slice());
        push_all(&mut out, joined.as_slice());
        push_str_chars(&mut out, "\n");
    }
    assert(out@ =~= metadata_header(*m));
    out
}

/// Assemble the final output with metadata header and body.
pub fn assemble_output(
    body: &str,
    preprocess: &PreprocessResult,
    config: &WebContentConfig,
    was_truncated: bool,
    content_percent: &str,
) -> (r: String)
    ensures
        r@ == assemble_output_spec(body@, *preprocess, *config, was_truncated, content_percent@),
{
    let mut out: Vec<char> = Vec::new();
    if config.include_metadata {
        let h = header_chars(&preprocess.metadata);
        push_all(&mut out, h.as_slice());
    }
    if config.include_warnings && preprocess.signals.issues.len() > 0 {
        push_str_chars(&mut out, "\n⚠ ");
        let joined = join_strings(&preprocess.signals.issues, " | ");
        push_all(&mut out, joined.as_slice());
        push_str_chars(&mut out, "\n");
    }
    push_str_chars(&mut out, "\n[");
    push_decimal(&mut out, preprocess.stats.original_len as u64);
    push_str_chars(&mut out, " → ");
    push_decimal(&mut out, preprocess.stats.cleaned_len as u64);
    push_str_chars(&mut out, " bytes | ");
    push_decimal(&mut out, preprocess.stats.elements_removed as u64);
    push_str_chars(&mut out, " noise elements removed | ");
    push_str_chars(&mut out, content_percent);
    push_str_chars(&mut out, "% content");
    if was_truncated {
        push_str_chars(&mut out, " | truncated");
    }
    push_str_chars(&mut out, "]\n\n---\n\n");
    push_str_chars(&mut out, body);
    assert(out@ =~= assemble_output_spec(
        body@,
        *preprocess,
        *config,
        was_truncated,
        content_percent@,
    ));
    chars_to_string(out.as_slice())
}

/// Content within the limit is returned whole and not marked truncated.
pub proof fn law_short_content_untouched(content: Seq<char>, max: nat)
    requires
        byte_len(content) <= max,
    ensures
        truncate_by_sections_spec(content, max) == (content, false),
{
}
} // verus!
