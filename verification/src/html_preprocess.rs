//! HTML preprocessing: the results of stripping noise, reading metadata and
//! detecting quality problems, and their summary.
use vstd::prelude::*;
use crate::dom::{
    attr_of, contains_id, document_tree, find_in_tree, find_node, flatten, get_attr, html_events,
    html_select, html_select_attrs, labelled_model, parse_document, push_text_of, select_ids,
    select_with_attrs, text_of, DomNode, DomTree,
};
use crate::json::{json_error, json_parse_error};
use crate::pattern::{compile_all, hits, matches_text, Pattern};
use crate::text::{
    alphanumeric, byte_len, byte_prefix, byte_prefix_chars, chars_to_string, collapse_runs,
    collapse_runs_chars, copy_range, copy_string, decimal, find_chars, find_seq, is_alphanumeric,
    join, join_strings, lemma_byte_len_is_utf8_len, lemma_collapsed_trimmed_shape, no_triple_newline, lowercase, push_all, push_decimal,
    push_str_chars, str_eq, str_to_chars, string_views, to_lowercase, trim, trim_chars, utf8_len,
};

verus! {

/// Metadata read from a page's `<head>`.
pub struct HtmlMetadata {
    pub title: Option<String>,
    pub description: Option<String>,
    pub og_title: Option<String>,
    pub og_description: Option<String>,
    pub og_image: Option<String>,
    pub og_type: Option<String>,
    pub og_url: Option<String>,
    pub canonical_url: Option<String>,
    pub charset: Option<String>,
    pub language: Option<String>,
    pub author: Option<String>,
    pub published_date: Option<String>,
    /// The JSON-LD blocks that are JSON, each as its trimmed text.
    pub json_ld: Vec<String>,
}

/// Quality signals of a page. The share of text in the page is kept as the
/// two lengths it is computed from: `body_text_len` bytes of body text out of
/// `total_len` bytes of HTML.
pub struct QualitySignals {
    pub has_paywall: bool,
    pub has_login_wall: bool,
    pub has_bot_block: bool,
    pub is_spa_shell: bool,
    pub body_text_len: usize,
    pub total_len: usize,
    pub has_content: bool,
    pub issues: Vec<String>,
}

/// Sizes before and after preprocessing.
pub struct ProcessingStats {
    pub original_len: usize,
    pub cleaned_len: usize,
    pub elements_removed: usize,
}

/// Everything preprocessing produces.
pub struct PreprocessResult {
    pub cleaned: String,
    pub cleaned_html: String,
    pub metadata: HtmlMetadata,
    pub signals: QualitySignals,
    pub stats: ProcessingStats,
}

/// Safely slice a string up to `max` bytes, never splitting a character.
pub fn safe_prefix(s: &str, max: usize) -> (r: String)
    ensures
        r@ == byte_prefix(s@, max as nat),
{
    let v = str_to_chars(s);
    let p = byte_prefix_chars(v.as_slice(), max);
    chars_to_string(p.as_slice())
}

/// The first of two optional strings that is present.
pub open spec fn first_of(a: Option<String>, b: Option<String>) -> Option<Seq<char>> {
    match a {
        Some(x) => Some(x@),
        None => match b {
            Some(y) => Some(y@),
            None => None,
        },
    }
}

/// `prefix + value + "\n"` when the value is present, nothing otherwise.
pub open spec fn labelled_line(prefix: Seq<char>, v: Option<Seq<char>>) -> Seq<char> {
    match v {
        Some(x) => prefix + x + "\n"@,
        None => seq![],
    }
}

/// The summary of a preprocessing result: metadata lines, warnings, sizes
/// (with the content share already rendered as `content_percent`), then the
/// cleaned text.
pub open spec fn format_result_spec(r: PreprocessResult, content_percent: Seq<char>) -> Seq<char> {
    let m = r.metadata;
    labelled_line("Title: "@, first_of(m.title, None)) + labelled_line(
        "Description: "@,
        first_of(m.description, m.og_description),
    ) + labelled_line("Author: "@, first_of(m.author, None)) + labelled_line(
        "Published: "@,
        first_of(m.published_date, None),
    ) + labelled_line("URL: "@, first_of(m.canonical_url, m.og_url)) + (if r.signals.issues.len()
        > 0 {
        "\nWarnings: "@ + join(string_views(r.signals.issues@), ", "@) + "\n"@
    } else {
        seq![]
    }) + "\n[Preprocessed: "@ + decimal(r.stats.original_len as nat) + " → "@ + decimal(
        r.stats.cleaned_len as nat,
    ) + " bytes, "@ + decimal(r.stats.elements_removed as nat) + " noise elements removed, "@
        + content_percent + "% content ratio]\n"@ + "\n---\n\n"@ + r.cleaned@
}

fn push_labelled(out: &mut Vec<char>, prefix: &str, v: Option<&String>)
    ensures
        final(out)@ == old(out)@ + labelled_line(
            prefix@,
            match v {
                Some(x) => Some(x@),
                None => None,
            },
        ),
{
    if let Some(x) = v {
        push_str_chars(out, prefix);
        push_str_chars(out, x.as_str());
        push_str_chars(out, "\n");
    }
}

/// The views of optional strings, first present one taken.
fn first_present<'a>(a: &'a Option<String>, b: &'a Option<String>) -> (r: Option<&'a String>)
    ensures
        match r {
            Some(x) => first_of(*a, *b) == Some(x@),
            None => first_of(*a, *b) is None,
        },
{
    match a {
        Some(x) => Some(x),
        None => match b {
            Some(y) => Some(y),
            None => None,
        },
    }
}

/// Format the preprocessing result as a concise summary string.
pub fn format_result(result: &PreprocessResult, content_percent: &str) -> (r: String)
    ensures
        r@ == format_result_spec(*result, content_percent@),
{
    let m = &result.metadata;
    let mut out: Vec<char> = Vec::new();
    let none: Option<String> = None;
    push_labelled(&mut out, "Title: ", first_present(&m.title, &none));
    push_labelled(&mut out, "Description: ", first_present(&m.description, &m.og_description));
    push_labelled(&mut out, "Author: ", first_present(&m.author, &none));
    push_labelled(&mut out, "Published: ", first_present(&m.published_date, &none));
    push_labelled(&mut out, "URL: ", first_present(&m.canonical_url, &m.og_url));
    if result.signals.issues.len() > 0 {
        push_str_chars(&mut out, "\nWarnings: ");
        let joined = join_strings(&result.signals.issues, ", ");
        push_all(&mut out, joined.as_slice());
        push_str_chars(&mut out, "\n");
    }
    push_str_chars(&mut out, "\n[Preprocessed: ");
    push_decimal(&mut out, result.stats.original_len as u64);
    push_str_chars(&mut out, " → ");
    push_decimal(&mut out, result.stats.cleaned_len as u64);
    push_str_chars(&mut out, " bytes, ");
    push_decimal(&mut out, result.stats.elements_removed as u64);
    push_str_chars(&mut out, " noise elements removed, ");
    push_str_chars(&mut out, content_percent);
    push_str_chars(&mut out, "% content ratio]\n");
    push_str_chars(&mut out, "\n---\n\n");
    push_str_chars(&mut out, result.cleaned.as_str());
    chars_to_string(out.as_slice())
}

// ─── Walking the body ───

/// Elements after which (and before which, when text precedes) a line ends.
pub open spec fn is_block(name: Seq<char>) -> bool {
    name == "p"@ || name == "div"@ || name == "h1"@ || name == "h2"@ || name == "h3"@ || name
        == "h4"@ || name == "h5"@ || name == "h6"@ || name == "li"@ || name == "tr"@ || name
        == "br"@ || name == "hr"@ || name == "blockquote"@ || name == "pre"@ || name
        == "article"@ || name == "section"@ || name == "main"@ || name == "figure"@ || name
        == "figcaption"@ || name == "dt"@ || name == "dd"@
}

fn is_block_name(name: &str) -> (r: bool)
    ensures
        r == is_block(name@),
{
    str_eq(name, "p") || str_eq(name, "div") || str_eq(name, "h1") || str_eq(name, "h2")
        || str_eq(name, "h3") || str_eq(name, "h4") || str_eq(name, "h5") || str_eq(name, "h6")
        || str_eq(name, "li") || str_eq(name, "tr") || str_eq(name, "br") || str_eq(name, "hr")
        || str_eq(name, "blockquote") || str_eq(name, "pre") || str_eq(name, "article") || str_eq(
        name,
        "section",
    ) || str_eq(name, "main") || str_eq(name, "figure") || str_eq(name, "figcaption") || str_eq(
        name,
        "dt",
    ) || str_eq(name, "dd")
}

/// The marker written before a heading (`#` per level) or a list item (`-`).
pub open spec fn heading_marker(name: Seq<char>) -> Seq<char> {
    if name == "h1"@ {
        "# "@
    } else if name == "h2"@ {
        "## "@
    } else if name == "h3"@ {
        "### "@
    } else if name == "h4"@ {
        "#### "@
    } else if name == "h5"@ {
        "##### "@
    } else if name == "h6"@ {
        "###### "@
    } else if name == "li"@ {
        "- "@
    } else {
        seq![]
    }
}

fn push_heading_marker(out: &mut Vec<char>, name: &str)
    ensures
        final(out)@ == old(out)@ + heading_marker(name@),
{
    if str_eq(name, "h1") {
        push_str_chars(out, "# ");
    } else if str_eq(name, "h2") {
        push_str_chars(out, "## ");
    } else if str_eq(name, "h3") {
        push_str_chars(out, "### ");
    } else if str_eq(name, "h4") {
        push_str_chars(out, "#### ");
    } else if str_eq(name, "h5") {
        push_str_chars(out, "##### ");
    } else if str_eq(name, "h6") {
        push_str_chars(out, "###### ");
    } else if str_eq(name, "li") {
        push_str_chars(out, "- ");
    } else {
        assert(old(out)@ + heading_marker(name@) =~= old(out)@);
    }
}

/// The plain text of a tree appended to `out`, leaving out the nodes in
/// `skip`: each text node trimmed and followed by a space, block elements on
/// lines of their own, headings and list items marked.
pub open spec fn text_walk(t: DomTree, skip: Seq<Seq<char>>, out: Seq<char>) -> Seq<char>
    decreases t,
{
    if skip.contains(t.id@) {
        out
    } else {
        match t.node {
            DomNode::Text(s) => if trim(s@).len() > 0 {
                out + trim(s@) + seq![' ']
            } else {
                out
            },
            DomNode::Element(name, _) => {
                let block = is_block(name@);
                let o1 = if block && out.len() > 0 && out.last() != '\n' {
                    out.push('\n')
                } else {
                    out
                };
                let o2 = text_walk_all(t.children@, skip, o1 + heading_marker(name@));
                if block {
                    o2.push('\n')
                } else {
                    o2
                }
            },
            DomNode::Other => text_walk_all(t.children@, skip, out),
        }
    }
}

/// The plain text of a sequence of trees, one after the other.
pub open spec fn text_walk_all(ts: Seq<DomTree>, skip: Seq<Seq<char>>, out: Seq<char>) -> Seq<char>
    decreases ts,
{
    if ts.len() == 0 {
        out
    } else {
        text_walk(ts.last(), skip, text_walk_all(ts.drop_last(), skip, out))
    }
}

/// A prefix of a prefix is a prefix.
proof fn lemma_prefix_trans(a: Seq<char>, b: Seq<char>, c: Seq<char>)
    requires
        a.is_prefix_of(b),
        b.is_prefix_of(c),
    ensures
        a.is_prefix_of(c),
{
    assert forall|i: int| 0 <= i < a.len() implies c[i] == a[i] by {
        assert(c.subrange(0, b.len() as int)[i] == c[i]);
        assert(b.subrange(0, a.len() as int)[i] == b[i]);
    }
    assert(c.subrange(0, a.len() as int) =~= a);
}

/// A text is a prefix of itself extended.
proof fn lemma_prefix_concat(a: Seq<char>, x: Seq<char>)
    ensures
        a.is_prefix_of(a + x),
        a.is_prefix_of(a.push('\n')),
{
    assert((a + x).subrange(0, a.len() as int) =~= a);
    assert(a.push('\n').subrange(0, a.len() as int) =~= a);
}

/// The text walk only appends to what it is given.
proof fn lemma_text_walk_extends(t: DomTree, skip: Seq<Seq<char>>, out: Seq<char>)
    ensures
        out.is_prefix_of(text_walk(t, skip, out)),
    decreases t,
{
    lemma_prefix_concat(out, seq![]);
    assert(out + seq![] =~= out);
    if !skip.contains(t.id@) {
        match t.node {
            DomNode::Text(s) => {
                lemma_prefix_concat(out, trim(s@) + seq![' ']);
                assert(out + trim(s@) + seq![' '] =~= out + (trim(s@) + seq![' ']));
            },
            DomNode::Element(name, _) => {
                let block = is_block(name@);
                let o1 = if block && out.len() > 0 && out.last() != '\n' {
                    out.push('\n')
                } else {
                    out
                };
                lemma_prefix_concat(out, seq![]);
                let m = o1 + heading_marker(name@);
                lemma_prefix_concat(o1, heading_marker(name@));
                lemma_prefix_trans(out, o1, m);
                lemma_text_walk_all_extends(t.children@, skip, m);
                let o2 = text_walk_all(t.children@, skip, m);
                lemma_prefix_trans(out, m, o2);
                lemma_prefix_concat(o2, seq![]);
                lemma_prefix_trans(out, o2, o2.push('\n'));
            },
            DomNode::Other => {
                lemma_text_walk_all_extends(t.children@, skip, out);
            },
        }
    }
}

proof fn lemma_text_walk_all_extends(ts: Seq<DomTree>, skip: Seq<Seq<char>>, out: Seq<char>)
    ensures
        out.is_prefix_of(text_walk_all(ts, skip, out)),
    decreases ts,
{
    if ts.len() > 0 {
        lemma_text_walk_all_extends(ts.drop_last(), skip, out);
        let mid = text_walk_all(ts.drop_last(), skip, out);
        lemma_text_walk_extends(ts.last(), skip, mid);
        lemma_prefix_trans(out, mid, text_walk(ts.last(), skip, mid));
    } else {
        lemma_prefix_concat(out, seq![]);
        assert(out + seq![] =~= out);
    }
}

/// Every list item stands on lines of its own in the cleaned text: when
/// text precedes it on the same line, a line break comes first, then its
/// `- ` marker; and a line break ends it. What precedes it is kept as it is.
pub proof fn law_list_items_on_own_lines(t: DomTree, skip: Seq<Seq<char>>, out: Seq<char>)
    requires
        t.node matches DomNode::Element(name, _) && name@ == "li"@,
        !skip.contains(t.id@),
    ensures
        out.is_prefix_of(text_walk(t, skip, out)),
        text_walk(t, skip, out).len() > out.len(),
        text_walk(t, skip, out).last() == '\n',
        out.len() > 0 && out.last() != '\n' ==> text_walk(t, skip, out)[out.len() as int] == '\n',
{
    lemma_text_walk_extends(t, skip, out);
    match t.node {
        DomNode::Element(name, _) => {
            assert(is_block(name@));
            let o1 = if out.len() > 0 && out.last() != '\n' {
                out.push('\n')
            } else {
                out
            };
            let m = o1 + heading_marker(name@);
            lemma_text_walk_all_extends(t.children@, skip, m);
            let o2 = text_walk_all(t.children@, skip, m);
            assert(text_walk(t, skip, out) == o2.push('\n'));
            if out.len() > 0 && out.last() != '\n' {
                assert(o2.subrange(0, m.len() as int)[out.len() as int] == o2[out.len() as int]);
                assert(m[out.len() as int] == '\n');
                assert(o2.push('\n')[out.len() as int] == o2[out.len() as int]);
            }
        },
        _ => {},
    }
}

fn walk_text(t: &DomTree, skip: &Vec<String>, out: &mut Vec<char>)
    ensures
        final(out)@ == text_walk(*t, string_views(skip@), old(out)@),
    decreases t,
{
    if contains_id(skip, &t.id) {
        return;
    }
    match &t.node {
        DomNode::Text(s) => {
            let c = str_to_chars(s.as_str());
            let tr = trim_chars(c.as_slice());
            if tr.len() > 0 {
                push_all(out, tr.as_slice());
                out.push(' ');
            }
        },
        DomNode::Element(name, _) => {
            let block = is_block_name(name.as_str());
            if block && out.len() > 0 && out[out.len() - 1] != '\n' {
                out.push('\n');
            }
            push_heading_marker(out, name.as_str());
            walk_children_text(t, skip, out);
            if block {
                out.push('\n');
            }
        },
        DomNode::Other => {
            walk_children_text(t, skip, out);
        },
    }
}

fn walk_children_text(t: &DomTree, skip: &Vec<String>, out: &mut Vec<char>)
    ensures
        final(out)@ == text_walk_all(t.children@, string_views(skip@), old(out)@),
    decreases t, 0nat,
{
    let ghost start = out@;
    let mut i: usize = 0;
    while i < t.children.len()
        invariant
            i <= t.children@.len(),
            out@ == text_walk_all(t.children@.take(i as int), string_views(skip@), start),
        decreases t.children@.len() - i,
    {
        proof {
            assert(t.children@.take(i + 1).drop_last() =~= t.children@.take(i as int));
            assert(decreases_to!(t => t.children));
        }
        walk_text(&t.children[i], skip, out);
        i = i + 1;
        proof {
            assert(t.children@.take(i as int).last() == t.children@[i - 1]);
        }
    }
    assert(t.children@.take(t.children@.len() as int) =~= t.children@);
}

/// The plain text of the body's content, leaving out the nodes in `skip`.
pub fn extract_text_excluding(body: Option<&DomTree>, skip: &Vec<String>) -> (r: String)
    ensures
        r@ == match body {
            Some(b) => text_walk_all(b.children@, string_views(skip@), seq![]),
            None => seq![],
        },
{
    let mut out: Vec<char> = Vec::new();
    match body {
        Some(b) => walk_children_text(b, skip, &mut out),
        None => {},
    }
    chars_to_string(out.as_slice())
}

/// Elements that have no closing tag.
pub open spec fn is_void(name: Seq<char>) -> bool {
    name == "br"@ || name == "hr"@ || name == "img"@ || name == "input"@ || name == "meta"@
        || name == "link"@ || name == "source"@ || name == "col"@ || name == "area"@ || name
        == "base"@ || name == "embed"@ || name == "wbr"@
}

fn is_void_name(name: &str) -> (r: bool)
    ensures
        r == is_void(name@),
{
    str_eq(name, "br") || str_eq(name, "hr") || str_eq(name, "img") || str_eq(name, "input")
        || str_eq(name, "meta") || str_eq(name, "link") || str_eq(name, "source") || str_eq(
        name,
        "col",
    ) || str_eq(name, "area") || str_eq(name, "base") || str_eq(name, "embed") || str_eq(
        name,
        "wbr",
    )
}

/// Text with `&`, `<` and `>` written as entities.
pub open spec fn escape_html(s: Seq<char>) -> Seq<char>
    decreases s.len(),
{
    if s.len() == 0 {
        seq![]
    } else {
        escape_html(s.drop_last()) + (if s.last() == '&' {
            "&amp;"@
        } else if s.last() == '<' {
            "&lt;"@
        } else if s.last() == '>' {
            "&gt;"@
        } else {
            seq![s.last()]
        })
    }
}

fn push_escaped(out: &mut Vec<char>, s: &str)
    ensures
        final(out)@ == old(out)@ + escape_html(s@),
{
    let c = str_to_chars(s);
    let ghost start = out@;
    let mut i: usize = 0;
    while i < c.len()
        invariant
            i <= c@.len(),
            c@ == s@,
            out@ == start + escape_html(c@.take(i as int)),
        decreases c@.len() - i,
    {
        let ch = c[i];
        if ch == '&' {
            push_str_chars(out, "&amp;");
        } else if ch == '<' {
            push_str_chars(out, "&lt;");
        } else if ch == '>' {
            push_str_chars(out, "&gt;");
        } else {
            out.push(ch);
        }
        proof {
            assert(c@.take(i + 1).drop_last() =~= c@.take(i as int));
            assert(c@.take(i + 1).last() == ch);
        }
        i = i + 1;
        assert(out@ =~= start + escape_html(c@.take(i as int)));
    }
    assert(c@.take(c@.len() as int) =~= c@);
}

/// The attributes of a start tag: ` name="value"` each, as given.
pub open spec fn attrs_html(attrs: Seq<(String, String)>) -> Seq<char>
    decreases attrs.len(),
{
    if attrs.len() == 0 {
        seq![]
    } else {
        attrs_html(attrs.drop_last()) + seq![' '] + attrs.last().0@ + "=\""@ + attrs.last().1@
            + seq!['"']
    }
}

fn push_attrs(out: &mut Vec<char>, attrs: &Vec<(String, String)>)
    ensures
        final(out)@ == old(out)@ + attrs_html(attrs@),
{
    let ghost start = out@;
    let mut i: usize = 0;
    while i < attrs.len()
        invariant
            i <= attrs@.len(),
            out@ == start + attrs_html(attrs@.take(i as int)),
        decreases attrs@.len() - i,
    {
        out.push(' ');
        push_str_chars(out, attrs[i].0.as_str());
        push_str_chars(out, "=\"");
        push_str_chars(out, attrs[i].1.as_str());
        out.push('"');
        proof {
            assert(attrs@.take(i + 1).drop_last() =~= attrs@.take(i as int));
            assert(attrs@.take(i + 1).last() == attrs@[i as int]);
        }
        i = i + 1;
        assert(out@ =~= start + attrs_html(attrs@.take(i as int)));
    }
    assert(attrs@.take(attrs@.len() as int) =~= attrs@);
}

/// The HTML of a tree without the nodes in `skip`: text escaped, elements
/// written with their attributes, closing tags for all but void elements,
/// other nodes replaced by their content.
pub open spec fn html_walk(t: DomTree, skip: Seq<Seq<char>>) -> Seq<char>
    decreases t,
{
    if skip.contains(t.id@) {
        seq![]
    } else {
        match t.node {
            DomNode::Text(s) => escape_html(s@),
            DomNode::Element(name, attrs) => seq!['<'] + name@ + attrs_html(attrs@) + seq!['>']
                + html_walk_all(t.children@, skip) + (if is_void(name@) {
                seq![]
            } else {
                "</"@ + name@ + seq!['>']
            }),
            DomNode::Other => html_walk_all(t.children@, skip),
        }
    }
}

/// The HTML of a sequence of trees, one after the other.
pub open spec fn html_walk_all(ts: Seq<DomTree>, skip: Seq<Seq<char>>) -> Seq<char>
    decreases ts,
{
    if ts.len() == 0 {
        seq![]
    } else {
        html_walk_all(ts.drop_last(), skip) + html_walk(ts.last(), skip)
    }
}

fn walk_html(t: &DomTree, skip: &Vec<String>, out: &mut Vec<char>)
    ensures
        final(out)@ == old(out)@ + html_walk(*t, string_views(skip@)),
    decreases t,
{
    if contains_id(skip, &t.id) {
        assert(old(out)@ + html_walk(*t, string_views(skip@)) =~= old(out)@);
        return;
    }
    let ghost start = out@;
    match &t.node {
        DomNode::Text(s) => {
            push_escaped(out, s.as_str());
        },
        DomNode::Element(name, attrs) => {
            out.push('<');
            push_str_chars(out, name.as_str());
            push_attrs(out, attrs);
            out.push('>');
            walk_children_html(t, skip, out);
            if !is_void_name(name.as_str()) {
                push_str_chars(out, "</");
                push_str_chars(out, name.as_str());
                out.push('>');
            }
            assert(out@ =~= start + html_walk(*t, string_views(skip@)));
        },
        DomNode::Other => {
            walk_children_html(t, skip, out);
        },
    }
}

fn walk_children_html(t: &DomTree, skip: &Vec<String>, out: &mut Vec<char>)
    ensures
        final(out)@ == old(out)@ + html_walk_all(t.children@, string_views(skip@)),
    decreases t, 0nat,
{
    let ghost start = out@;
    let mut i: usize = 0;
    assert(start + html_walk_all(t.children@.take(0), string_views(skip@)) =~= start);
    while i < t.children.len()
        invariant
            i <= t.children@.len(),
            out@ == start + html_walk_all(t.children@.take(i as int), string_views(skip@)),
        decreases t.children@.len() - i,
    {
        proof {
            assert(t.children@.take(i + 1).drop_last() =~= t.children@.take(i as int));
            assert(decreases_to!(t => t.children));
        }
        walk_html(&t.children[i], skip, out);
        i = i + 1;
        proof {
            assert(t.children@.take(i as int).last() == t.children@[i - 1]);
        }
        assert(out@ =~= start + html_walk_all(t.children@.take(i as int), string_views(skip@)));
    }
    assert(t.children@.take(t.children@.len() as int) =~= t.children@);
}

/// The body's content as HTML, leaving out the nodes in `skip`.
pub fn rebuild_html_excluding(body: Option<&DomTree>, skip: &Vec<String>) -> (r: String)
    ensures
        r@ == match body {
            Some(b) => html_walk_all(b.children@, string_views(skip@)),
            None => seq![],
        },
{
    let mut out: Vec<char> = Vec::new();
    match body {
        Some(b) => {
            walk_children_html(b, skip, &mut out);
            assert(out@ =~= html_walk_all(b.children@, string_views(skip@)));
        },
        None => {},
    }
    chars_to_string(out.as_slice())
}

// ─── What is read from the parsed page ───

/// What preprocessing reads from a parsed page: the tree, and the elements
/// found by each selector (each by its id text), in the order `scraper`
/// gives them. `facts_of_page` says which facts belong to a page.
pub struct PageFacts {
    /// The document's tree (present for every parsed page).
    pub tree: Option<DomTree>,
    /// `body` elements.
    pub body: Vec<String>,
    /// `title` elements.
    pub title: Vec<String>,
    /// `meta` elements.
    pub meta: Vec<String>,
    /// `link[rel="canonical"]` elements.
    pub canonical: Vec<String>,
    /// `html` elements.
    pub html: Vec<String>,
    /// `script[type="application/ld+json"]` elements.
    pub json_ld: Vec<String>,
    /// For each noise tag and each noise selector, in order, the elements it finds.
    pub noise: Vec<Vec<String>>,
    /// `[class], [id]` elements with their `class` and `id` attributes.
    pub labelled: Vec<(String, Option<String>, Option<String>)>,
}

/// Tags whose elements are noise.
pub open spec fn noise_tags() -> Seq<Seq<char>> {
    seq![
        "script"@,
        "style"@,
        "noscript"@,
        "iframe"@,
        "svg"@,
        "canvas"@,
        "template"@,
        "picture"@,
        "source"@,
        "video"@,
        "audio"@,
    ]
}

/// Structural selectors of noise.
pub open spec fn noise_selectors() -> Seq<Seq<char>> {
    seq![
        "nav"@,
        "aside"@,
        "header nav"@,
        "[role=\"navigation\"]"@,
        "[role=\"banner\"]"@,
        "[role=\"complementary\"]"@,
        "[aria-hidden=\"true\"]"@,
    ]
}

fn noise_selector_list() -> (r: Vec<&'static str>)
    ensures
        string_slices(r@) == noise_tags() + noise_selectors(),
{
    let mut r: Vec<&'static str> = Vec::new();
    r.push("script");
    r.push("style");
    r.push("noscript");
    r.push("iframe");
    r.push("svg");
    r.push("canvas");
    r.push("template");
    r.push("picture");
    r.push("source");
    r.push("video");
    r.push("audio");
    r.push("nav");
    r.push("aside");
    r.push("header nav");
    r.push("[role=\"navigation\"]");
    r.push("[role=\"banner\"]");
    r.push("[role=\"complementary\"]");
    r.push("[aria-hidden=\"true\"]");
    assert(string_slices(r@) =~= noise_tags() + noise_selectors());
    r
}

/// The characters of each string slice.
pub open spec fn string_slices(v: Seq<&str>) -> Seq<Seq<char>> {
    Seq::new(v.len(), |i: int| v[i]@)
}

/// Expressions that mark an element as noise by its class and id.
pub open spec fn noise_patterns() -> Seq<Seq<char>> {
    seq![
        "(?i)(nav(bar|igation)?|main[-_]?menu|sidebar|side-bar)"@,
        "(?i)(footer|foot|bottom-bar)"@,
        "(?i)(ad[-_]?banner|advert|ads[-_]?container|sponsor|promo[-_]?box|google[-_]?ad)"@,
        "(?i)(cookie[-_]?(banner|consent|notice|popup)|gdpr|consent[-_]?(bar|modal))"@,
        "(?i)(social[-_]?(share|links|buttons|widget)|share[-_]?(bar|buttons))"@,
        "(?i)(popup|modal[-_]?(dialog|window|backdrop)|lightbox|newsletter[-_]?(signup|modal))"@,
        "(?i)(comments?[-_]?(section|area|list|block)|disqus)"@,
        "(?i)(related[-_]?(posts|articles|content)|recommended|you[-_]?might[-_]?like)"@,
    ]
}

fn noise_pattern_list() -> (r: Vec<&'static str>)
    ensures
        string_slices(r@) == noise_patterns(),
{
    let mut r: Vec<&'static str> = Vec::new();
    r.push("(?i)(nav(bar|igation)?|main[-_]?menu|sidebar|side-bar)");
    r.push("(?i)(footer|foot|bottom-bar)");
    r.push("(?i)(ad[-_]?banner|advert|ads[-_]?container|sponsor|promo[-_]?box|google[-_]?ad)");
    r.push("(?i)(cookie[-_]?(banner|consent|notice|popup)|gdpr|consent[-_]?(bar|modal))");
    r.push("(?i)(social[-_]?(share|links|buttons|widget)|share[-_]?(bar|buttons))");
    r.push(
        "(?i)(popup|modal[-_]?(dialog|window|backdrop)|lightbox|newsletter[-_]?(signup|modal))",
    );
    r.push("(?i)(comments?[-_]?(section|area|list|block)|disqus)");
    r.push("(?i)(related[-_]?(posts|articles|content)|recommended|you[-_]?might[-_]?like)");
    assert(string_slices(r@) =~= noise_patterns());
    r
}

/// Expressions of quality problems: paywall, login wall, bot protection,
/// and the markers of a page that is only a script shell.
pub open spec fn quality_patterns() -> Seq<Seq<char>> {
    seq![
        "(?i)(paywall|subscribe[-_]?to[-_]?(read|continue|access)|premium[-_]?content|membership[-_]?required)"@,
        "(?i)(login[-_]?(to[-_]?continue|required|wall)|sign[-_]?in[-_]?to[-_]?(view|continue|access)|auth[-_]?gate)"@,
        "(?i)(captcha|recaptcha|hcaptcha|cloudflare[-_]?challenge|bot[-_]?(check|detection|protection)|access[-_]?denied)"@,
        "(?i)(noscript|enable[-_]?javascript|javascript[-_]?required|app[-_]?root|__next|__nuxt|react[-_]?root)"@,
    ]
}

fn quality_pattern_list() -> (r: Vec<&'static str>)
    ensures
        string_slices(r@) == quality_patterns(),
{
    let mut r: Vec<&'static str> = Vec::new();
    r.push(
        "(?i)(paywall|subscribe[-_]?to[-_]?(read|continue|access)|premium[-_]?content|membership[-_]?required)",
    );
    r.push(
        "(?i)(login[-_]?(to[-_]?continue|required|wall)|sign[-_]?in[-_]?to[-_]?(view|continue|access)|auth[-_]?gate)",
    );
    r.push(
        "(?i)(captcha|recaptcha|hcaptcha|cloudflare[-_]?challenge|bot[-_]?(check|detection|protection)|access[-_]?denied)",
    );
    r.push(
        "(?i)(noscript|enable[-_]?javascript|javascript[-_]?required|app[-_]?root|__next|__nuxt|react[-_]?root)",
    );
    assert(string_slices(r@) =~= quality_patterns());
    r
}

/// The facts of the page parsed from `raw`: its tree, and for each selector
/// the elements `scraper` finds, in its order.
pub open spec fn facts_of_page(f: PageFacts, raw: Seq<char>) -> bool {
    &&& f.tree matches Some(t) && flatten(t) == html_events(raw)
    &&& string_views(f.body@) == html_select(raw, "body"@)
    &&& string_views(f.title@) == html_select(raw, "title"@)
    &&& string_views(f.meta@) == html_select(raw, "meta"@)
    &&& string_views(f.canonical@) == html_select(raw, "link[rel=\"canonical\"]"@)
    &&& string_views(f.html@) == html_select(raw, "html"@)
    &&& string_views(f.json_ld@) == html_select(raw, "script[type=\"application/ld+json\"]"@)
    &&& f.noise@.len() == noise_tags().len() + noise_selectors().len()
    &&& forall|i: int|
        0 <= i < f.noise@.len() ==> string_views(#[trigger] f.noise@[i]@) == html_select(
            raw,
            (noise_tags() + noise_selectors())[i],
        )
    &&& labelled_model(f.labelled@) == html_select_attrs(raw, "[class], [id]"@, "class"@, "id"@)
}

/// Parse a page and read from it what preprocessing needs.
pub fn gather_facts(raw_html: &str) -> (r: PageFacts)
    ensures
        facts_of_page(r, raw_html@),
{
    let page = parse_document(raw_html);
    let tree = document_tree(&page);
    let sels = noise_selector_list();
    let mut noise: Vec<Vec<String>> = Vec::new();
    let mut i: usize = 0;
    while i < sels.len()
        invariant
            i <= sels@.len(),
            page.source() == raw_html@,
            string_slices(sels@) == noise_tags() + noise_selectors(),
            noise@.len() == i,
            forall|j: int|
                0 <= j < i ==> string_views(#[trigger] noise@[j]@) == html_select(
                    raw_html@,
                    (noise_tags() + noise_selectors())[j],
                ),
        decreases sels@.len() - i,
    {
        let ids = select_ids(&page, sels[i]);
        assert(sels@[i as int]@ == string_slices(sels@)[i as int]);
        noise.push(ids);
        i = i + 1;
    }
    proof {
        assert(string_slices(sels@).len() == sels@.len());
    }
    PageFacts {
        tree,
        body: select_ids(&page, "body"),
        title: select_ids(&page, "title"),
        meta: select_ids(&page, "meta"),
        canonical: select_ids(&page, "link[rel=\"canonical\"]"),
        html: select_ids(&page, "html"),
        json_ld: select_ids(&page, "script[type=\"application/ld+json\"]"),
        noise,
        labelled: select_with_attrs(&page, "[class], [id]", "class", "id"),
    }
}

/// The subtree of the first of `ids`, when the tree holds it.
pub open spec fn first_subtree(tree: Option<DomTree>, ids: Seq<Seq<char>>) -> Option<DomTree> {
    if ids.len() > 0 {
        match tree {
            Some(t) => find_node(t, ids[0]),
            None => None,
        }
    } else {
        None
    }
}

/// The subtree with this id, when the tree holds it.
pub open spec fn subtree_of(tree: Option<DomTree>, id: Seq<char>) -> Option<DomTree> {
    match tree {
        Some(t) => find_node(t, id),
        None => None,
    }
}

fn lookup<'a>(tree: &'a Option<DomTree>, id: &String) -> (r: Option<&'a DomTree>)
    ensures
        match r {
            Some(n) => subtree_of(*tree, id@) == Some(*n),
            None => subtree_of(*tree, id@) is None,
        },
{
    match tree {
        Some(t) => find_in_tree(t, id),
        None => None,
    }
}

fn first_lookup<'a>(tree: &'a Option<DomTree>, ids: &Vec<String>) -> (r: Option<
    &'a DomTree,
>)
    ensures
        match r {
            Some(n) => first_subtree(*tree, string_views(ids@)) == Some(*n),
            None => first_subtree(*tree, string_views(ids@)) is None,
        },
{
    if ids.len() == 0 {
        return None;
    }
    lookup(tree, &ids[0])
}

// ─── Noise ───

/// `acc` with `id` added unless it is already there.
pub open spec fn add_id(acc: Seq<Seq<char>>, id: Seq<char>) -> Seq<Seq<char>> {
    if acc.contains(id) {
        acc
    } else {
        acc.push(id)
    }
}

/// `acc` with the ids of each list added in turn.
pub open spec fn add_lists(acc: Seq<Seq<char>>, lists: Seq<Seq<Seq<char>>>) -> Seq<Seq<char>>
    decreases lists.len(),
{
    if lists.len() == 0 {
        acc
    } else {
        add_ids(add_lists(acc, lists.drop_last()), lists.last())
    }
}

/// `acc` with each of `ids` added in turn.
pub open spec fn add_ids(acc: Seq<Seq<char>>, ids: Seq<Seq<char>>) -> Seq<Seq<char>>
    decreases ids.len(),
{
    if ids.len() == 0 {
        acc
    } else {
        add_id(add_ids(acc, ids.drop_last()), ids.last())
    }
}

/// The text the noise expressions are matched against: the class, a space,
/// the id.
pub open spec fn class_and_id(class: Option<String>, id: Option<String>) -> Seq<char> {
    (match class {
        Some(c) => c@,
        None => seq![],
    }) + seq![' '] + (match id {
        Some(i) => i@,
        None => seq![],
    })
}

/// Whether some noise expression matches the class and id.
pub open spec fn labelled_noise(text: Seq<char>) -> bool {
    exists|i: int| 0 <= i < noise_patterns().len() && hits(#[trigger] noise_patterns()[i], text)
}

/// `acc` with each labelled element that looks like noise added in turn.
pub open spec fn add_labelled(
    acc: Seq<Seq<char>>,
    items: Seq<(String, Option<String>, Option<String>)>,
) -> Seq<Seq<char>>
    decreases items.len(),
{
    if items.len() == 0 {
        acc
    } else {
        let prev = add_labelled(acc, items.drop_last());
        let (id, class, ident) = items.last();
        if labelled_noise(class_and_id(class, ident)) {
            add_id(prev, id@)
        } else {
            prev
        }
    }
}

/// The lists held by a vector of vectors.
pub open spec fn id_lists(v: Seq<Vec<String>>) -> Seq<Seq<Seq<char>>> {
    Seq::new(v.len(), |i: int| string_views(v[i]@))
}

/// The noise elements of a page, each once: those found by the noise tags
/// and selectors, then the labelled elements whose class and id match a
/// noise expression.
pub open spec fn noise_ids(f: PageFacts) -> Seq<Seq<char>> {
    add_labelled(add_lists(seq![], id_lists(f.noise@)), f.labelled@)
}

fn push_id(acc: &mut Vec<String>, id: &String)
    ensures
        string_views(final(acc)@) == add_id(string_views(old(acc)@), id@),
{
    if !contains_id(acc, id) {
        acc.push(id.clone());
        assert(string_views(acc@) =~= string_views(old(acc)@).push(id@));
    }
}

fn push_ids(acc: &mut Vec<String>, ids: &Vec<String>)
    ensures
        string_views(final(acc)@) == add_ids(string_views(old(acc)@), string_views(ids@)),
{
    let ghost start = string_views(acc@);
    let ghost v = string_views(ids@);
    let mut i: usize = 0;
    while i < ids.len()
        invariant
            i <= ids@.len(),
            v == string_views(ids@),
            string_views(acc@) == add_ids(start, v.take(i as int)),
        decreases ids@.len() - i,
    {
        proof {
            assert(v.take(i + 1).drop_last() =~= v.take(i as int));
            assert(v.take(i + 1).last() == ids@[i as int]@);
        }
        push_id(acc, &ids[i]);
        i = i + 1;
    }
    assert(v.take(v.len() as int) =~= v);
}

fn class_and_id_text(class: &Option<String>, id: &Option<String>) -> (r: String)
    ensures
        r@ == class_and_id(*class, *id),
{
    let mut v: Vec<char> = Vec::new();
    match class {
        Some(c) => push_str_chars(&mut v, c.as_str()),
        None => {},
    }
    v.push(' ');
    match id {
        Some(i) => push_str_chars(&mut v, i.as_str()),
        None => {},
    }
    assert(v@ =~= class_and_id(*class, *id));
    chars_to_string(v.as_slice())
}

/// Whether a labelled element is noise: the first matching expression
/// decides, and no later one is tried.
fn is_labelled_noise(patterns: &Vec<Option<Pattern>>, text: &str) -> (r: bool)
    requires
        patterns@.len() == noise_patterns().len(),
        forall|i: int|
            0 <= i < patterns@.len() ==> (#[trigger] patterns@[i] matches Some(p) ==> p.source()
                == noise_patterns()[i]),
        forall|i: int|
            0 <= i < patterns@.len() ==> (#[trigger] patterns@[i] is Some
                == crate::pattern::regex_valid(noise_patterns()[i])),
    ensures
        r == labelled_noise(text@),
{
    let mut i: usize = 0;
    while i < patterns.len()
        invariant
            i <= patterns@.len() == noise_patterns().len(),
            forall|j: int| 0 <= j < i ==> !hits(#[trigger] noise_patterns()[j], text@),
            forall|i: int|
                0 <= i < patterns@.len() ==> (#[trigger] patterns@[i] matches Some(p)
                    ==> p.source() == noise_patterns()[i]),
            forall|i: int|
                0 <= i < patterns@.len() ==> (#[trigger] patterns@[i] is Some
                    == crate::pattern::regex_valid(noise_patterns()[i])),
        decreases patterns@.len() - i,
    {
        if matches_text(patterns, i, text) {
            assert(hits(noise_patterns()[i as int], text@));
            return true;
        }
        assert(!hits(noise_patterns()[i as int], text@));
        i = i + 1;
    }
    false
}

/// The noise elements of a page, each once.
pub fn collect_noise(f: &PageFacts) -> (r: Vec<String>)
    ensures
        string_views(r@) == noise_ids(*f),
{
    let mut acc: Vec<String> = Vec::new();
    let mut i: usize = 0;
    while i < f.noise.len()
        invariant
            i <= f.noise@.len(),
            string_views(acc@) == add_lists(seq![], id_lists(f.noise@).take(i as int)),
        decreases f.noise@.len() - i,
    {
        proof {
            assert(id_lists(f.noise@).take(i + 1).drop_last() =~= id_lists(f.noise@).take(
                i as int,
            ));
            assert(id_lists(f.noise@).take(i + 1).last() == string_views(f.noise@[i as int]@));
        }
        push_ids(&mut acc, &f.noise[i]);
        i = i + 1;
    }
    assert(id_lists(f.noise@).take(f.noise@.len() as int) =~= id_lists(f.noise@));
    let sources = noise_pattern_list();
    let patterns = compile_all(&sources);
    let ghost base = string_views(acc@);
    let mut k: usize = 0;
    while k < f.labelled.len()
        invariant
            k <= f.labelled@.len(),
            base == add_lists(seq![], id_lists(f.noise@)),
            string_views(acc@) == add_labelled(base, f.labelled@.take(k as int)),
            patterns@.len() == noise_patterns().len(),
            forall|i: int|
                0 <= i < patterns@.len() ==> (#[trigger] patterns@[i] matches Some(p)
                    ==> p.source() == noise_patterns()[i]),
            forall|i: int|
                0 <= i < patterns@.len() ==> (#[trigger] patterns@[i] is Some
                    == crate::pattern::regex_valid(noise_patterns()[i])),
        decreases f.labelled@.len() - k,
    {
        proof {
            assert(f.labelled@.take(k + 1).drop_last() =~= f.labelled@.take(k as int));
            assert(f.labelled@.take(k + 1).last() == f.labelled@[k as int]);
        }
        let (id, class, ident) = &f.labelled[k];
        let text = class_and_id_text(class, ident);
        if is_labelled_noise(&patterns, text.as_str()) {
            push_id(&mut acc, id);
        }
        k = k + 1;
    }
    assert(f.labelled@.take(f.labelled@.len() as int) =~= f.labelled@);
    acc
}

/// The byte length of a string (`str::len`): its UTF-8 length.
pub fn str_bytes(s: &str) -> (r: usize)
    ensures
        r == byte_len(s@) as usize,
{
    proof {
        lemma_byte_len_is_utf8_len(s@);
    }
    s.len()
}

/// The cleaned text: runs of three or more newlines become two, runs of
/// blanks become one space, and the ends are trimmed.
pub open spec fn normalize_text(t: Seq<char>) -> Seq<char> {
    trim(collapse_runs(collapse_runs(t, false), true))
}

/// The cleaned text of any page is trimmed and holds no two blank lines in a
/// row (no three newlines in a row).
pub proof fn law_cleaned_text_shape(f: PageFacts)
    ensures
        trim(strip_noise_spec(f).0) == strip_noise_spec(f).0,
        no_triple_newline(strip_noise_spec(f).0),
{
    let skip = noise_ids(f);
    match first_subtree(f.tree, string_views(f.body@)) {
        Some(b) => lemma_collapsed_trimmed_shape(text_walk_all(b.children@, skip, seq![])),
        None => lemma_collapsed_trimmed_shape(seq![]),
    }
}

/// What stripping the noise gives: the cleaned text, the cleaned HTML, and
/// the number of noise elements.
pub open spec fn strip_noise_spec(f: PageFacts) -> (Seq<char>, Seq<char>, nat) {
    let skip = noise_ids(f);
    match first_subtree(f.tree, string_views(f.body@)) {
        Some(b) => (
            normalize_text(text_walk_all(b.children@, skip, seq![])),
            html_walk_all(b.children@, skip),
            skip.len(),
        ),
        None => (normalize_text(seq![]), seq![], skip.len()),
    }
}

/// Strip the noise from a page: its text and HTML without the noise
/// elements, and how many there were.
pub fn strip_noise(f: &PageFacts) -> (r: (String, String, usize))
    ensures
        r.0@ == strip_noise_spec(*f).0,
        r.1@ == strip_noise_spec(*f).1,
        r.2 == strip_noise_spec(*f).2,
{
    let skip = collect_noise(f);
    let removed = skip.len();
    let body = first_lookup(&f.tree, &f.body);
    let text = extract_text_excluding(body, &skip);
    let html = rebuild_html_excluding(body, &skip);
    let c = str_to_chars(text.as_str());
    let a = collapse_runs_chars(c.as_slice(), false);
    let b = collapse_runs_chars(a.as_slice(), true);
    let t = trim_chars(b.as_slice());
    (chars_to_string(t.as_slice()), html, removed)
}

// ─── Metadata ───

/// Metadata as values.
pub struct MetaModel {
    pub title: Option<Seq<char>>,
    pub description: Option<Seq<char>>,
    pub og_title: Option<Seq<char>>,
    pub og_description: Option<Seq<char>>,
    pub og_image: Option<Seq<char>>,
    pub og_type: Option<Seq<char>>,
    pub og_url: Option<Seq<char>>,
    pub canonical_url: Option<Seq<char>>,
    pub charset: Option<Seq<char>>,
    pub language: Option<Seq<char>>,
    pub author: Option<Seq<char>>,
    pub published_date: Option<Seq<char>>,
    pub json_ld: Seq<Seq<char>>,
}

pub open spec fn opt_chars(o: Option<String>) -> Option<Seq<char>> {
    match o {
        Some(s) => Some(s@),
        None => None,
    }
}

pub open spec fn meta_model(m: HtmlMetadata) -> MetaModel {
    MetaModel {
        title: opt_chars(m.title),
        description: opt_chars(m.description),
        og_title: opt_chars(m.og_title),
        og_description: opt_chars(m.og_description),
        og_image: opt_chars(m.og_image),
        og_type: opt_chars(m.og_type),
        og_url: opt_chars(m.og_url),
        canonical_url: opt_chars(m.canonical_url),
        charset: opt_chars(m.charset),
        language: opt_chars(m.language),
        author: opt_chars(m.author),
        published_date: opt_chars(m.published_date),
        json_ld: string_views(m.json_ld@),
    }
}

pub open spec fn or_empty(o: Option<Seq<char>>) -> Seq<char> {
    match o {
        Some(s) => s,
        None => seq![],
    }
}

/// What one `meta` element sets: `charset` from its `charset` attribute;
/// otherwise, when it has content, the field its `name` (or `property`)
/// names, compared in lower case.
pub open spec fn meta_step(m: MetaModel, node: Option<DomTree>) -> MetaModel {
    match node {
        None => m,
        Some(t) => match attr_of(t.node, "charset"@) {
            Some(cs) => MetaModel { charset: Some(cs), ..m },
            None => {
                let content = or_empty(attr_of(t.node, "content"@));
                if content.len() == 0 {
                    m
                } else {
                    let name = lowercase(
                        match attr_of(t.node, "name"@) {
                            Some(v) => v,
                            None => or_empty(attr_of(t.node, "property"@)),
                        },
                    );
                    if name == "description"@ {
                        MetaModel { description: Some(content), ..m }
                    } else if name == "author"@ {
                        MetaModel { author: Some(content), ..m }
                    } else if name == "og:title"@ {
                        MetaModel { og_title: Some(content), ..m }
                    } else if name == "og:description"@ {
                        MetaModel { og_description: Some(content), ..m }
                    } else if name == "og:image"@ {
                        MetaModel { og_image: Some(content), ..m }
                    } else if name == "og:type"@ {
                        MetaModel { og_type: Some(content), ..m }
                    } else if name == "og:url"@ {
                        MetaModel { og_url: Some(content), ..m }
                    } else if name == "article:published_time"@ || name == "date"@ || name
                        == "publisheddate"@ {
                        MetaModel { published_date: Some(content), ..m }
                    } else {
                        m
                    }
                }
            },
        },
    }
}

/// The metadata after the `meta` elements, in order.
pub open spec fn metas_fold(m: MetaModel, tree: Option<DomTree>, ids: Seq<Seq<char>>) -> MetaModel
    decreases ids.len(),
{
    if ids.len() == 0 {
        m
    } else {
        meta_step(metas_fold(m, tree, ids.drop_last()), subtree_of(tree, ids.last()))
    }
}

proof fn lemma_metas_fold_json_ld(m: MetaModel, tree: Option<DomTree>, ids: Seq<Seq<char>>)
    ensures
        metas_fold(m, tree, ids).json_ld == m.json_ld,
    decreases ids.len(),
{
    if ids.len() > 0 {
        lemma_metas_fold_json_ld(m, tree, ids.drop_last());
    }
}

/// The trimmed texts of the JSON-LD blocks that parse as JSON, in order.
pub open spec fn json_ld_texts(tree: Option<DomTree>, ids: Seq<Seq<char>>) -> Seq<Seq<char>>
    decreases ids.len(),
{
    if ids.len() == 0 {
        seq![]
    } else {
        let prev = json_ld_texts(tree, ids.drop_last());
        match subtree_of(tree, ids.last()) {
            Some(t) => if json_parse_error(trim(text_of(t))) is None {
                prev.push(trim(text_of(t)))
            } else {
                prev
            },
            None => prev,
        }
    }
}

/// The byte offset in the page's head (its first 2048 bytes) where a
/// `charset=` value starts, found in the lower-cased head; -1 when there is
/// none.
pub open spec fn charset_offset(raw: Seq<char>) -> int {
    let lower = lowercase(byte_prefix(raw, 2048));
    let m = find_seq(lower, "charset="@);
    if m < 0 {
        -1
    } else {
        (byte_len(lower.take(m)) + 8) as int
    }
}

/// Whether some prefix of `s` has exactly `b` bytes (`b` is a character
/// boundary of `s`).
pub open spec fn boundary_at(s: Seq<char>, b: int) -> bool {
    exists|k: int| 0 <= k <= s.len() && byte_len(s.take(k)) == b
}

/// Whether the head can be sliced where the `charset=` value starts (the
/// offset is found in the lower-cased head and used on the head itself).
pub open spec fn charset_slice_ok(raw: Seq<char>) -> bool {
    charset_offset(raw) < 0 || boundary_at(byte_prefix(raw, 2048), charset_offset(raw))
}

pub open spec fn charset_char(c: char) -> bool {
    alphanumeric(c) || c == '-' || c == '_'
}

/// The leading characters of `s` that can be part of a charset name.
pub open spec fn charset_prefix(s: Seq<char>) -> Seq<char>
    decreases s.len(),
{
    if s.len() > 0 && charset_char(s[0]) {
        seq![s[0]] + charset_prefix(s.drop_first())
    } else {
        seq![]
    }
}

/// The charset named in the page's head after `charset=`, if any.
pub open spec fn charset_fallback(raw: Seq<char>) -> Option<Seq<char>> {
    let head = byte_prefix(raw, 2048);
    let b = charset_offset(raw);
    if b < 0 {
        None
    } else {
        let k = choose|k: int| 0 <= k <= head.len() && byte_len(head.take(k)) == b;
        let v = charset_prefix(head.skip(k));
        if v.len() > 0 {
            Some(v)
        } else {
            None
        }
    }
}

pub open spec fn empty_meta() -> MetaModel {
    MetaModel {
        title: None,
        description: None,
        og_title: None,
        og_description: None,
        og_image: None,
        og_type: None,
        og_url: None,
        canonical_url: None,
        charset: None,
        language: None,
        author: None,
        published_date: None,
        json_ld: seq![],
    }
}

/// The title: the trimmed text of the first `title` element, if not empty.
pub open spec fn title_of(f: PageFacts) -> Option<Seq<char>> {
    match first_subtree(f.tree, string_views(f.title@)) {
        Some(t) => if trim(text_of(t)).len() > 0 {
            Some(trim(text_of(t)))
        } else {
            None
        },
        None => None,
    }
}

/// The metadata set by the head's elements, before the charset fallback.
pub open spec fn head_metadata(f: PageFacts) -> MetaModel {
    let m1 = metas_fold(MetaModel { title: title_of(f), ..empty_meta() }, f.tree, string_views(f.meta@));
    MetaModel {
        canonical_url: match first_subtree(f.tree, string_views(f.canonical@)) {
            Some(t) => attr_of(t.node, "href"@),
            None => None,
        },
        language: match first_subtree(f.tree, string_views(f.html@)) {
            Some(t) => attr_of(t.node, "lang"@),
            None => None,
        },
        json_ld: json_ld_texts(f.tree, string_views(f.json_ld@)),
        ..m1
    }
}

/// Whether reading the metadata succeeds: the charset comes from a `meta`
/// element, or the head can be sliced where its `charset=` value starts.
pub open spec fn metadata_defined(raw: Seq<char>, f: PageFacts) -> bool {
    head_metadata(f).charset is Some || charset_slice_ok(raw)
}

/// The page's metadata: the head's elements, then the charset named in the
/// first 2048 bytes when no `meta` element gave one.
pub open spec fn metadata_spec(raw: Seq<char>, f: PageFacts) -> MetaModel {
    let m = head_metadata(f);
    if m.charset is None {
        MetaModel { charset: charset_fallback(raw), ..m }
    } else {
        m
    }
}

/// ASCII case-insensitive equality (`str::eq_ignore_ascii_case`).
pub open spec fn ascii_lower(c: char) -> int {
    if 0x41 <= (c as u32) <= 0x5a {
        (c as u32) + 32
    } else {
        c as u32 as int
    }
}

pub open spec fn eq_ignore_ascii_case(a: Seq<char>, b: Seq<char>) -> bool {
    a.len() == b.len() && forall|i: int| 0 <= i < a.len() ==> ascii_lower(#[trigger] a[i]) == ascii_lower(b[i])
}

fn ascii_lower_char(c: char) -> (r: u32)
    ensures
        r == ascii_lower(c),
{
    let u = c as u32;
    if 0x41 <= u && u <= 0x5a {
        u + 32
    } else {
        u
    }
}

fn eq_ignore_case(a: &str, b: &str) -> (r: bool)
    ensures
        r == eq_ignore_ascii_case(a@, b@),
{
    let x = str_to_chars(a);
    let y = str_to_chars(b);
    if x.len() != y.len() {
        return false;
    }
    let mut i: usize = 0;
    while i < x.len()
        invariant
            i <= x@.len() == y@.len(),
            x@ == a@,
            y@ == b@,
            forall|j: int| 0 <= j < i ==> ascii_lower(#[trigger] x@[j]) == ascii_lower(y@[j]),
        decreases x@.len() - i,
    {
        if ascii_lower_char(x[i]) != ascii_lower_char(y[i]) {
            return false;
        }
        i = i + 1;
    }
    true
}

fn set_field(m: &mut HtmlMetadata, name: &str, content: &str)
    ensures
        ({
            let n = name@;
            let c = Some(content@);
            let old_m = meta_model(*old(m));
            meta_model(*final(m)) == if n == "description"@ {
                MetaModel { description: c, ..old_m }
            } else if n == "author"@ {
                MetaModel { author: c, ..old_m }
            } else if n == "og:title"@ {
                MetaModel { og_title: c, ..old_m }
            } else if n == "og:description"@ {
                MetaModel { og_description: c, ..old_m }
            } else if n == "og:image"@ {
                MetaModel { og_image: c, ..old_m }
            } else if n == "og:type"@ {
                MetaModel { og_type: c, ..old_m }
            } else if n == "og:url"@ {
                MetaModel { og_url: c, ..old_m }
            } else if n == "article:published_time"@ || n == "date"@ || n == "publisheddate"@ {
                MetaModel { published_date: c, ..old_m }
            } else {
                old_m
            }
        }),
{
    if str_eq(name, "description") {
        m.description = Some(copy_string(content));
    } else if str_eq(name, "author") {
        m.author = Some(copy_string(content));
    } else if str_eq(name, "og:title") {
        m.og_title = Some(copy_string(content));
    } else if str_eq(name, "og:description") {
        m.og_description = Some(copy_string(content));
    } else if str_eq(name, "og:image") {
        m.og_image = Some(copy_string(content));
    } else if str_eq(name, "og:type") {
        m.og_type = Some(copy_string(content));
    } else if str_eq(name, "og:url") {
        m.og_url = Some(copy_string(content));
    } else if str_eq(name, "article:published_time") || str_eq(name, "date") || str_eq(
        name,
        "publisheddate",
    ) {
        m.published_date = Some(copy_string(content));
    }
}

fn apply_meta(m: &mut HtmlMetadata, node: Option<&DomTree>)
    ensures
        meta_model(*final(m)) == meta_step(
            meta_model(*old(m)),
            match node {
                Some(t) => Some(*t),
                None => None,
            },
        ),
{
    let t = match node {
        Some(t) => t,
        None => {
            return;
        },
    };
    let name = match get_attr(&t.node, "name") {
        Some(v) => v,
        None => match get_attr(&t.node, "property") {
            Some(v) => v,
            None => String::new(),
        },
    };
    let content = match get_attr(&t.node, "content") {
        Some(v) => v,
        None => String::new(),
    };
    if let Some(cs) = get_attr(&t.node, "charset") {
        m.charset = Some(cs);
        return;
    }
    if content.as_str().is_empty() {
        // A `http-equiv` content type would name its charset in the
        // content attribute, which is empty here.
        if let Some(he) = get_attr(&t.node, "http-equiv") {
            if eq_ignore_case(he.as_str(), "content-type") {
                if let Some(ct) = get_attr(&t.node, "content") {
                    let lower = to_lowercase(ct.as_str());
                    let lc = str_to_chars(lower.as_str());
                    let pat = str_to_chars("charset=");
                    proof {
                        reveal_strlit("charset=");
                        assert(lc@.len() == 0);
                    }
                    match find_chars(lc.as_slice(), pat.as_slice()) {
                        Some(k) => {
                            assert(false);
                        },
                        None => {},
                    }
                }
            }
        }
        return;
    }
    let lname = to_lowercase(name.as_str());
    set_field(m, lname.as_str(), content.as_str());
}

fn empty_metadata() -> (r: HtmlMetadata)
    ensures
        meta_model(r) == empty_meta(),
{
    let r = HtmlMetadata {
        title: None,
        description: None,
        og_title: None,
        og_description: None,
        og_image: None,
        og_type: None,
        og_url: None,
        canonical_url: None,
        charset: None,
        language: None,
        author: None,
        published_date: None,
        json_ld: Vec::new(),
    };
    assert(string_views(r.json_ld@) =~= Seq::<Seq<char>>::empty());
    r
}

/// The trimmed text of a tree.
fn trimmed_text(t: &DomTree) -> (r: Vec<char>)
    ensures
        r@ == trim(text_of(*t)),
{
    let mut v: Vec<char> = Vec::new();
    push_text_of(t, &mut v);
    assert(v@ =~= text_of(*t));
    trim_chars(v.as_slice())
}

/// The metadata set by the head's elements.
fn read_head(f: &PageFacts) -> (r: HtmlMetadata)
    ensures
        meta_model(r) == head_metadata(*f),
{
    let mut m = empty_metadata();
    match first_lookup(&f.tree, &f.title) {
        Some(t) => {
            let text = trimmed_text(t);
            if text.len() > 0 {
                m.title = Some(chars_to_string(text.as_slice()));
            }
        },
        None => {},
    }
    let ghost m0 = meta_model(m);
    let mut i: usize = 0;
    while i < f.meta.len()
        invariant
            i <= f.meta@.len(),
            meta_model(m) == metas_fold(m0, f.tree, string_views(f.meta@).take(i as int)),
        decreases f.meta@.len() - i,
    {
        proof {
            assert(string_views(f.meta@).take(i + 1).drop_last() =~= string_views(f.meta@).take(
                i as int,
            ));
            assert(string_views(f.meta@).take(i + 1).last() == f.meta@[i as int]@);
        }
        let node = lookup(&f.tree, &f.meta[i]);
        apply_meta(&mut m, node);
        i = i + 1;
    }
    assert(string_views(f.meta@).take(f.meta@.len() as int) =~= string_views(f.meta@));
    m.canonical_url = match first_lookup(&f.tree, &f.canonical) {
        Some(t) => get_attr(&t.node, "href"),
        None => None,
    };
    m.language = match first_lookup(&f.tree, &f.html) {
        Some(t) => get_attr(&t.node, "lang"),
        None => None,
    };
    proof {
        lemma_metas_fold_json_ld(m0, f.tree, string_views(f.meta@));
    }
    let ghost mid = meta_model(m);
    let ghost ids = string_views(f.json_ld@);
    let mut j: usize = 0;
    m.json_ld = Vec::new();
    assert(string_views(m.json_ld@) =~= json_ld_texts(f.tree, ids.take(0)));
    while j < f.json_ld.len()
        invariant
            j <= f.json_ld@.len(),
            ids == string_views(f.json_ld@),
            string_views(m.json_ld@) == json_ld_texts(f.tree, ids.take(j as int)),
            meta_model(m) == (MetaModel { json_ld: string_views(m.json_ld@), ..mid }),
        decreases f.json_ld@.len() - j,
    {
        proof {
            assert(ids.take(j + 1).drop_last() =~= ids.take(j as int));
            assert(ids.take(j + 1).last() == f.json_ld@[j as int]@);
        }
        let ghost before = m.json_ld@;
        match lookup(&f.tree, &f.json_ld[j]) {
            Some(t) => {
                let text = trimmed_text(t);
                let s = chars_to_string(text.as_slice());
                if json_error(s.as_str()).is_none() {
                    m.json_ld.push(s);
                    assert(string_views(m.json_ld@) =~= string_views(before).push(text@));
                }
            },
            None => {},
        }
        j = j + 1;
    }
    assert(ids.take(f.json_ld@.len() as int) =~= ids);
    m
}

/// A larger prefix has more bytes.
proof fn lemma_byte_len_take_strict(s: Seq<char>, i: int, j: int)
    requires
        0 <= i < j <= s.len(),
    ensures
        byte_len(s.take(i)) < byte_len(s.take(j)),
    decreases j - i,
{
    assert(s.take(j) =~= s.take(j - 1).push(s[j - 1]));
    crate::text::lemma_byte_len_push(s.take(j - 1), s[j - 1]);
    if i < j - 1 {
        lemma_byte_len_take_strict(s, i, j - 1);
    }
}

/// The charset named after `charset=` in the head; `None` when the head
/// cannot be sliced there.
fn charset_from_head(raw: &str) -> (r: Option<Option<String>>)
    ensures
        r is Some == charset_slice_ok(raw@),
        r matches Some(v) ==> opt_chars(v) == charset_fallback(raw@),
{
    let rc = str_to_chars(raw);
    let head = byte_prefix_chars(rc.as_slice(), 2048);
    let head_s = chars_to_string(head.as_slice());
    let lower = to_lowercase(head_s.as_str());
    let lc = str_to_chars(lower.as_str());
    let pat = str_to_chars("charset=");
    let ghost h = head@;
    let m = match find_chars(lc.as_slice(), pat.as_slice()) {
        None => {
            return Some(None);
        },
        Some(m) => m,
    };
    proof {
        reveal_strlit("charset=");
    }
    let before = copy_range(lc.as_slice(), 0, m);
    assert(before@ =~= lc@.take(m as int));
    let pos = match crate::text::byte_length_below(before.as_slice(), 2048) {
        Some(p) => p,
        None => {
            proof {
                assert(byte_len(h) <= 2048);
                assert forall|k: int| 0 <= k <= h.len() implies byte_len(h.take(k))
                    != charset_offset(raw@) by {
                    crate::text::lemma_byte_len_take_monotone(h, k, h.len() as int);
                    assert(h.take(h.len() as int) =~= h);
                }
            }
            return None;
        },
    };
    let target = pos + 8;
    let mut k: usize = 0;
    let mut used: usize = 0;
    assert(h.take(0) =~= seq![]);
    while k < head.len() && used < target
        invariant
            k <= head@.len(),
            h == head@,
            used == byte_len(h.take(k as int)),
            used <= target + 4,
            target < 2048 + 8,
            forall|j: int| 0 <= j < k ==> byte_len(#[trigger] h.take(j)) < target,
        decreases head@.len() - k,
    {
        proof {
            assert(h.take(k + 1) =~= h.take(k as int).push(h[k as int]));
            crate::text::lemma_byte_len_push(h.take(k as int), h[k as int]);
        }
        used = used + utf8_len(head[k]);
        k = k + 1;
    }
    if used != target {
        proof {
            assert forall|j: int| 0 <= j <= h.len() implies byte_len(h.take(j)) != target by {
                if j < k {
                } else if j > k {
                    lemma_byte_len_take_strict(h, k as int, j);
                    if k < h.len() {
                    } else {
                        assert(false);
                    }
                }
            }
        }
        return None;
    }
    proof {
        assert forall|j: int| 0 <= j <= h.len() && byte_len(h.take(j)) == target implies j
            == k by {
            if j < k {
                lemma_byte_len_take_strict(h, j, k as int);
            } else if j > k {
                lemma_byte_len_take_strict(h, k as int, j);
            }
        }
    }
    let mut e: usize = k;
    while e < head.len() && (is_alphanumeric(head[e]) || head[e] == '-' || head[e] == '_')
        invariant
            k <= e <= head@.len(),
            h == head@,
            charset_prefix(h.skip(k as int)) == h.subrange(k as int, e as int) + charset_prefix(
                h.skip(e as int),
            ),
        decreases head@.len() - e,
    {
        assert(h.skip(e as int).drop_first() =~= h.skip(e + 1));
        assert(h.subrange(k as int, e + 1) =~= h.subrange(k as int, e as int) + seq![h[e as int]]);
        e = e + 1;
    }
    proof {
        if e < head@.len() {
            assert(h.skip(e as int)[0] == h[e as int]);
        }
        assert(charset_prefix(h.skip(e as int)) =~= seq![]);
    }
    if e == k {
        assert(h.subrange(k as int, e as int) =~= seq![]);
        return Some(None);
    }
    let v = copy_range(head.as_slice(), k, e);
    Some(Some(chars_to_string(v.as_slice())))
}

/// Whether the metadata of a page can be read (see `metadata_defined`).
pub fn metadata_available(raw_html: &str, f: &PageFacts) -> (r: bool)
    ensures
        r == metadata_defined(raw_html@, *f),
{
    let m = read_head(f);
    m.charset.is_some() || charset_from_head(raw_html).is_some()
}

/// Extract metadata from the page: title, `meta` tags, canonical URL,
/// language, JSON-LD blocks, and the charset.
pub fn extract_metadata(raw_html: &str, f: &PageFacts) -> (r: HtmlMetadata)
    requires
        metadata_defined(raw_html@, *f),
    ensures
        meta_model(r) == metadata_spec(raw_html@, *f),
{
    let mut m = read_head(f);
    if m.charset.is_none() {
        match charset_from_head(raw_html) {
            Some(v) => {
                m.charset = v;
            },
            None => {
                assert(false);
            },
        }
    }
    m
}

// ─── Quality signals ───

/// The warnings for the problems found, in order.
pub open spec fn quality_issues(paywall: bool, login: bool, bot: bool, spa: bool) -> Seq<Seq<char>> {
    (if paywall {
        seq!["Paywall detected"@]
    } else {
        seq![]
    }) + (if login {
        seq!["Login wall detected"@]
    } else {
        seq![]
    }) + (if bot {
        seq!["Bot protection detected"@]
    } else {
        seq![]
    }) + (if spa {
        seq!["SPA shell detected (minimal content)"@]
    } else {
        seq![]
    })
}

/// Bytes of the body's trimmed text (0 without a body).
pub open spec fn body_text_len(f: PageFacts) -> usize {
    match first_subtree(f.tree, string_views(f.body@)) {
        Some(b) => byte_len(trim(text_of(b))) as usize,
        None => 0,
    }
}

/// The quality signals of a page: the problem expressions are matched in
/// its first 50 000 bytes; a script shell also needs a body with under 200
/// bytes of text; content means over 100 bytes of body text.
pub open spec fn signals_ok(s: QualitySignals, raw: Seq<char>, f: PageFacts) -> bool {
    let check = byte_prefix(raw, 50_000);
    let q = quality_patterns();
    let has_body = first_subtree(f.tree, string_views(f.body@)) is Some;
    let spa = hits(q[3], check) && has_body && body_text_len(f) < 200;
    &&& s.has_paywall == hits(q[0], check)
    &&& s.has_login_wall == hits(q[1], check)
    &&& s.has_bot_block == hits(q[2], check)
    &&& s.is_spa_shell == spa
    &&& s.body_text_len == body_text_len(f)
    &&& s.total_len == byte_len(raw) as usize
    &&& s.has_content == (has_body && body_text_len(f) > 100)
    &&& string_views(s.issues@) == quality_issues(
        hits(q[0], check),
        hits(q[1], check),
        hits(q[2], check),
        spa,
    )
}

fn push_issue(issues: &mut Vec<String>, text: &str)
    ensures
        string_views(final(issues)@) == string_views(old(issues)@).push(text@),
{
    let ghost before = string_views(issues@);
    issues.push(copy_string(text));
    assert(string_views(issues@) =~= before.push(text@));
}

/// Detect quality signals: paywall, login wall, bot block, script shell.
pub fn detect_quality_signals(raw_html: &str, f: &PageFacts) -> (r: QualitySignals)
    ensures
        signals_ok(r, raw_html@, *f),
{
    let check = safe_prefix(raw_html, 50_000);
    let sources = quality_pattern_list();
    let patterns = compile_all(&sources);
    let ghost q = quality_patterns();
    let ghost c = check@;
    assert(string_slices(sources@).len() == sources@.len());
    assert(quality_patterns().len() == 4);
    assert(string_slices(sources@)[0] == sources@[0]@);
    assert(string_slices(sources@)[1] == sources@[1]@);
    assert(string_slices(sources@)[2] == sources@[2]@);
    assert(string_slices(sources@)[3] == sources@[3]@);
    let paywall = matches_text(&patterns, 0, check.as_str());
    let login = matches_text(&patterns, 1, check.as_str());
    let bot = matches_text(&patterns, 2, check.as_str());
    let shell_marker = matches_text(&patterns, 3, check.as_str());
    let body = first_lookup(&f.tree, &f.body);
    let text_len: usize = match body {
        Some(b) => {
            let t = trimmed_text(b);
            str_bytes(chars_to_string(t.as_slice()).as_str())
        },
        None => 0,
    };
    let has_body = body.is_some();
    let spa = shell_marker && has_body && text_len < 200;
    let mut issues: Vec<String> = Vec::new();
    let ghost i0 = string_views(issues@);
    assert(i0 =~= Seq::<Seq<char>>::empty());
    if paywall {
        push_issue(&mut issues, "Paywall detected");
    }
    if login {
        push_issue(&mut issues, "Login wall detected");
    }
    if bot {
        push_issue(&mut issues, "Bot protection detected");
    }
    if spa {
        push_issue(&mut issues, "SPA shell detected (minimal content)");
    }
    assert(string_views(issues@) =~= quality_issues(paywall, login, bot, spa));
    QualitySignals {
        has_paywall: paywall,
        has_login_wall: login,
        has_bot_block: bot,
        is_spa_shell: spa,
        body_text_len: text_len,
        total_len: str_bytes(raw_html),
        has_content: has_body && text_len > 100,
        issues,
    }
}

// ─── The whole preprocessing ───

/// Whether `r` is the preprocessing of the page `raw` read as `f`.
pub open spec fn preprocess_ok(r: PreprocessResult, raw: Seq<char>, f: PageFacts) -> bool {
    let (cleaned, html, removed) = strip_noise_spec(f);
    &&& r.cleaned@ == cleaned
    &&& r.cleaned_html@ == html
    &&& meta_model(r.metadata) == metadata_spec(raw, f)
    &&& signals_ok(r.signals, raw, f)
    &&& r.stats.original_len == byte_len(raw) as usize
    &&& r.stats.cleaned_len == byte_len(cleaned) as usize
    &&& r.stats.elements_removed == removed
}

/// Preprocess a page already read: `None` exactly when its metadata cannot
/// be read (see `metadata_defined`).
pub fn preprocess_page(raw_html: &str, f: &PageFacts) -> (r: Option<PreprocessResult>)
    ensures
        r is Some == metadata_defined(raw_html@, *f),
        r matches Some(x) ==> preprocess_ok(x, raw_html@, *f),
{
    if !metadata_available(raw_html, f) {
        return None;
    }
    let metadata = extract_metadata(raw_html, f);
    let signals = detect_quality_signals(raw_html, f);
    let (cleaned, cleaned_html, removed) = strip_noise(f);
    let cleaned_len = str_bytes(cleaned.as_str());
    Some(
        PreprocessResult {
            cleaned,
            cleaned_html,
            metadata,
            signals,
            stats: ProcessingStats {
                original_len: str_bytes(raw_html),
                cleaned_len,
                elements_removed: removed,
            },
        },
    )
}

/// Preprocess raw HTML: strip noise, extract metadata, detect quality
/// signals. `None` where the page's head cannot be sliced at its
/// `charset=` value.
pub fn preprocess_html(raw_html: &str) -> (r: Option<PreprocessResult>)
    ensures
        match r {
            Some(x) => exists|f: PageFacts|
                facts_of_page(f, raw_html@) && preprocess_ok(x, raw_html@, f),
            None => exists|f: PageFacts|
                facts_of_page(f, raw_html@) && !metadata_defined(raw_html@, f),
        },
{
    let f = gather_facts(raw_html);
    let r = preprocess_page(raw_html, &f);
    proof {
        if r is Some {
            assert(preprocess_ok(r->0, raw_html@, f));
        } else {
            assert(!metadata_defined(raw_html@, f));
        }
    }
    r
}

} // verus!
