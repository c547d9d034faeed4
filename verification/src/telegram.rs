//! Telegram-compatible table formatting.
//!
//! Telegram does not render markdown tables (`| col | col |`). This module
//! finds markdown tables in a text and turns each into a monospace-aligned
//! `<pre>` block; every other line is copied as it is.
use vstd::prelude::*;
use crate::text::{
    chars_to_string, concat_lines, contains_char, lemma_concat_lines_from, lemma_lines_from_contains,
    lemma_trim_contains, copy_range, join, join_chars, lines, push_all, repeat_char,
    repeat_chars, split, split_lines, split_on, str_to_chars, trim, trim_by, trim_chars, trim_matches, views,
};
use unicode_width::UnicodeWidthStr;

verus! {

// ─── Display width ───

/// The display width in columns that `unicode_width` gives a string.
pub uninterp spec fn unicode_str_width(s: Seq<char>) -> usize;

/// `UnicodeWidthStr::width` of unicode-width: the columns the string occupies
/// in a terminal. Claimed: the result is `unicode_str_width` of the characters;
/// nothing more is said of that width.
#[verifier::external_body]
fn unicode_width_of(s: &str) -> (r: usize)
    ensures
        r == unicode_str_width(s@),
{
    UnicodeWidthStr::width(s)
}

/// Display width of a cell: the unicode width, or two columns per character
/// when that width is zero for a non-empty cell (emoji the width table misses).
pub open spec fn display_width_spec(s: Seq<char>) -> nat {
    let base = unicode_str_width(s);
    if base > 0 {
        base as nat
    } else if s.len() > 0 {
        2 * s.len()
    } else {
        0
    }
}

/// Display width of a cell (see `display_width_spec`).
pub fn display_width(s: &[char]) -> (r: usize)
    requires
        s@.len() <= usize::MAX / 2,
    ensures
        r == display_width_spec(s@),
{
    let text = chars_to_string(s);
    let base = unicode_width_of(text.as_str());
    if base > 0 {
        return base;
    }
    if s.len() > 0 {
        s.len() * 2
    } else {
        0
    }
}

// ─── Row classification ───

/// A line belongs to a table when it holds a `|`.
pub open spec fn is_table_row_spec(line: Seq<char>) -> bool {
    let t = trim(line);
    t.contains('|') && t.len() > 0
}

fn is_table_row_chars(line: &[char]) -> (r: bool)
    ensures
        r == is_table_row_spec(line@),
{
    let t = trim_chars(line);
    contains_char(t.as_slice(), '|') && t.len() > 0
}

/// A separator cell: after trimming, non-empty and made of `-`, `:` and spaces.
pub open spec fn is_separator_cell(cell: Seq<char>) -> bool {
    let c = trim(cell);
    &&& c.len() > 0
    &&& forall|k: int| 0 <= k < c.len() ==> (c[k] == '-' || c[k] == ':' || c[k] == ' ')
}

/// A markdown separator row such as `|---|:---:|`.
pub open spec fn is_separator_row_spec(line: Seq<char>) -> bool {
    let t = trim(line);
    let cells = split(trim_matches(t, '|'), '|');
    t.contains('|') && forall|i: int| 0 <= i < cells.len() ==> is_separator_cell(#[trigger] cells[i])
}

fn is_separator_cell_chars(cell: &[char]) -> (r: bool)
    ensures
        r == is_separator_cell(cell@),
{
    let c = trim_chars(cell);
    if c.len() == 0 {
        return false;
    }
    let mut k: usize = 0;
    while k < c.len()
        invariant
            k <= c@.len(),
            c@ == trim(cell@),
            forall|m: int| 0 <= m < k ==> (c@[m] == '-' || c@[m] == ':' || c@[m] == ' '),
        decreases c@.len() - k,
    {
        let ch = c[k];
        if !(ch == '-' || ch == ':' || ch == ' ') {
            return false;
        }
        k = k + 1;
    }
    true
}

fn separator_row_chars(line: &[char]) -> (r: bool)
    ensures
        r == is_separator_row_spec(line@),
{
    let t = trim_chars(line);
    if !contains_char(t.as_slice(), '|') {
        return false;
    }
    let inner = trim_by(t.as_slice(), Some('|'));
    let cells = split_on(inner.as_slice(), '|');
    let ghost cs = split(trim_matches(t@, '|'), '|');
    let mut i: usize = 0;
    while i < cells.len()
        invariant
            i <= cells@.len(),
            views(cells@) == cs,
            t@ == trim(line@),
            t@.contains('|'),
            cs == split(trim_matches(t@, '|'), '|'),
            forall|m: int| 0 <= m < i ==> is_separator_cell(#[trigger] cs[m]),
        decreases cells@.len() - i,
    {
        if !is_separator_cell_chars(cells[i].as_slice()) {
            assert(cs[i as int] == cells@[i as int]@);
            assert(!is_separator_cell(cs[i as int]));
            return false;
        }
        assert(cs[i as int] == cells@[i as int]@);
        i = i + 1;
    }
    true
}

/// Whether a line is a markdown table separator row (e.g. `|---|---|`).
pub fn is_separator_row(line: &str) -> (r: bool)
    ensures
        r == is_separator_row_spec(line@),
{
    let v = str_to_chars(line);
    separator_row_chars(v.as_slice())
}

// ─── Row parsing and formatting ───

/// `s` without one leading `c` (`str::strip_prefix(c).unwrap_or(s)`).
pub open spec fn strip_one_prefix(s: Seq<char>, c: char) -> Seq<char> {
    if s.len() > 0 && s[0] == c {
        s.drop_first()
    } else {
        s
    }
}

/// `s` without one trailing `c` (`str::strip_suffix(c).unwrap_or(s)`).
pub open spec fn strip_one_suffix(s: Seq<char>, c: char) -> Seq<char> {
    if s.len() > 0 && s.last() == c {
        s.drop_last()
    } else {
        s
    }
}

/// The cells of a table row: the trimmed row without its outer pipes, split
/// at `|`, each cell trimmed.
pub open spec fn parse_row_spec(line: Seq<char>) -> Seq<Seq<char>> {
    let t = trim(line);
    let inner = strip_one_suffix(strip_one_prefix(t, '|'), '|');
    split(inner, '|').map_values(|cell: Seq<char>| trim(cell))
}

fn parse_row_chars(line: &[char]) -> (r: Vec<Vec<char>>)
    ensures
        views(r@) == parse_row_spec(line@),
        r@.len() >= 1,
        forall|k: int| 0 <= k < r@.len() ==> (#[trigger] r@[k])@.len() <= line@.len(),
{
    let t = trim_chars(line);
    let mut lo: usize = 0;
    let mut hi: usize = t.len();
    if hi > 0 && t[0] == '|' {
        lo = 1;
    }
    if hi > lo && t[hi - 1] == '|' {
        hi = hi - 1;
    }
    proof {
        let a = strip_one_prefix(t@, '|');
        assert(a =~= t@.subrange(lo as int, t@.len() as int));
        assert(strip_one_suffix(a, '|') =~= t@.subrange(lo as int, hi as int));
    }
    let inner = copy_range(t.as_slice(), lo, hi);
    let pieces = split_on(inner.as_slice(), '|');
    let ghost ps = split(inner@, '|');
    let mut r: Vec<Vec<char>> = Vec::new();
    let mut i: usize = 0;
    while i < pieces.len()
        invariant
            i <= pieces@.len(),
            views(pieces@) == ps,
            inner@.len() <= line@.len(),
            forall|k: int| 0 <= k < pieces@.len() ==> (#[trigger] pieces@[k])@.len() <= inner@.len(),
            views(r@) == ps.take(i as int).map_values(|cell: Seq<char>| trim(cell)),
            forall|k: int| 0 <= k < r@.len() ==> (#[trigger] r@[k])@.len() <= line@.len(),
        decreases pieces@.len() - i,
    {
        let cell = trim_chars(pieces[i].as_slice());
        let ghost old_v = views(r@);
        r.push(cell);
        i = i + 1;
        assert(views(r@) =~= old_v.push(cell@));
        assert(ps.take(i as int).map_values(|cell: Seq<char>| trim(cell)) =~= ps.take(
            (i - 1) as int,
        ).map_values(|cell: Seq<char>| trim(cell)).push(trim(ps[i - 1])));
    }
    assert(ps.take(ps.len() as int) =~= ps);
    r
}

/// A cell padded with spaces to `width` display columns (no padding when it
/// is already that wide); a missing cell counts as empty.
pub open spec fn padded_cell(cells: Seq<Seq<char>>, j: int, width: nat) -> Seq<char> {
    let cell = if j < cells.len() {
        cells[j]
    } else {
        seq![]
    };
    let dw = display_width_spec(cell);
    cell + repeat_char(' ', if width >= dw { (width - dw) as nat } else { 0 })
}

/// One formatted row: every column padded to its width, joined by `" │ "`.
pub open spec fn format_row_spec(cells: Seq<Seq<char>>, widths: Seq<nat>) -> Seq<char> {
    join(Seq::new(widths.len(), |j: int| padded_cell(cells, j, widths[j])), seq![' ', '│', ' '])
}

/// The widths as mathematical numbers.
pub open spec fn nat_view(v: Seq<usize>) -> Seq<nat> {
    Seq::new(v.len(), |i: int| v[i] as nat)
}

fn format_row_chars(cells: &Vec<Vec<char>>, widths: &Vec<usize>) -> (r: Vec<char>)
    requires
        forall|k: int| 0 <= k < cells@.len() ==> (#[trigger] cells@[k])@.len() <= usize::MAX / 2,
    ensures
        r@ == format_row_spec(views(cells@), nat_view(widths@)),
{
    let ghost cs = views(cells@);
    let ghost ws = nat_view(widths@);
    let mut parts: Vec<Vec<char>> = Vec::new();
    let mut j: usize = 0;
    while j < widths.len()
        invariant
            j <= widths@.len(),
            cs == views(cells@),
            ws == nat_view(widths@),
            forall|k: int| 0 <= k < cells@.len() ==> (#[trigger] cells@[k])@.len() <= usize::MAX / 2,
            views(parts@) == Seq::new(j as nat, |m: int| padded_cell(cs, m, ws[m])),
        decreases widths@.len() - j,
    {
        let empty: Vec<char> = Vec::new();
        let cell: &[char] = if j < cells.len() {
            cells[j].as_slice()
        } else {
            empty.as_slice()
        };
        let mut part: Vec<char> = Vec::new();
        push_all(&mut part, cell);
        let dw = display_width(cell);
        let width = widths[j];
        let padding = if width >= dw {
            width - dw
        } else {
            0
        };
        let spaces = repeat_chars(' ', padding);
        push_all(&mut part, spaces.as_slice());
        proof {
            let spec_cell = if (j as int) < cs.len() {
                cs[j as int]
            } else {
                seq![]
            };
            assert(spec_cell =~= cell@);
            assert(part@ =~= padded_cell(cs, j as int, ws[j as int]));
        }
        let ghost old_v = views(parts@);
        parts.push(part);
        j = j + 1;
        assert(views(parts@) =~= old_v.push(part@));
        assert(views(parts@) =~= Seq::new(j as nat, |m: int| padded_cell(cs, m, ws[m])));
    }
    assert(views(parts@) =~= Seq::new(ws.len(), |m: int| padded_cell(cs, m, ws[m])));
    let sep: Vec<char> = vec![' ', '│', ' '];
    assert(sep@ =~= seq![' ', '│', ' ']);
    join_chars(&parts, sep.as_slice())
}

// ─── Column widths ───

/// The widths after widening them to fit one more row.
pub open spec fn widen(widths: Seq<nat>, row: Seq<Seq<char>>) -> Seq<nat> {
    Seq::new(
        widths.len(),
        |j: int|
            if j < row.len() && display_width_spec(row[j]) > widths[j] {
                display_width_spec(row[j])
            } else {
                widths[j]
            },
    )
}

/// The widths after the first `k` data rows.
pub open spec fn widths_after(widths: Seq<nat>, rows: Seq<Seq<Seq<char>>>, k: int) -> Seq<nat>
    decreases k,
{
    if k <= 0 {
        widths
    } else {
        widen(widths_after(widths, rows, k - 1), rows[k - 1])
    }
}

/// The column widths of a table: for each header column, the largest display
/// width of that column over the header and all data rows.
pub open spec fn col_widths_spec(header: Seq<Seq<char>>, rows: Seq<Seq<Seq<char>>>) -> Seq<nat> {
    widths_after(header.map_values(|c: Seq<char>| display_width_spec(c)), rows, rows.len() as int)
}

/// The character sequences held by a vector of rows.
pub open spec fn rows_view(rows: Seq<Vec<Vec<char>>>) -> Seq<Seq<Seq<char>>> {
    Seq::new(rows.len(), |i: int| views(rows[i]@))
}

/// Every cell of every row is short enough for its width to be computed.
pub open spec fn rows_bounded(rows: Seq<Vec<Vec<char>>>) -> bool {
    forall|i: int, k: int|
        0 <= i < rows.len() && 0 <= k < rows[i]@.len() ==> (#[trigger] rows[i]@[k])@.len()
            <= usize::MAX / 2
}

fn col_widths(header: &Vec<Vec<char>>, rows: &Vec<Vec<Vec<char>>>) -> (r: Vec<usize>)
    requires
        forall|k: int| 0 <= k < header@.len() ==> (#[trigger] header@[k])@.len() <= usize::MAX / 2,
        rows_bounded(rows@),
    ensures
        nat_view(r@) == col_widths_spec(views(header@), rows_view(rows@)),
{
    let ghost hs = views(header@);
    let ghost rs = rows_view(rows@);
    let mut widths: Vec<usize> = Vec::new();
    let mut j: usize = 0;
    while j < header.len()
        invariant
            j <= header@.len(),
            hs == views(header@),
            forall|k: int| 0 <= k < header@.len() ==> (#[trigger] header@[k])@.len() <= usize::MAX / 2,
            nat_view(widths@) == hs.take(j as int).map_values(|c: Seq<char>| display_width_spec(c)),
        decreases header@.len() - j,
    {
        let w = display_width(header[j].as_slice());
        let ghost old_w = nat_view(widths@);
        widths.push(w);
        j = j + 1;
        assert(hs.take(j as int) =~= hs.take((j - 1) as int).push(hs[j - 1]));
        assert(nat_view(widths@) =~= old_w.push(w as nat));
        assert(nat_view(widths@) =~= hs.take(j as int).map_values(
            |c: Seq<char>| display_width_spec(c),
        ));
    }
    assert(hs.take(hs.len() as int) =~= hs);
    let ghost base = hs.map_values(|c: Seq<char>| display_width_spec(c));
    let mut i: usize = 0;
    while i < rows.len()
        invariant
            i <= rows@.len(),
            rs == rows_view(rows@),
            rows_bounded(rows@),
            nat_view(widths@) == widths_after(base, rs, i as int),
        decreases rows@.len() - i,
    {
        let row = &rows[i];
        let ghost before = nat_view(widths@);
        let mut c: usize = 0;
        while c < widths.len()
            invariant
                c <= widths@.len() == before.len(),
                row == rows@[i as int],
                i < rows@.len(),
                rows_bounded(rows@),
                forall|m: int| c <= m < widths@.len() ==> widths@[m] as nat == before[m],
                forall|m: int|
                    0 <= m < c ==> widths@[m] as nat == (#[trigger] widen(before, views(row@))[m]),
            decreases widths@.len() - c,
        {
            if c < row.len() {
                assert(rows@[i as int]@[c as int]@.len() <= usize::MAX / 2);
                let dw = display_width(row[c].as_slice());
                if dw > widths[c] {
                    widths.set(c, dw);
                }
            }
            c = c + 1;
        }
        proof {
            assert(rs[i as int] == views(row@));
            assert(nat_view(widths@) =~= widen(before, rs[i as int]));
        }
        i = i + 1;
    }
    widths
}

// ─── Table rendering ───

/// The data rows formatted one per line.
pub open spec fn rows_text(rows: Seq<Seq<Seq<char>>>, widths: Seq<nat>) -> Seq<char>
    decreases rows.len(),
{
    if rows.len() == 0 {
        seq![]
    } else {
        rows_text(rows.drop_last(), widths) + format_row_spec(rows.last(), widths) + seq!['\n']
    }
}

/// The separator line: a run of `─` per column, joined by `─┼─`.
pub open spec fn separator_line(widths: Seq<nat>) -> Seq<char> {
    join(Seq::new(widths.len(), |j: int| repeat_char('─', widths[j])), seq!['─', '┼', '─'])
}

/// A whole table as a `<pre>` block: header, separator, data rows.
pub open spec fn render_table(header: Seq<Seq<char>>, rows: Seq<Seq<Seq<char>>>) -> Seq<char> {
    let w = col_widths_spec(header, rows);
    seq!['<', 'p', 'r', 'e', '>', '\n'] + format_row_spec(header, w) + seq!['\n'] + separator_line(w)
        + seq!['\n'] + rows_text(rows, w) + seq!['<', '/', 'p', 'r', 'e', '>']
}

/// Index of the first line at or after `i` that is not a table row.
pub open spec fn table_end(lines: Seq<Seq<char>>, i: int) -> int
    decreases lines.len() - i,
{
    if i >= lines.len() {
        lines.len() as int
    } else if !is_table_row_spec(trim(lines[i])) {
        i
    } else {
        table_end(lines, i + 1)
    }
}

pub proof fn lemma_table_end(lines: Seq<Seq<char>>, i: int)
    requires
        0 <= i <= lines.len(),
    ensures
        i <= table_end(lines, i) <= lines.len(),
        forall|k: int| i <= k < table_end(lines, i) ==> is_table_row_spec(trim(#[trigger] lines[k])),
    decreases lines.len() - i,
{
    if i < lines.len() && is_table_row_spec(trim(lines[i])) {
        lemma_table_end(lines, i + 1);
    }
}

/// The table (formatted text, index past its last line) that starts at line
/// `start`, if a header row and a separator row start there.
pub open spec fn try_parse_table_spec(lines: Seq<Seq<char>>, start: int) -> Option<(Seq<char>, int)> {
    if start < 0 || start + 1 >= lines.len() {
        None
    } else if !is_table_row_spec(trim(lines[start])) {
        None
    } else if !is_separator_row_spec(trim(lines[start + 1])) {
        None
    } else {
        let header = parse_row_spec(trim(lines[start]));
        if header.len() == 0 {
            None
        } else {
            let end = table_end(lines, start + 2);
            let rows = Seq::new(
                (end - (start + 2)) as nat,
                |k: int| parse_row_spec(trim(lines[start + 2 + k])),
            );
            Some((render_table(header, rows), end))
        }
    }
}

pub proof fn lemma_try_parse_table_end(lines: Seq<Seq<char>>, start: int)
    ensures
        try_parse_table_spec(lines, start) matches Some((_, end)) ==> start + 2 <= end
            <= lines.len(),
{
    if try_parse_table_spec(lines, start) is Some {
        lemma_table_end(lines, start + 2);
    }
}

/// The output for the lines from `i` on: tables formatted, other lines copied,
/// each followed by `'\n'`.
pub open spec fn format_lines_from(lines: Seq<Seq<char>>, i: int) -> Seq<char>
    decreases lines.len() - i,
    via format_lines_from_decreases
{
    if i < 0 || i >= lines.len() {
        seq![]
    } else {
        match try_parse_table_spec(lines, i) {
            Some((t, end)) => t + seq!['\n'] + format_lines_from(lines, end),
            None => lines[i] + seq!['\n'] + format_lines_from(lines, i + 1),
        }
    }
}

#[via_fn]
proof fn format_lines_from_decreases(lines: Seq<Seq<char>>, i: int) {
    lemma_try_parse_table_end(lines, i);
}

/// Whether `s` ends with a `'\n'`.
pub open spec fn ends_with_newline(s: Seq<char>) -> bool {
    s.len() > 0 && s.last() == '\n'
}

/// The whole conversion: every markdown table in `text` turned into a
/// `<pre>` block; the final `'\n'` is kept only when `text` has one.
pub open spec fn format_tables_spec(text: Seq<char>) -> Seq<char> {
    let r = format_lines_from(lines(text), 0);
    if ends_with_newline(r) && !ends_with_newline(text) {
        r.drop_last()
    } else {
        r
    }
}

proof fn lemma_no_table_rows(text: Seq<char>, i: int)
    requires
        !text.contains('|'),
        0 <= i <= lines(text).len(),
    ensures
        format_lines_from(lines(text), i) == concat_lines(lines(text).skip(i)),
    decreases lines(text).len() - i,
{
    let ls = lines(text);
    if i < ls.len() {
        if is_table_row_spec(trim(ls[i])) {
            lemma_trim_contains(trim(ls[i]), '|');
            lemma_trim_contains(ls[i], '|');
            lemma_lines_from_contains(text, 0, i, '|');
        }
        assert(try_parse_table_spec(ls, i) is None);
        lemma_no_table_rows(text, i + 1);
        assert(ls.skip(i)[0] == ls[i]);
        assert(ls.skip(i).drop_first() =~= ls.skip(i + 1));
    } else {
        assert(ls.skip(i) =~= seq![]);
    }
}

/// Text that holds no `|` (and no carriage return) comes back unchanged: with
/// no table in it there is nothing to convert, and every line is copied.
pub proof fn law_text_without_table_unchanged(text: Seq<char>)
    requires
        !text.contains('|'),
        !text.contains('\r'),
    ensures
        format_tables_spec(text) == text,
{
    lemma_no_table_rows(text, 0);
    assert(lines(text).skip(0) =~= lines(text));
    lemma_concat_lines_from(text, 0);
    assert(text.subrange(0, text.len() as int) =~= text);
    let r = format_lines_from(lines(text), 0);
    if text.len() > 0 && text.last() != '\n' {
        assert(r.drop_last() =~= text);
    }
}

fn is_table_row_line(line: &[char]) -> (r: bool)
    ensures
        r == is_table_row_spec(trim(line@)),
{
    let t = trim_chars(line);
    is_table_row_chars(t.as_slice())
}

fn separator_chars(widths: &Vec<usize>) -> (r: Vec<char>)
    ensures
        r@ == separator_line(nat_view(widths@)),
{
    let ghost ws = nat_view(widths@);
    let mut parts: Vec<Vec<char>> = Vec::new();
    let mut j: usize = 0;
    while j < widths.len()
        invariant
            j <= widths@.len(),
            ws == nat_view(widths@),
            views(parts@) == Seq::new(j as nat, |m: int| repeat_char('─', ws[m])),
        decreases widths@.len() - j,
    {
        let run = repeat_chars('─', widths[j]);
        let ghost old_v = views(parts@);
        parts.push(run);
        j = j + 1;
        assert(views(parts@) =~= old_v.push(run@));
        assert(views(parts@) =~= Seq::new(j as nat, |m: int| repeat_char('─', ws[m])));
    }
    assert(views(parts@) =~= Seq::new(ws.len(), |m: int| repeat_char('─', ws[m])));
    let sep: Vec<char> = vec!['─', '┼', '─'];
    assert(sep@ =~= seq!['─', '┼', '─']);
    join_chars(&parts, sep.as_slice())
}

fn render_table_chars(header: &Vec<Vec<char>>, rows: &Vec<Vec<Vec<char>>>) -> (r: Vec<char>)
    requires
        forall|k: int| 0 <= k < header@.len() ==> (#[trigger] header@[k])@.len() <= usize::MAX / 2,
        rows_bounded(rows@),
    ensures
        r@ == render_table(views(header@), rows_view(rows@)),
{
    let widths = col_widths(header, rows);
    let ghost w = col_widths_spec(views(header@), rows_view(rows@));
    let ghost rs = rows_view(rows@);
    let mut table: Vec<char> = vec!['<', 'p', 'r', 'e', '>', '\n'];
    let head = format_row_chars(header, &widths);
    push_all(&mut table, head.as_slice());
    table.push('\n');
    let sep = separator_chars(&widths);
    push_all(&mut table, sep.as_slice());
    table.push('\n');
    let ghost prefix = table@;
    assert(prefix =~= seq!['<', 'p', 'r', 'e', '>', '\n'] + format_row_spec(views(header@), w)
        + seq!['\n'] + separator_line(w) + seq!['\n']);
    let mut i: usize = 0;
    while i < rows.len()
        invariant
            i <= rows@.len(),
            rows_bounded(rows@),
            rs == rows_view(rows@),
            nat_view(widths@) == w,
            table@ == prefix + rows_text(rs.take(i as int), w),
        decreases rows@.len() - i,
    {
        assert(forall|k: int| 0 <= k < rows@[i as int]@.len() ==> (#[trigger] rows@[i as int]@[k])@.len() <= usize::MAX / 2);
        let line = format_row_chars(&rows[i], &widths);
        push_all(&mut table, line.as_slice());
        table.push('\n');
        i = i + 1;
        proof {
            let now = rs.take(i as int);
            assert(now.drop_last() =~= rs.take((i - 1) as int));
            assert(now.last() == views(rows@[i - 1]@));
            assert(table@ =~= prefix + rows_text(now, w));
        }
    }
    assert(rs.take(rs.len() as int) =~= rs);
    let close: Vec<char> = vec!['<', '/', 'p', 'r', 'e', '>'];
    push_all(&mut table, close.as_slice());
    assert(table@ =~= render_table(views(header@), rs));
    table
}

/// Every line is short enough for its display width to be computed.
pub open spec fn lines_bounded(lines: Seq<Vec<char>>) -> bool {
    forall|k: int| 0 <= k < lines.len() ==> (#[trigger] lines[k])@.len() <= usize::MAX / 2
}

fn try_parse_table(lines: &Vec<Vec<char>>, start: usize) -> (r: Option<(Vec<char>, usize)>)
    requires
        lines_bounded(lines@),
    ensures
        match r {
            Some((t, end)) => try_parse_table_spec(views(lines@), start as int) == Some(
                (t@, end as int),
            ),
            None => try_parse_table_spec(views(lines@), start as int) is None,
        },
        r matches Some((_, end)) ==> start + 2 <= end <= lines@.len(),
{
    let ghost ls = views(lines@);
    let n = lines.len();
    if start >= n || start + 1 >= n {
        return None;
    }
    assert(ls[start as int] == lines@[start as int]@);
    assert(ls[start + 1] == lines@[start + 1]@);
    let header_line = trim_chars(lines[start].as_slice());
    if !is_table_row_chars(header_line.as_slice()) {
        return None;
    }
    let sep_line = trim_chars(lines[start + 1].as_slice());
    if !separator_row_chars(sep_line.as_slice()) {
        return None;
    }
    let header = parse_row_chars(header_line.as_slice());
    if header.len() == 0 {
        return None;
    }
    let mut end: usize = start + 2;
    while end < n && is_table_row_line(lines[end].as_slice())
        invariant
            start + 2 <= end <= n == lines@.len(),
            ls == views(lines@),
            table_end(ls, (start + 2) as int) == table_end(ls, end as int),
        decreases n - end,
    {
        assert(ls[end as int] == lines@[end as int]@);
        end = end + 1;
    }
    proof {
        if end < n {
            assert(ls[end as int] == lines@[end as int]@);
        }
    }
    assert(table_end(ls, end as int) == end);
    let mut rows: Vec<Vec<Vec<char>>> = Vec::new();
    let mut k: usize = start + 2;
    while k < end
        invariant
            start + 2 <= k <= end <= n == lines@.len(),
            ls == views(lines@),
            lines_bounded(lines@),
            rows_bounded(rows@),
            rows_view(rows@) == Seq::new(
                (k - (start + 2)) as nat,
                |m: int| parse_row_spec(trim(ls[start + 2 + m])),
            ),
        decreases end - k,
    {
        let row_line = trim_chars(lines[k].as_slice());
        let row = parse_row_chars(row_line.as_slice());
        assert(ls[k as int] == lines@[k as int]@);
        let ghost old_v = rows_view(rows@);
        rows.push(row);
        k = k + 1;
        assert(rows_view(rows@) =~= old_v.push(views(row@)));
        assert(rows_view(rows@) =~= Seq::new(
            (k - (start + 2)) as nat,
            |m: int| parse_row_spec(trim(ls[start + 2 + m])),
        ));
    }
    let table = render_table_chars(&header, &rows);
    Some((table, end))
}

/// Convert all markdown tables in `text` to Telegram-compatible `<pre>` blocks.
pub fn format_tables_for_telegram(text: &str) -> (r: String)
    requires
        text@.len() <= usize::MAX / 2,
    ensures
        r@ == format_tables_spec(text@),
{
    let chars = str_to_chars(text);
    let lines = split_lines(chars.as_slice());
    let ghost ls = views(lines@);
    let mut result: Vec<char> = Vec::new();
    let mut i: usize = 0;
    while i < lines.len()
        invariant
            i <= lines@.len(),
            ls == views(lines@),
            lines_bounded(lines@),
            format_lines_from(ls, 0) == result@ + format_lines_from(ls, i as int),
        decreases lines@.len() - i,
    {
        match try_parse_table(&lines, i) {
            Some((table, end)) => {
                push_all(&mut result, table.as_slice());
                result.push('\n');
                assert(format_lines_from(ls, i as int) == table@ + seq!['\n'] + format_lines_from(
                    ls,
                    end as int,
                ));
                i = end;
            },
            None => {
                push_all(&mut result, lines[i].as_slice());
                result.push('\n');
                assert(ls[i as int] == lines@[i as int]@);
                assert(format_lines_from(ls, i as int) == ls[i as int] + seq!['\n']
                    + format_lines_from(ls, i + 1));
                i = i + 1;
            },
        }
    }
    assert(format_lines_from(ls, i as int) =~= seq![]);
    assert(format_lines_from(ls, 0) =~= result@);
    let n = result.len();
    let tn = chars.len();
    if n > 0 && result[n - 1] == '\n' && !(tn > 0 && chars[tn - 1] == '\n') {
        result.pop();
    }
    chars_to_string(result.as_slice())
}

} // verus!
