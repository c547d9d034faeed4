//! The agent's tools: reading their arguments, and what they answer.
//!
//! Running a command, touching the file system and fetching pages are done
//! by the application; the arguments, limits, checks and the text of each
//! answer are decided here.
use vstd::prelude::*;
use crate::agent::{take_chars, take_upto};
use crate::json::{
    json_bool, json_bool_at, json_error, json_i64, json_i64_at, json_parse_error, json_str,
    json_str_at, json_u64, json_u64_at, opt_view,
};
use crate::text::{
    byte_len, byte_length_below, chars_to_string, concat_strs, contains_seq, copy_range,
    copy_string, decimal, find_from, lines, matches_at, matches_at_exec, push_all, push_decimal,
    push_signed_decimal, push_str_chars, repeat_char, repeat_chars, signed_decimal, split_lines,
    str_contains, str_to_chars, trim, trim_chars, views,
};

verus! {

// ─── bash ───

/// Characters of output kept from each stream.
pub const MAX_OUTPUT: usize = 100_000;

/// Seconds a command may run by default, and at most.
pub const DEFAULT_TIMEOUT: u64 = 30;

pub const MAX_TIMEOUT: u64 = 300;

/// A command to run, with its time limit in seconds.
pub struct BashRequest {
    pub command: String,
    pub timeout_secs: u64,
}

/// The time limit: the requested seconds (30 by default), at least 1 and at
/// most 300.
pub open spec fn timeout_secs(requested: Option<i64>) -> u64 {
    let t = match requested {
        Some(t) => t,
        None => 30,
    };
    let t = if t < 1 {
        1
    } else {
        t
    };
    if t > 300 {
        300
    } else {
        t as u64
    }
}

/// The command and time limit of a `bash` call: the `command` argument is
/// required and must not be blank.
pub fn bash_request(args: &str) -> (r: Result<BashRequest, String>)
    ensures
        match json_str_at(args@, "/command"@) {
            None => r matches Err(e) && e@ == "command is required"@,
            Some(c) => if trim(c).len() == 0 {
                r matches Err(e) && e@ == "command cannot be empty"@
            } else {
                r matches Ok(q) && q.command@ == c && q.timeout_secs == timeout_secs(
                    json_i64_at(args@, "/timeout"@),
                )
            },
        },
{
    let command = match json_str(args, "/command") {
        Some(c) => c,
        None => {
            return Err(copy_string("command is required"));
        },
    };
    let cc = str_to_chars(command.as_str());
    let t = trim_chars(cc.as_slice());
    if t.len() == 0 {
        return Err(copy_string("command cannot be empty"));
    }
    let requested = json_i64(args, "/timeout");
    let mut secs: i64 = match requested {
        Some(t) => t,
        None => 30,
    };
    if secs < 1 {
        secs = 1;
    }
    let timeout_secs: u64 = if secs > 300 {
        300
    } else {
        secs as u64
    };
    Ok(BashRequest { command, timeout_secs })
}

/// The answer when a command ran out of time.
pub fn timed_out(secs: u64) -> (r: String)
    ensures
        r@ == "[Command timed out after "@ + decimal(secs as nat) + "s]"@,
{
    let mut v: Vec<char> = Vec::new();
    push_str_chars(&mut v, "[Command timed out after ");
    push_decimal(&mut v, secs);
    push_str_chars(&mut v, "s]");
    chars_to_string(v.as_slice())
}

/// One output stream: kept whole when it has at most 100 000 bytes, else
/// cut to its first 100 000 characters behind a note.
pub open spec fn capped_stream(s: Seq<char>, label: Seq<char>) -> Seq<char> {
    if byte_len(s) > MAX_OUTPUT {
        seq!['['] + label + " truncated to 100000 chars]\n"@ + take_upto(s, MAX_OUTPUT as nat)
    } else {
        s
    }
}

/// The answer of a finished command: its output, then its errors after
/// `STDERR:`, then the exit code when it failed (-1 when it was killed by
/// a signal); `(no output)` when all of that is empty.
pub open spec fn bash_output(
    stdout: Seq<char>,
    stderr: Seq<char>,
    success: bool,
    code: Option<i32>,
) -> Seq<char> {
    let r1 = if stdout.len() > 0 {
        capped_stream(stdout, "stdout"@)
    } else {
        seq![]
    };
    let r2 = if stderr.len() > 0 {
        (if r1.len() > 0 {
            r1.push('\n')
        } else {
            r1
        }) + "STDERR:\n"@ + capped_stream(stderr, "stderr"@)
    } else {
        r1
    };
    let r3 = if !success {
        r2 + "\n[Exit code: "@ + signed_decimal(
            match code {
                Some(c) => c as int,
                None => -1,
            },
        ) + seq![']']
    } else {
        r2
    };
    if r3.len() == 0 {
        "(no output)"@
    } else {
        r3
    }
}

fn push_capped(out: &mut Vec<char>, s: &[char], label: &str)
    ensures
        final(out)@ == old(out)@ + capped_stream(s@, label@),
{
    match byte_length_below(s, MAX_OUTPUT + 1) {
        Some(_) => push_all(out, s),
        None => {
            out.push('[');
            push_str_chars(out, label);
            push_str_chars(out, " truncated to 100000 chars]\n");
            let kept = take_chars(s, MAX_OUTPUT);
            push_all(out, kept.as_slice());
        },
    }
}

/// The answer of a finished command.
pub fn format_bash_output(stdout: &str, stderr: &str, success: bool, code: Option<i32>) -> (r: String)
    ensures
        r@ == bash_output(stdout@, stderr@, success, code),
{
    let so = str_to_chars(stdout);
    let se = str_to_chars(stderr);
    let mut out: Vec<char> = Vec::new();
    if so.len() > 0 {
        push_capped(&mut out, so.as_slice(), "stdout");
    }
    let ghost r1 = out@;
    if se.len() > 0 {
        if out.len() > 0 {
            out.push('\n');
        }
        push_str_chars(&mut out, "STDERR:\n");
        push_capped(&mut out, se.as_slice(), "stderr");
    }
    if !success {
        push_str_chars(&mut out, "\n[Exit code: ");
        let c: i64 = match code {
            Some(c) => c as i64,
            None => -1,
        };
        push_signed_decimal(&mut out, c);
        out.push(']');
    }
    if out.len() == 0 {
        return copy_string("(no output)");
    }
    chars_to_string(out.as_slice())
}

// ─── read_file, write_file, edit_file ───

/// Lines shown by default.
pub const DEFAULT_READ_LIMIT: i64 = 2000;

/// A file to read, from line `offset` (1-based; 0 for the start) for at
/// most `limit` lines.
pub struct ReadRequest {
    pub path: String,
    pub offset: usize,
    pub limit: usize,
}

/// The `path` argument, which file tools require.
pub fn path_arg(args: &str) -> (r: Result<String, String>)
    ensures
        match json_str_at(args@, "/path"@) {
            Some(p) => r matches Ok(q) && q@ == p,
            None => r matches Err(e) && e@ == "path is required"@,
        },
{
    match json_str(args, "/path") {
        Some(p) => Ok(p),
        None => Err(copy_string("path is required")),
    }
}

/// The arguments of `write_file`: `path` and `content`, both required.
pub fn write_args(args: &str) -> (r: Result<(String, String), String>)
    ensures
        match json_str_at(args@, "/path"@) {
            None => r matches Err(e) && e@ == "path is required"@,
            Some(p) => match json_str_at(args@, "/content"@) {
                None => r matches Err(e) && e@ == "content is required"@,
                Some(c) => r matches Ok((a, b)) && a@ == p && b@ == c,
            },
        },
{
    let path = path_arg(args)?;
    match json_str(args, "/content") {
        Some(c) => Ok((path, c)),
        None => Err(copy_string("content is required")),
    }
}

/// The arguments of `edit_file`: `path`, `old_string` and `new_string`, all
/// required.
pub fn edit_args(args: &str) -> (r: Result<(String, String, String), String>)
    ensures
        match json_str_at(args@, "/path"@) {
            None => r matches Err(e) && e@ == "path is required"@,
            Some(p) => match json_str_at(args@, "/old_string"@) {
                None => r matches Err(e) && e@ == "old_string is required"@,
                Some(o) => match json_str_at(args@, "/new_string"@) {
                    None => r matches Err(e) && e@ == "new_string is required"@,
                    Some(n) => r matches Ok((a, b, c)) && a@ == p && b@ == o && c@ == n,
                },
            },
        },
{
    let path = path_arg(args)?;
    let old = match json_str(args, "/old_string") {
        Some(o) => o,
        None => {
            return Err(copy_string("old_string is required"));
        },
    };
    match json_str(args, "/new_string") {
        Some(n) => Ok((path, old, n)),
        None => Err(copy_string("new_string is required")),
    }
}

/// The arguments of `read_file`: the offset is at least 0, the limit at
/// least 1 (2000 when not given).
pub fn read_request(args: &str) -> (r: Result<ReadRequest, String>)
    ensures
        match json_str_at(args@, "/path"@) {
            Some(p) => r matches Ok(q) && q.path@ == p && q.offset == (match json_i64_at(
                args@,
                "/offset"@,
            ) {
                Some(o) => if o < 0 {
                    0
                } else {
                    o
                },
                None => 0,
            }) as usize && q.limit == (match json_i64_at(args@, "/limit"@) {
                Some(l) => if l < 1 {
                    1
                } else {
                    l
                },
                None => 2000,
            }) as usize,
            None => r matches Err(e) && e@ == "path is required"@,
        },
{
    let path = path_arg(args)?;
    let offset: i64 = match json_i64(args, "/offset") {
        Some(o) => if o < 0 {
            0
        } else {
            o
        },
        None => 0,
    };
    let limit: i64 = match json_i64(args, "/limit") {
        Some(l) => if l < 1 {
            1
        } else {
            l
        },
        None => 2000,
    };
    Ok(ReadRequest { path, offset: offset as usize, limit: limit as usize })
}

/// The first line shown: `offset - 1` (at most the number of lines), or the
/// first line when `offset` is 0.
pub open spec fn read_start(n: nat, offset: usize) -> nat {
    if offset > 0 {
        if offset - 1 <= n {
            (offset - 1) as nat
        } else {
            n
        }
    } else {
        0
    }
}

/// The line after the last shown.
pub open spec fn read_end(n: nat, offset: usize, limit: usize) -> nat {
    if read_start(n, offset) + limit <= n {
        (read_start(n, offset) + limit) as nat
    } else {
        n
    }
}

/// Whether the window of lines can be computed in `usize` (the reading
/// code adds the limit to the start and reserves 80 bytes per line).
pub open spec fn read_window_fits(content: Seq<char>, offset: usize, limit: usize) -> bool {
    let n = lines(content).len();
    &&& read_start(n, offset) + limit <= usize::MAX
    &&& (read_end(n, offset, limit) - read_start(n, offset)) * 80 <= usize::MAX
}

/// A line number right-aligned in four columns (`{:4}`).
pub open spec fn pad4(n: nat) -> Seq<char> {
    let d = decimal(n);
    if d.len() < 4 {
        repeat_char(' ', (4 - d.len()) as nat) + d
    } else {
        d
    }
}

/// The numbered lines `start..end` of `ls`, each as `{number:4}\t{line}\n`.
pub open spec fn numbered(ls: Seq<Seq<char>>, start: int, end: int) -> Seq<char>
    decreases end - start,
{
    if end <= start {
        seq![]
    } else {
        numbered(ls, start, end - 1) + pad4(end as nat) + seq!['\t'] + ls[end - 1] + seq!['\n']
    }
}

/// What `read_file` shows of a file: the numbered lines of the window, and
/// a note of the range shown when lines remain after it.
pub open spec fn read_output(content: Seq<char>, offset: usize, limit: usize) -> Seq<char> {
    let ls = lines(content);
    let n = ls.len();
    let start = read_start(n, offset);
    let end = read_end(n, offset, limit);
    numbered(ls, start as int, end as int) + if end < n {
        "\n[Showing lines "@ + decimal(start + 1) + seq!['-'] + decimal(end) + " of "@ + decimal(
            n,
        ) + " total]"@
    } else {
        seq![]
    }
}

fn push_pad4(out: &mut Vec<char>, n: usize)
    ensures
        final(out)@ == old(out)@ + pad4(n as nat),
{
    let d = crate::text::decimal_chars(n as u64);
    if d.len() < 4 {
        let pad = repeat_chars(' ', 4 - d.len());
        push_all(out, pad.as_slice());
    }
    push_all(out, d.as_slice());
}

fn push_numbered(out: &mut Vec<char>, ls: &Vec<Vec<char>>, start: usize, end: usize)
    requires
        start <= end <= ls@.len(),
    ensures
        final(out)@ == old(out)@ + numbered(views(ls@), start as int, end as int),
{
    let ghost v = views(ls@);
    let ghost o = out@;
    let mut i: usize = start;
    assert(o + numbered(v, start as int, start as int) =~= o);
    while i < end
        invariant
            start <= i <= end <= ls@.len() == v.len(),
            v == views(ls@),
            out@ == o + numbered(v, start as int, i as int),
        decreases end - i,
    {
        push_pad4(out, i + 1);
        out.push('\t');
        assert(v[i as int] == ls@[i as int]@);
        push_all(out, ls[i].as_slice());
        out.push('\n');
        i = i + 1;
        assert(out@ =~= o + numbered(v, start as int, i as int));
    }
}

/// The numbered lines of a file's window (`read_file`).
#[verifier::rlimit(40)]
pub fn format_read(content: &str, offset: usize, limit: usize) -> (r: String)
    requires
        read_window_fits(content@, offset, limit),
    ensures
        r@ == read_output(content@, offset, limit),
{
    let c = str_to_chars(content);
    let ls = split_lines(c.as_slice());
    let n = ls.len();
    proof {
        assert(views(ls@).len() == n);
    }
    let start: usize = if offset > 0 {
        if offset - 1 <= n {
            offset - 1
        } else {
            n
        }
    } else {
        0
    };
    let end: usize = if start + limit <= n {
        start + limit
    } else {
        n
    };
    let mut out: Vec<char> = Vec::new();
    push_numbered(&mut out, &ls, start, end);
    let ghost body = out@;
    if end < n {
        push_str_chars(&mut out, "\n[Showing lines ");
        push_decimal(&mut out, (start + 1) as u64);
        out.push('-');
        push_decimal(&mut out, end as u64);
        push_str_chars(&mut out, " of ");
        push_decimal(&mut out, n as u64);
        push_str_chars(&mut out, " total]");
        assert(out@ =~= read_output(content@, offset, limit));
    } else {
        assert(out@ =~= read_output(content@, offset, limit));
    }
    chars_to_string(out.as_slice())
}

/// The answer of `write_file`.
pub fn write_summary(path: &str, existed: bool, content: &str) -> (r: String)
    ensures
        r@ == (if existed {
            "Overwrote"@
        } else {
            "Created"@
        }) + seq![' '] + path@ + " ("@ + decimal(byte_len(content@) as usize as nat)
            + " bytes)"@,
{
    let mut v: Vec<char> = Vec::new();
    if existed {
        push_str_chars(&mut v, "Overwrote");
    } else {
        push_str_chars(&mut v, "Created");
    }
    v.push(' ');
    push_str_chars(&mut v, path);
    push_str_chars(&mut v, " (");
    push_decimal(&mut v, crate::html_preprocess::str_bytes(content) as u64);
    push_str_chars(&mut v, " bytes)");
    chars_to_string(v.as_slice())
}

/// The number of non-overlapping occurrences of `pat` in `s` from `i` on,
/// found left to right (`str::matches(..).count()`).
pub open spec fn count_from(s: Seq<char>, pat: Seq<char>, i: int) -> nat
    decreases s.len() + 1 - i,
    via count_from_decreases
{
    let k = find_from(s, pat, i);
    if k < 0 || pat.len() == 0 {
        0
    } else {
        1 + count_from(s, pat, k + pat.len())
    }
}

#[via_fn]
proof fn count_from_decreases(s: Seq<char>, pat: Seq<char>, i: int) {
    lemma_find_from(s, pat, i);
}

/// What `find_from` finds.
pub proof fn lemma_find_from(s: Seq<char>, pat: Seq<char>, i: int)
    ensures
        find_from(s, pat, i) == -1 || (i <= find_from(s, pat, i) <= s.len() && matches_at(
            s,
            pat,
            find_from(s, pat, i),
        )),
        find_from(s, pat, i) >= 0 ==> i >= 0 && find_from(s, pat, i) + pat.len() <= s.len(),
    decreases s.len() + 1 - i,
{
    if 0 <= i <= s.len() && !matches_at(s, pat, i) {
        lemma_find_from(s, pat, i + 1);
    }
}

/// A failed edit.
pub enum EditError {
    /// `old_string` is empty.
    EmptyOldString,
    /// `old_string` does not occur.
    NotFound,
    /// `old_string` occurs this many times.
    Ambiguous(usize),
}

/// What `edit_file` makes of a file's content: `old` must occur exactly
/// once, and is replaced by `new`.
pub open spec fn edit_spec(content: Seq<char>, old: Seq<char>, new: Seq<char>) -> Result<Seq<char>, EditError> {
    if old.len() == 0 {
        Err(EditError::EmptyOldString)
    } else if count_from(content, old, 0) == 0 {
        Err(EditError::NotFound)
    } else if count_from(content, old, 0) > 1 {
        Err(EditError::Ambiguous(count_from(content, old, 0) as usize))
    } else {
        let k = find_from(content, old, 0);
        Ok(content.take(k) + new + content.skip(k + old.len()))
    }
}

/// Counts the occurrences of `pat` from `i` on.
fn count_occurrences(s: &[char], pat: &[char]) -> (r: usize)
    requires
        pat@.len() > 0,
    ensures
        r == count_from(s@, pat@, 0),
{
    let n = s.len();
    let m = pat.len();
    let mut count: usize = 0;
    let mut i: usize = 0;
    while m <= n - i
        invariant
            i <= n == s@.len(),
            m == pat@.len() > 0,
            count <= i,
            count + count_from(s@, pat@, i as int) == count_from(s@, pat@, 0),
        decreases n - i,
    {
        if matches_at_exec(s, pat, i) {
            proof {
                assert(find_from(s@, pat@, i as int) == i);
            }
            count = count + 1;
            i = i + m;
        } else {
            proof {
                assert(find_from(s@, pat@, i as int) == find_from(s@, pat@, i + 1));
                assert(count_from(s@, pat@, i as int) == count_from(s@, pat@, i + 1));
            }
            i = i + 1;
        }
    }
    proof {
        lemma_no_match_tail(s@, pat@, i as int);
    }
    count
}

proof fn lemma_no_match_tail(s: Seq<char>, pat: Seq<char>, i: int)
    requires
        0 <= i <= s.len(),
        i + pat.len() > s.len(),
        pat.len() > 0,
    ensures
        count_from(s, pat, i) == 0,
    decreases s.len() + 1 - i,
{
    lemma_find_from(s, pat, i);
    if i < s.len() {
        assert(!matches_at(s, pat, i));
        lemma_no_match_tail(s, pat, i + 1);
        assert(find_from(s, pat, i) == find_from(s, pat, i + 1));
    } else {
        assert(!matches_at(s, pat, i));
        assert(find_from(s, pat, i + 1) == -1);
    }
}

/// Replace the single occurrence of `old` in `content` by `new`.
pub fn apply_edit(content: &str, old: &str, new: &str) -> (r: Result<String, EditError>)
    ensures
        match edit_spec(content@, old@, new@) {
            Ok(t) => r matches Ok(u) && u@ == t,
            Err(e) => r matches Err(f) && f == e,
        },
{
    let o = str_to_chars(old);
    if o.len() == 0 {
        return Err(EditError::EmptyOldString);
    }
    let c = str_to_chars(content);
    let count = count_occurrences(c.as_slice(), o.as_slice());
    if count == 0 {
        return Err(EditError::NotFound);
    }
    if count > 1 {
        return Err(EditError::Ambiguous(count));
    }
    let k = match crate::text::find_chars(c.as_slice(), o.as_slice()) {
        Some(k) => k,
        None => {
            proof {
                assert(find_from(c@, o@, 0) == -1);
            }
            return Err(EditError::NotFound);
        },
    };
    proof {
        lemma_find_from(c@, o@, 0);
    }
    assert(matches_at(c@, o@, k as int));
    assert(k + o@.len() <= c@.len());
    let cn = c.len();
    let after: usize = k + o.len();
    let mut out = copy_range(c.as_slice(), 0, k);
    push_str_chars(&mut out, new);
    let tail = copy_range(c.as_slice(), after, c.len());
    push_all(&mut out, tail.as_slice());
    assert(c@.take(k as int) =~= c@.subrange(0, k as int));
    assert(c@.skip(k + o@.len()) =~= c@.subrange(k + o@.len(), c@.len() as int));
    Ok(chars_to_string(out.as_slice()))
}

/// The message of a failed edit of `path`.
pub fn edit_error_message(e: &EditError, path: &str) -> (r: String)
    ensures
        r@ == match *e {
            EditError::EmptyOldString => "old_string cannot be empty"@,
            EditError::NotFound => "old_string not found in "@ + path@,
            EditError::Ambiguous(n) => "old_string found "@ + decimal(n as nat) + " times in "@
                + path@ + ". Provide more context to make it unique."@,
        },
{
    match e {
        EditError::EmptyOldString => copy_string("old_string cannot be empty"),
        EditError::NotFound => concat_strs("old_string not found in ", path),
        EditError::Ambiguous(n) => {
            let mut v: Vec<char> = Vec::new();
            push_str_chars(&mut v, "old_string found ");
            push_decimal(&mut v, *n as u64);
            push_str_chars(&mut v, " times in ");
            push_str_chars(&mut v, path);
            push_str_chars(&mut v, ". Provide more context to make it unique.");
            chars_to_string(v.as_slice())
        },
    }
}

/// The answer of a successful edit of `path`.
pub fn edit_summary(path: &str, old: &str, new: &str) -> (r: String)
    ensures
        r@ == "Edited "@ + path@ + ": replaced "@ + decimal(lines(old@).len()) + " line(s) with "@
            + decimal(lines(new@).len()) + " line(s)"@,
{
    let oc = str_to_chars(old);
    let nc = str_to_chars(new);
    let ol = split_lines(oc.as_slice());
    let nl = split_lines(nc.as_slice());
    proof {
        assert(views(ol@).len() == ol@.len());
        assert(views(nl@).len() == nl@.len());
    }
    let mut v: Vec<char> = Vec::new();
    push_str_chars(&mut v, "Edited ");
    push_str_chars(&mut v, path);
    push_str_chars(&mut v, ": replaced ");
    push_decimal(&mut v, ol.len() as u64);
    push_str_chars(&mut v, " line(s) with ");
    push_decimal(&mut v, nl.len() as u64);
    push_str_chars(&mut v, " line(s)");
    chars_to_string(v.as_slice())
}

// ─── web_fetch ───

/// Bytes of HTML accepted from a page.
pub const MAX_HTML_SIZE: usize = 5 * 1024 * 1024;

/// A page to fetch and how to present it.
pub struct FetchRequest {
    pub url: String,
    pub include_metadata: bool,
    pub max_chars: usize,
    pub raw: bool,
}

/// Whether `s` starts with `p`.
pub open spec fn starts_with(s: Seq<char>, p: Seq<char>) -> bool {
    p.len() <= s.len() && s.take(p.len() as int) == p
}

fn starts_with_str(s: &str, p: &str) -> (r: bool)
    ensures
        r == starts_with(s@, p@),
{
    let a = str_to_chars(s);
    let b = str_to_chars(p);
    let r = matches_at_exec(a.as_slice(), b.as_slice(), 0);
    assert(a@.subrange(0, b@.len() as int) =~= a@.take(b@.len() as int));
    r
}

/// The arguments of `web_fetch`: a `url` (required, `http://` or
/// `https://`), metadata shown unless `include_metadata` is false, at most
/// `max_chars` characters (50 000 by default), raw results when `raw` is true.
pub fn fetch_request(args: &str) -> (r: Result<FetchRequest, String>)
    ensures
        match json_str_at(args@, "/url"@) {
            None => r matches Err(e) && e@ == "url is required"@,
            Some(u) => if !starts_with(u, "http://"@) && !starts_with(u, "https://"@) {
                r matches Err(e) && e@ == "URL must start with http:// or https://"@
            } else {
                r matches Ok(q) && q.url@ == u && q.include_metadata == (match json_bool_at(
                    args@,
                    "/include_metadata"@,
                ) {
                    Some(b) => b,
                    None => true,
                }) && q.max_chars == (match json_u64_at(args@, "/max_chars"@) {
                    Some(m) => m,
                    None => 50_000,
                }) as usize && q.raw == (match json_bool_at(args@, "/raw"@) {
                    Some(b) => b,
                    None => false,
                })
            },
        },
{
    let url = match json_str(args, "/url") {
        Some(u) => u,
        None => {
            return Err(copy_string("url is required"));
        },
    };
    let include_metadata = match json_bool(args, "/include_metadata") {
        Some(b) => b,
        None => true,
    };
    let max_chars: u64 = match json_u64(args, "/max_chars") {
        Some(m) => m,
        None => 50_000,
    };
    let raw = match json_bool(args, "/raw") {
        Some(b) => b,
        None => false,
    };
    if !starts_with_str(url.as_str(), "http://") && !starts_with_str(url.as_str(), "https://") {
        return Err(copy_string("URL must start with http:// or https://"));
    }
    Ok(FetchRequest { url, include_metadata, max_chars: max_chars as usize, raw })
}

/// A response that is not a page.
pub enum FetchError {
    /// The status is not a success; its text is given.
    Status(String),
    /// The content type is not HTML or text.
    ContentType(String),
    /// The body is larger than the limit, in bytes.
    TooLarge(usize),
}

/// Whether a content type is accepted: empty, or naming HTML, XHTML or
/// plain text.
pub open spec fn content_type_ok(ct: Seq<char>) -> bool {
    ct.len() == 0 || contains_seq(ct, "text/html"@) || contains_seq(ct, "application/xhtml"@)
        || contains_seq(ct, "text/plain"@)
}

/// Check a response: a success status, an HTML or text content type, and
/// at most 5 MiB of body.
pub fn check_response(success: bool, status: &str, content_type: &str, body_len: usize) -> (r: Result<(), FetchError>)
    ensures
        !success ==> (r matches Err(FetchError::Status(s)) && s@ == status@),
        success && !content_type_ok(content_type@) ==> (r matches Err(
            FetchError::ContentType(c),
        ) && c@ == content_type@),
        success && content_type_ok(content_type@) && body_len > MAX_HTML_SIZE ==> r == Err::<
            (),
            FetchError,
        >(FetchError::TooLarge(body_len)),
        success && content_type_ok(content_type@) && body_len <= MAX_HTML_SIZE ==> r is Ok,
{
    if !success {
        return Err(FetchError::Status(copy_string(status)));
    }
    let ok_type = content_type.is_empty() || str_contains(content_type, "text/html") || str_contains(
        content_type,
        "application/xhtml",
    ) || str_contains(content_type, "text/plain");
    if !ok_type {
        return Err(FetchError::ContentType(copy_string(content_type)));
    }
    if body_len > MAX_HTML_SIZE {
        return Err(FetchError::TooLarge(body_len));
    }
    Ok(())
}

/// The message of a refused status (the page's URL is named).
pub fn status_error(status: &str, url: &str) -> (r: String)
    ensures
        r@ == "HTTP "@ + status@ + " for "@ + url@,
{
    let mut v: Vec<char> = Vec::new();
    push_str_chars(&mut v, "HTTP ");
    push_str_chars(&mut v, status);
    push_str_chars(&mut v, " for ");
    push_str_chars(&mut v, url);
    chars_to_string(v.as_slice())
}

/// The message of a refused content type.
pub fn content_type_error(content_type: &str) -> (r: String)
    ensures
        r@ == "Non-HTML content type: "@ + content_type@,
{
    concat_strs("Non-HTML content type: ", content_type)
}

// ─── The registry ───

/// Whether a call can run: the tool must be known and its arguments JSON.
pub fn check_tool_call(known: bool, name: &str, args: &str) -> (r: Result<(), String>)
    ensures
        !known ==> (r matches Err(e) && e@ == "Unknown tool: "@ + name@),
        known ==> match json_parse_error(args@) {
            Some(pe) => r matches Err(e) && e@ == "Invalid JSON args: "@ + pe,
            None => r is Ok,
        },
{
    if !known {
        return Err(concat_strs("Unknown tool: ", name));
    }
    match json_error(args) {
        Some(pe) => Err(concat_strs("Invalid JSON args: ", pe.as_str())),
        None => Ok(()),
    }
}

/// What a call answers: a tool's failure is reported to the model as text.
pub fn tool_answer(outcome: Result<String, String>) -> (r: String)
    ensures
        match outcome {
            Ok(s) => r == s,
            Err(e) => r@ == "Error: "@ + e@,
        },
{
    match outcome {
        Ok(s) => s,
        Err(e) => concat_strs("Error: ", e.as_str()),
    }
}

/// What the agent records for a call that could not run.
pub fn tool_error_text(error: &str) -> (r: String)
    ensures
        r@ == "Tool error: "@ + error@,
{
    concat_strs("Tool error: ", error)
}

/// The error reported when a turn used all its iterations.
pub fn max_iterations_error() -> (r: String)
    ensures
        r@ == "Max iterations ("@ + decimal(crate::agent::MAX_ITERATIONS as nat) + ") reached"@,
{
    let mut v: Vec<char> = Vec::new();
    push_str_chars(&mut v, "Max iterations (");
    push_decimal(&mut v, crate::agent::MAX_ITERATIONS as u64);
    push_str_chars(&mut v, ") reached");
    chars_to_string(v.as_slice())
}

// ─── Laws ───

/// A command's time limit is always between 1 and 300 seconds.
pub proof fn law_timeout_bounded(requested: Option<i64>)
    ensures
        1 <= timeout_secs(requested) <= MAX_TIMEOUT,
{
}

/// `read_file` shows at most `limit` lines, all within the file.
pub proof fn law_read_window_bounded(n: nat, offset: usize, limit: usize)
    ensures
        read_start(n, offset) <= read_end(n, offset, limit) <= n,
        read_end(n, offset, limit) - read_start(n, offset) <= limit,
{
}

/// A successful edit replaces exactly one occurrence: the text before and
/// after it is kept, and the length changes by the difference of the two
/// strings.
pub proof fn law_edit_replaces_once(content: Seq<char>, old: Seq<char>, new: Seq<char>)
    requires
        edit_spec(content, old, new) is Ok,
    ensures
        count_from(content, old, 0) == 1,
        ({
            let k = find_from(content, old, 0);
            let r = edit_spec(content, old, new)->Ok_0;
            &&& matches_at(content, old, k)
            &&& r.take(k) == content.take(k)
            &&& r.len() == content.len() - old.len() + new.len()
        }),
{
    lemma_find_from(content, old, 0);
    let k = find_from(content, old, 0);
    let r = edit_spec(content, old, new)->Ok_0;
    assert(r.take(k) =~= content.take(k));
}
} // verus!
