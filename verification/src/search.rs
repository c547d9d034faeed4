//! File search: which files and directories a search visits, how a match
//! is written, and how the results are reported.
//!
//! Walking directories and reading files is done by the application.
use vstd::prelude::*;
use crate::json::{json_bool, json_bool_at, json_i64, json_i64_at, json_str, json_str_at};
use crate::pattern::{compile_pattern, pattern_matches, regex_error, regex_match, regex_valid, Pattern};
use crate::text::{
    chars_to_string, concat_strs, copy_string, decimal, join, join_strings, lines, lowercase,
    push_all, push_decimal, push_str_chars, split_lines, str_eq, str_to_chars, string_views,
    to_lowercase, trim_by, trim_end_by, trim_matches, views,
};

verus! {

/// Matches collected before a search stops.
pub const MAX_MATCHES: usize = 200;

/// Files listed before a glob search stops.
pub const MAX_FILE_MATCHES: usize = 500;

/// Whether the glob `pattern` compiles and matches the whole file name
/// (`glob::Pattern::new`, then `Pattern::matches`; false when it does not
/// compile).
pub uninterp spec fn glob_name_match(pattern: Seq<char>, name: Seq<char>) -> bool;

/// `glob::Pattern::new`, then `Pattern::matches`.
#[verifier::external_body]
pub(crate) fn glob_match_name(pattern: &str, name: &str) -> (r: bool)
    ensures
        r == glob_name_match(pattern@, name@),
{
    glob::Pattern::new(pattern).map(|p| p.matches(name)).unwrap_or(false)
}

/// Whether `s` ends with `suffix`.
pub open spec fn ends_with(s: Seq<char>, suffix: Seq<char>) -> bool {
    suffix.len() <= s.len() && s.skip(s.len() - suffix.len()) == suffix
}

fn ends_with_chars(s: &[char], suffix: &str) -> (r: bool)
    ensures
        r == ends_with(s@, suffix@),
{
    let x = str_to_chars(suffix);
    if x.len() > s.len() {
        return false;
    }
    let start = s.len() - x.len();
    let r = crate::text::matches_at_exec(s, x.as_slice(), start);
    assert(s@.subrange(start as int, start + x@.len()) =~= s@.skip(start as int));
    r
}

/// Extensions of files that are not searched.
pub open spec fn binary_exts() -> Seq<Seq<char>> {
    seq![
        ".exe"@, ".bin"@, ".so"@, ".dll"@, ".dylib"@, ".png"@, ".jpg"@, ".jpeg"@, ".gif"@,
        ".bmp"@, ".ico"@, ".zip"@, ".tar"@, ".gz"@, ".bz2"@, ".7z"@, ".pdf"@, ".mp3"@, ".mp4"@,
        ".wasm"@, ".o"@, ".a"@,
    ]
}

/// The extensions of the native search: those of `binary_exts` and compiled
/// Java and Python files.
pub open spec fn native_binary_exts() -> Seq<Seq<char>> {
    binary_exts() + seq![".class"@, ".pyc"@, ".pyo"@]
}

/// Whether the lower-cased name ends with one of `exts`.
pub open spec fn has_ext(name: Seq<char>, exts: Seq<Seq<char>>) -> bool {
    exists|i: int| 0 <= i < exts.len() && ends_with(lowercase(name), #[trigger] exts[i])
}

fn binary_ext_list(native: bool) -> (r: Vec<&'static str>)
    ensures
        crate::html_preprocess::string_slices(r@) == if native {
            native_binary_exts()
        } else {
            binary_exts()
        },
{
    let mut r: Vec<&'static str> = Vec::new();
    r.push(".exe");
    r.push(".bin");
    r.push(".so");
    r.push(".dll");
    r.push(".dylib");
    r.push(".png");
    r.push(".jpg");
    r.push(".jpeg");
    r.push(".gif");
    r.push(".bmp");
    r.push(".ico");
    r.push(".zip");
    r.push(".tar");
    r.push(".gz");
    r.push(".bz2");
    r.push(".7z");
    r.push(".pdf");
    r.push(".mp3");
    r.push(".mp4");
    r.push(".wasm");
    r.push(".o");
    r.push(".a");
    if native {
        r.push(".class");
        r.push(".pyc");
        r.push(".pyo");
    }
    assert(crate::html_preprocess::string_slices(r@) =~= if native {
        native_binary_exts()
    } else {
        binary_exts()
    });
    r
}

pub(crate) fn has_ext_exec(name: &str, native: bool) -> (r: bool)
    ensures
        r == has_ext(
            name@,
            if native {
                native_binary_exts()
            } else {
                binary_exts()
            },
        ),
{
    let exts = binary_ext_list(native);
    let ghost e = crate::html_preprocess::string_slices(exts@);
    let lower = to_lowercase(name);
    let lc = str_to_chars(lower.as_str());
    let mut i: usize = 0;
    while i < exts.len()
        invariant
            i <= exts@.len() == e.len(),
            e == crate::html_preprocess::string_slices(exts@),
            e == (if native {
                native_binary_exts()
            } else {
                binary_exts()
            }),
            lc@ == lowercase(name@),
            forall|j: int| 0 <= j < i ==> !ends_with(lowercase(name@), #[trigger] e[j]),
        decreases exts@.len() - i,
    {
        if ends_with_chars(lc.as_slice(), exts[i]) {
            proof {
                let target = if native {
                    native_binary_exts()
                } else {
                    binary_exts()
                };
                assert(e == target);
                assert(ends_with(lowercase(name@), target[i as int]));
            }
            return true;
        }
        i = i + 1;
    }
    false
}

/// Whether a file is skipped as binary by its name.
pub fn is_binary(name: &str) -> (r: bool)
    ensures
        r == has_ext(name@, binary_exts()),
{
    has_ext_exec(name, false)
}

/// Directories a search does not enter.
pub open spec fn skip_dirs() -> Seq<Seq<char>> {
    seq![".git"@, "node_modules"@, "target"@, "vendor"@, "__pycache__"@]
}

/// Directories the native search does not enter.
pub open spec fn native_skip_dirs() -> Seq<Seq<char>> {
    skip_dirs() + seq![".hg"@, ".svn"@, "dist"@, "build"@]
}

/// Whether a directory is skipped.
pub fn is_skipped_dir(name: &str, native: bool) -> (r: bool)
    ensures
        r == (if native {
            native_skip_dirs()
        } else {
            skip_dirs()
        }).contains(name@),
{
    proof {
        reveal_strlit(".git");
    }
    let base = str_eq(name, ".git") || str_eq(name, "node_modules") || str_eq(name, "target")
        || str_eq(name, "vendor") || str_eq(name, "__pycache__");
    let extra = native && (str_eq(name, ".hg") || str_eq(name, ".svn") || str_eq(name, "dist")
        || str_eq(name, "build"));
    let ghost d = if native {
        native_skip_dirs()
    } else {
        skip_dirs()
    };
    proof {
        if d.contains(name@) {
            let j = choose|j: int| 0 <= j < d.len() && d[j] == name@;
            assert(base || extra);
        }
        if base {
            assert(d.contains(name@)) by {
                if name@ == ".git"@ {
                    assert(d[0] == name@);
                } else if name@ == "node_modules"@ {
                    assert(d[1] == name@);
                } else if name@ == "target"@ {
                    assert(d[2] == name@);
                } else if name@ == "vendor"@ {
                    assert(d[3] == name@);
                } else {
                    assert(d[4] == name@);
                }
            }
        }
        if extra {
            assert(d.contains(name@)) by {
                if name@ == ".hg"@ {
                    assert(d[5] == name@);
                } else if name@ == ".svn"@ {
                    assert(d[6] == name@);
                } else if name@ == "dist"@ {
                    assert(d[7] == name@);
                } else {
                    assert(d[8] == name@);
                }
            }
        }
    }
    base || extra
}

/// Whether a file is searched: not binary by its name, and matching the
/// glob given for names, if any.
pub open spec fn file_searched(name: Seq<char>, name_glob: Option<Seq<char>>, native: bool) -> bool {
    &&& !has_ext(
        name,
        if native {
            native_binary_exts()
        } else {
            binary_exts()
        },
    )
    &&& match name_glob {
        Some(p) => glob_name_match(p, name),
        None => true,
    }
}

/// Whether a file is searched.
pub fn should_search_file(name: &str, name_glob: Option<&str>, native: bool) -> (r: bool)
    ensures
        r == file_searched(
            name@,
            match name_glob {
                Some(p) => Some(p@),
                None => None,
            },
            native,
        ),
{
    if has_ext_exec(name, native) {
        return false;
    }
    match name_glob {
        Some(p) => glob_match_name(p, name),
        None => true,
    }
}

/// A match as reported: `path:line: text`.
pub open spec fn match_line(path: Seq<char>, line_no: nat, text: Seq<char>) -> Seq<char> {
    path + seq![':'] + decimal(line_no) + ": "@ + text
}

/// Write a match; the native search first removes the line ending (`\n`,
/// then `\r`) the searcher leaves on the line.
pub fn format_match(path: &str, line_no: u64, text: &str, native: bool) -> (r: String)
    ensures
        r@ == match_line(
            path@,
            line_no as nat,
            if native {
                trim_end_by(trim_end_by(text@, Some('\n')), Some('\r'))
            } else {
                text@
            },
        ),
{
    let mut v: Vec<char> = Vec::new();
    push_str_chars(&mut v, path);
    v.push(':');
    push_decimal(&mut v, line_no);
    push_str_chars(&mut v, ": ");
    let t = str_to_chars(text);
    if native {
        let a = crate::text::trim_end_by_chars(t.as_slice(), Some('\n'));
        let b = crate::text::trim_end_by_chars(a.as_slice(), Some('\r'));
        push_all(&mut v, b.as_slice());
    } else {
        push_all(&mut v, t.as_slice());
    }
    chars_to_string(v.as_slice())
}

/// The expression of a content search, compiled; an expression that does
/// not compile is refused with the error `regex` gives.
pub fn grep_pattern(pattern: &str) -> (r: Result<Pattern, String>)
    ensures
        match r {
            Ok(p) => regex_valid(pattern@) && p.source() == pattern@,
            Err(e) => !regex_valid(pattern@) && e@ == "Invalid regex: "@ + regex_error(pattern@),
        },
{
    match compile_pattern(pattern) {
        Ok(p) => Ok(p),
        Err(e) => Err(concat_strs("Invalid regex: ", e.as_str())),
    }
}

/// The matches of a file's lines from line `i` on, appended to `acc`: each
/// line that the expression matches, as `rel:n: line`, until `MAX_MATCHES`
/// results are held.
pub open spec fn grep_from(
    pattern: Seq<char>,
    rel: Seq<char>,
    ls: Seq<Seq<char>>,
    i: int,
    acc: Seq<Seq<char>>,
) -> Seq<Seq<char>>
    decreases ls.len() - i,
{
    if i < 0 || i >= ls.len() {
        acc
    } else if regex_match(pattern, ls[i]) {
        let next = acc.push(match_line(rel, (i + 1) as nat, ls[i]));
        if next.len() >= MAX_MATCHES {
            next
        } else {
            grep_from(pattern, rel, ls, i + 1, next)
        }
    } else {
        grep_from(pattern, rel, ls, i + 1, acc)
    }
}

/// Search a file's content line by line, adding each match to `results`
/// until `MAX_MATCHES` are held.
pub fn grep_lines(re: &Pattern, rel: &str, content: &str, results: &mut Vec<String>)
    ensures
        string_views(final(results)@) == grep_from(
            re.source(),
            rel@,
            lines(content@),
            0,
            string_views(old(results)@),
        ),
{
    let c = str_to_chars(content);
    let ls = split_lines(c.as_slice());
    let ghost lv = views(ls@);
    let mut i: usize = 0;
    while i < ls.len()
        invariant
            i <= ls@.len(),
            lv == views(ls@),
            lv == lines(content@),
            grep_from(re.source(), rel@, lv, 0, string_views(old(results)@)) == grep_from(
                re.source(),
                rel@,
                lv,
                i as int,
                string_views(results@),
            ),
        decreases ls@.len() - i,
    {
        let line = chars_to_string(ls[i].as_slice());
        assert(line@ == lv[i as int]);
        if pattern_matches(re, line.as_str()) {
            let ghost before = string_views(results@);
            let entry = format_match(rel, (i + 1) as u64, line.as_str(), false);
            results.push(entry);
            assert(string_views(results@) =~= before.push(
                match_line(rel@, (i + 1) as nat, lv[i as int]),
            ));
            if results.len() >= MAX_MATCHES {
                return;
            }
        }
        i = i + 1;
    }
}

/// The report of a content search: the matches one per line, with a note
/// when the limit was reached; a fixed sentence when there are none.
pub open spec fn grep_report(results: Seq<Seq<char>>) -> Seq<char> {
    if results.len() == 0 {
        "No matches found."@
    } else {
        join(results, seq!['\n']) + if results.len() >= MAX_MATCHES {
            "\n[Results truncated at "@ + decimal(MAX_MATCHES as nat) + " matches]"@
        } else {
            seq![]
        }
    }
}

/// The report of a content search.
pub fn format_grep_results(results: &Vec<String>) -> (r: String)
    ensures
        r@ == grep_report(string_views(results@)),
{
    if results.len() == 0 {
        return copy_string("No matches found.");
    }
    let mut out = join_strings(results, "\n");
    proof {
        reveal_strlit("\n");
        assert("\n"@ =~= seq!['\n']);
    }
    if results.len() >= MAX_MATCHES {
        push_str_chars(&mut out, "\n[Results truncated at ");
        push_decimal(&mut out, MAX_MATCHES as u64);
        push_str_chars(&mut out, " matches]");
    }
    chars_to_string(out.as_slice())
}

/// The report of a file search: the paths one per line, with a note when
/// the limit was reached; a fixed sentence when there are none.
pub open spec fn glob_report(matches: Seq<Seq<char>>) -> Seq<char> {
    if matches.len() == 0 {
        "No matching files found."@
    } else {
        join(matches, seq!['\n']) + if matches.len() >= MAX_FILE_MATCHES {
            "\n[Results truncated at "@ + decimal(MAX_FILE_MATCHES as nat) + " files]"@
        } else {
            seq![]
        }
    }
}

/// The report of a file search.
pub fn format_glob_results(matches: &Vec<String>) -> (r: String)
    ensures
        r@ == glob_report(string_views(matches@)),
{
    if matches.len() == 0 {
        return copy_string("No matching files found.");
    }
    let mut out = join_strings(matches, "\n");
    proof {
        reveal_strlit("\n");
        assert("\n"@ =~= seq!['\n']);
    }
    if matches.len() >= MAX_FILE_MATCHES {
        push_str_chars(&mut out, "\n[Results truncated at ");
        push_decimal(&mut out, MAX_FILE_MATCHES as u64);
        push_str_chars(&mut out, " files]");
    }
    chars_to_string(out.as_slice())
}

/// Whether a path that a glob found is listed: none of its components is a
/// directory the native search skips.
pub open spec fn glob_path_listed(components: Seq<Seq<char>>) -> bool {
    forall|k: int| 0 <= k < components.len() ==> !native_skip_dirs().contains(#[trigger] components[k])
}

/// Whether a path that a glob found is listed.
pub fn glob_path_listed_exec(components: &Vec<String>) -> (r: bool)
    ensures
        r == glob_path_listed(string_views(components@)),
{
    let mut k: usize = 0;
    while k < components.len()
        invariant
            k <= components@.len(),
            forall|j: int| 0 <= j < k ==> !native_skip_dirs().contains(#[trigger] components@[j]@),
        decreases components@.len() - k,
    {
        if is_skipped_dir(components[k].as_str(), true) {
            assert(string_views(components@)[k as int] == components@[k as int]@);
            return false;
        }
        k = k + 1;
    }
    assert forall|j: int| 0 <= j < string_views(components@).len() implies !native_skip_dirs().contains(
        #[trigger] string_views(components@)[j],
    ) by {
        assert(string_views(components@)[j] == components@[j]@);
    }
    true
}

/// The paths a glob search lists, as they are found: the listed ones are
/// counted, up to `MAX_FILE_MATCHES`, and each counted one that lies under
/// the base is kept by its relative path.
pub struct GlobSelection {
    counted: usize,
    matches: Vec<String>,
}

impl GlobSelection {
    /// The listed paths counted so far.
    pub closed spec fn counted(&self) -> nat {
        self.counted as nat
    }

    /// The relative paths kept so far, in order.
    pub closed spec fn kept(&self) -> Seq<Seq<char>> {
        string_views(self.matches@)
    }

    /// No more paths are kept than counted.
    pub closed spec fn wf(&self) -> bool {
        self.matches@.len() <= self.counted
    }

    pub fn new() -> (r: Self)
        ensures
            r.wf(),
            r.counted() == 0,
            r.kept() == Seq::<Seq<char>>::empty(),
    {
        let r = GlobSelection { counted: 0, matches: Vec::new() };
        assert(r.kept() =~= Seq::<Seq<char>>::empty());
        r
    }

    /// Offer the next path the glob found, by its components and its path
    /// relative to the base (`None` when it is not under the base). Returns
    /// whether more paths are wanted.
    pub fn offer(&mut self, components: &Vec<String>, relative: Option<String>) -> (more: bool)
        requires
            old(self).wf(),
            old(self).counted() < MAX_FILE_MATCHES,
        ensures
            final(self).wf(),
            glob_path_listed(string_views(components@)) ==> {
                &&& final(self).counted() == old(self).counted() + 1
                &&& final(self).kept() == match relative {
                    Some(r) => old(self).kept().push(r@),
                    None => old(self).kept(),
                }
            },
            !glob_path_listed(string_views(components@)) ==> final(self).counted() == old(
                self,
            ).counted() && final(self).kept() == old(self).kept(),
            more == (final(self).counted() < MAX_FILE_MATCHES),
    {
        if glob_path_listed_exec(components) {
            self.counted = self.counted + 1;
            match relative {
                Some(r) => {
                    let ghost before = self.kept();
                    self.matches.push(r);
                    assert(self.kept() =~= before.push(self.matches@.last()@));
                },
                None => {},
            }
        }
        self.counted < MAX_FILE_MATCHES
    }

    /// The relative paths kept, for the report.
    pub fn into_matches(self) -> (r: Vec<String>)
        ensures
            string_views(r@) == self.kept(),
    {
        self.matches
    }
}

/// Whether a search has collected all the matches it reports.
pub fn search_full(results: &Vec<String>) -> (r: bool)
    ensures
        r == (results@.len() >= MAX_MATCHES),
{
    results.len() >= MAX_MATCHES
}

/// A content search: the expression, where to search (`.` by default), a
/// glob for file names, case-insensitivity, and lines of context.
pub struct GrepRequest {
    pub pattern: String,
    pub path: String,
    pub name_glob: Option<String>,
    pub case_insensitive: bool,
    pub context_lines: usize,
}

/// The arguments of `grep`: `pattern` is required; negative context counts
/// as none.
pub fn grep_request(args: &str) -> (r: Result<GrepRequest, String>)
    ensures
        match json_str_at(args@, "/pattern"@) {
            None => r matches Err(e) && e@ == "pattern required"@,
            Some(p) => r matches Ok(q) && {
                &&& q.pattern@ == p
                &&& q.path@ == match json_str_at(args@, "/path"@) {
                    Some(x) => x,
                    None => "."@,
                }
                &&& crate::json::opt_view(q.name_glob) == json_str_at(args@, "/include"@)
                &&& q.case_insensitive == match json_bool_at(args@, "/case_insensitive"@) {
                    Some(b) => b,
                    None => false,
                }
                &&& q.context_lines == (match json_i64_at(args@, "/context_lines"@) {
                    Some(c) => if c < 0 {
                        0
                    } else {
                        c
                    },
                    None => 0,
                }) as usize
            },
        },
{
    let pattern = match json_str(args, "/pattern") {
        Some(p) => p,
        None => {
            return Err(copy_string("pattern required"));
        },
    };
    let path = match json_str(args, "/path") {
        Some(x) => x,
        None => copy_string("."),
    };
    let name_glob = json_str(args, "/include");
    let case_insensitive = match json_bool(args, "/case_insensitive") {
        Some(b) => b,
        None => false,
    };
    let context: i64 = match json_i64(args, "/context_lines") {
        Some(c) => if c < 0 {
            0
        } else {
            c
        },
        None => 0,
    };
    Ok(GrepRequest { pattern, path, name_glob, case_insensitive, context_lines: context as usize })
}

/// The arguments of `glob`: `pattern` is required, the base path is `.` by
/// default.
pub fn glob_request(args: &str) -> (r: Result<(String, String), String>)
    ensures
        match json_str_at(args@, "/pattern"@) {
            None => r matches Err(e) && e@ == "pattern required"@,
            Some(p) => r matches Ok((a, b)) && a@ == p && b@ == match json_str_at(
                args@,
                "/path"@,
            ) {
                Some(x) => x,
                None => "."@,
            },
        },
{
    let pattern = match json_str(args, "/pattern") {
        Some(p) => p,
        None => {
            return Err(copy_string("pattern required"));
        },
    };
    let path = match json_str(args, "/path") {
        Some(x) => x,
        None => copy_string("."),
    };
    Ok((pattern, path))
}

/// The directories a search does not enter are exactly the version control,
/// dependency and build directories: `.git`, `node_modules`, `target`,
/// `vendor`, `__pycache__`, and for the native search also `.hg`, `.svn`,
/// `dist` and `build`.
pub proof fn law_skipped_directories(name: Seq<char>)
    ensures
        skip_dirs().contains(name) <==> (name == ".git"@ || name == "node_modules"@ || name
            == "target"@ || name == "vendor"@ || name == "__pycache__"@),
        native_skip_dirs().contains(name) <==> (name == ".git"@ || name == "node_modules"@
            || name == "target"@ || name == "vendor"@ || name == "__pycache__"@ || name == ".hg"@
            || name == ".svn"@ || name == "dist"@ || name == "build"@),
{
    let d = skip_dirs();
    let n = native_skip_dirs();
    if name == ".git"@ {
        assert(d[0] == name && n[0] == name);
    } else if name == "node_modules"@ {
        assert(d[1] == name && n[1] == name);
    } else if name == "target"@ {
        assert(d[2] == name && n[2] == name);
    } else if name == "vendor"@ {
        assert(d[3] == name && n[3] == name);
    } else if name == "__pycache__"@ {
        assert(d[4] == name && n[4] == name);
    } else if name == ".hg"@ {
        assert(n[5] == name);
    } else if name == ".svn"@ {
        assert(n[6] == name);
    } else if name == "dist"@ {
        assert(n[7] == name);
    } else if name == "build"@ {
        assert(n[8] == name);
    }
}

} // verus!
