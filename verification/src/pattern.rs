//! Regular expressions, compiled and matched by the `regex` crate.
use vstd::prelude::*;

verus! {

#[verifier::external_type_specification]
#[verifier::external_body]
pub struct ExRegex(regex::Regex);

/// Whether the regular expression `pattern` matches somewhere in `text`
/// (`Regex::is_match`).
pub uninterp spec fn regex_match(pattern: Seq<char>, text: Seq<char>) -> bool;

/// Whether `pattern` is a regular expression the crate accepts (`Regex::new`
/// succeeds).
pub uninterp spec fn regex_valid(pattern: Seq<char>) -> bool;

/// What `regex::Error` displays for an expression that does not compile
/// (`Regex::new` fails).
pub uninterp spec fn regex_error(pattern: Seq<char>) -> Seq<char>;

/// A compiled regular expression with its source.
pub struct Pattern {
    source: String,
    re: regex::Regex,
}

impl Pattern {
    /// The expression it was compiled from.
    pub closed spec fn source(&self) -> Seq<char> {
        self.source@
    }
}

/// `regex::Regex::new`; when the expression does not compile, the error as
/// it is displayed.
#[verifier::external_body]
pub(crate) fn compile_pattern(pattern: &str) -> (r: Result<Pattern, String>)
    ensures
        r is Ok == regex_valid(pattern@),
        r matches Ok(p) ==> p.source() == pattern@,
        r matches Err(e) ==> e@ == regex_error(pattern@),
{
    match regex::Regex::new(pattern) {
        Ok(re) => Ok(Pattern { source: pattern.to_string(), re }),
        Err(e) => Err(e.to_string()),
    }
}

/// `regex::Regex::is_match`.
#[verifier::external_body]
pub(crate) fn pattern_matches(p: &Pattern, text: &str) -> (r: bool)
    ensures
        r == regex_match(p.source(), text@),
{
    p.re.is_match(text)
}

/// Whether the expression `pattern` is valid and matches in `text`.
pub open spec fn hits(pattern: Seq<char>, text: Seq<char>) -> bool {
    regex_valid(pattern) && regex_match(pattern, text)
}

/// Test the `i`-th compiled expression on `text`; one that did not compile
/// matches nothing.
pub fn matches_text(patterns: &Vec<Option<Pattern>>, i: usize, text: &str) -> (r: bool)
    requires
        i < patterns@.len(),
    ensures
        match patterns@[i as int] {
            Some(p) => r == regex_match(p.source(), text@),
            None => !r,
        },
{
    match &patterns[i] {
        Some(p) => pattern_matches(p, text),
        None => false,
    }
}

/// Compile each expression.
pub fn compile_all(sources: &Vec<&str>) -> (r: Vec<Option<Pattern>>)
    ensures
        r@.len() == sources@.len(),
        forall|i: int|
            0 <= i < r@.len() ==> (#[trigger] r@[i] matches Some(p) ==> p.source() == sources@[i]@),
        forall|i: int| 0 <= i < r@.len() ==> (#[trigger] r@[i] is Some == regex_valid(sources@[i]@)),
{
    let mut r: Vec<Option<Pattern>> = Vec::new();
    let mut i: usize = 0;
    while i < sources.len()
        invariant
            i <= sources@.len(),
            r@.len() == i,
            forall|j: int|
                0 <= j < i ==> (#[trigger] r@[j] matches Some(p) ==> p.source() == sources@[j]@),
            forall|j: int| 0 <= j < i ==> (#[trigger] r@[j] is Some == regex_valid(sources@[j]@)),
        decreases sources@.len() - i,
    {
        let p = match compile_pattern(sources[i]) {
            Ok(p) => Some(p),
            Err(_) => None,
        };
        r.push(p);
        i = i + 1;
    }
    r
}

} // verus!
