//! Character-level text utilities shared by the library.
//!
//! Strings are modelled by their sequence of characters (`s@`). The
//! functions here mirror the behaviour of the `str` methods the rest of the
//! library relies on (`trim`, `trim_matches`, `lines`, `split`, `join`).
use vstd::prelude::*;

verus! {

/// Appends one character to a `String` (std `String::push`).
#[verifier::external_body]
pub(crate) fn string_push(s: &mut String, c: char)
    ensures
        final(s)@ == old(s)@.push(c),
{
    s.push(c);
}

/// The characters of a string slice, in order.
pub fn str_to_chars(s: &str) -> (r: Vec<char>)
    ensures
        r@ == s@,
{
    let mut r: Vec<char> = Vec::new();
    for c in it: s.chars()
        invariant
            r@ == it.seq().take(it.index() as int),
            it.seq() == s@,
    {
        r.push(c);
    }
    r
}

/// Builds a `String` holding exactly the given characters.
pub fn chars_to_string(v: &[char]) -> (r: String)
    ensures
        r@ == v@,
{
    let mut r = String::new();
    let mut i: usize = 0;
    while i < v.len()
        invariant
            i <= v@.len(),
            r@ == v@.take(i as int),
        decreases v@.len() - i,
    {
        string_push(&mut r, v[i]);
        i = i + 1;
        assert(v@.take(i as int) =~= v@.take((i - 1) as int).push(v@[i - 1]));
    }
    assert(v@.take(v@.len() as int) =~= v@);
    r
}

/// Appends all characters of `src` to the end of `dst`.
pub fn push_all(dst: &mut Vec<char>, src: &[char])
    ensures
        final(dst)@ == old(dst)@ + src@,
{
    let mut i: usize = 0;
    while i < src.len()
        invariant
            i <= src@.len(),
            dst@ == old(dst)@ + src@.take(i as int),
        decreases src@.len() - i,
    {
        dst.push(src[i]);
        i = i + 1;
        assert(src@.take(i as int) =~= src@.take((i - 1) as int).push(src@[i - 1]));
    }
    assert(src@.take(src@.len() as int) =~= src@);
}

/// Appends the characters of a string slice to the end of `dst`.
pub fn push_str_chars(dst: &mut Vec<char>, s: &str)
    ensures
        final(dst)@ == old(dst)@ + s@,
{
    let v = str_to_chars(s);
    push_all(dst, v.as_slice());
}

/// Whether two character sequences are equal.
pub fn chars_eq(a: &[char], b: &[char]) -> (r: bool)
    ensures
        r == (a@ == b@),
{
    if a.len() != b.len() {
        return false;
    }
    let mut i: usize = 0;
    while i < a.len()
        invariant
            i <= a@.len() == b@.len(),
            forall|j: int| 0 <= j < i ==> a@[j] == b@[j],
        decreases a@.len() - i,
    {
        if a[i] != b[i] {
            return false;
        }
        i = i + 1;
    }
    assert(a@ =~= b@);
    true
}

/// Whether two strings hold the same characters (`str == str`).
pub fn str_eq(a: &str, b: &str) -> (r: bool)
    ensures
        r == (a@ == b@),
{
    let x = str_to_chars(a);
    let y = str_to_chars(b);
    chars_eq(x.as_slice(), y.as_slice())
}

/// A copy of a string (`str::to_string`).
pub fn copy_string(s: &str) -> (r: String)
    ensures
        r@ == s@,
{
    let v = str_to_chars(s);
    chars_to_string(v.as_slice())
}

/// The characters `s[lo..hi]` as a new vector.
pub fn copy_range(s: &[char], lo: usize, hi: usize) -> (r: Vec<char>)
    requires
        lo <= hi <= s@.len(),
    ensures
        r@ == s@.subrange(lo as int, hi as int),
        r@.len() == hi - lo,
{
    let mut r: Vec<char> = Vec::new();
    let mut i: usize = lo;
    while i < hi
        invariant
            lo <= i <= hi <= s@.len(),
            r@ == s@.subrange(lo as int, i as int),
        decreases hi - i,
    {
        r.push(s[i]);
        i = i + 1;
        assert(s@.subrange(lo as int, i as int) =~= s@.subrange(lo as int, (i - 1) as int).push(
            s@[i - 1],
        ));
    }
    r
}

/// `n` copies of the character `c`.
pub open spec fn repeat_char(c: char, n: nat) -> Seq<char> {
    Seq::new(n, |_i: int| c)
}

/// `n` copies of the character `c` (std `str::repeat` on a one-character string).
pub fn repeat_chars(c: char, n: usize) -> (r: Vec<char>)
    ensures
        r@ == repeat_char(c, n as nat),
{
    let mut r: Vec<char> = Vec::new();
    let mut i: usize = 0;
    while i < n
        invariant
            i <= n,
            r@ == repeat_char(c, i as nat),
        decreases n - i,
    {
        r.push(c);
        i = i + 1;
        assert(r@ =~= repeat_char(c, i as nat));
    }
    r
}

// ─── UTF-8 byte lengths ───

/// Bytes in the UTF-8 encoding of `c` (`char::len_utf8`).
pub open spec fn char_len(c: char) -> nat {
    let u = c as u32;
    if u <= 0x7f {
        1
    } else if u <= 0x7ff {
        2
    } else if u <= 0xffff {
        3
    } else {
        4
    }
}

/// Bytes in the UTF-8 encoding of `s` (`str::len`).
pub open spec fn byte_len(s: Seq<char>) -> nat
    decreases s.len(),
{
    if s.len() == 0 {
        0
    } else {
        char_len(s[0]) + byte_len(s.drop_first())
    }
}

/// `byte_len` is the length of vstd's UTF-8 encoding, which `str::len` returns.
pub proof fn lemma_byte_len_is_utf8_len(s: Seq<char>)
    ensures
        byte_len(s) == vstd::utf8::encode_utf8(s).len(),
    decreases s.len(),
{
    if s.len() > 0 {
        vstd::utf8::char_is_scalar(s[0]);
        lemma_byte_len_is_utf8_len(s.drop_first());
    }
}

pub proof fn lemma_byte_len_push(s: Seq<char>, c: char)
    ensures
        byte_len(s.push(c)) == byte_len(s) + char_len(c),
    decreases s.len(),
{
    if s.len() > 0 {
        assert(s.push(c).drop_first() =~= s.drop_first().push(c));
        assert(s.push(c)[0] == s[0]);
        lemma_byte_len_push(s.drop_first(), c);
    } else {
        assert(s.push(c).drop_first() =~= seq![]);
        assert(s.push(c)[0] == c);
        assert(byte_len(s.push(c).drop_first()) == 0);
    }
}

pub proof fn lemma_byte_len_concat(a: Seq<char>, b: Seq<char>)
    ensures
        byte_len(a + b) == byte_len(a) + byte_len(b),
    decreases a.len(),
{
    if a.len() > 0 {
        assert((a + b).drop_first() =~= a.drop_first() + b);
        lemma_byte_len_concat(a.drop_first(), b);
    } else {
        assert(a + b =~= b);
    }
}

/// A longer prefix never has fewer bytes.
pub proof fn lemma_byte_len_take_monotone(s: Seq<char>, i: int, j: int)
    requires
        0 <= i <= j <= s.len(),
    ensures
        byte_len(s.take(i)) <= byte_len(s.take(j)),
    decreases j - i,
{
    if i < j {
        lemma_byte_len_take_monotone(s, i, j - 1);
        assert(s.take(j) =~= s.take(j - 1).push(s[j - 1]));
        lemma_byte_len_push(s.take(j - 1), s[j - 1]);
    }
}

/// Bytes in the UTF-8 encoding of `c`.
pub fn utf8_len(c: char) -> (r: usize)
    ensures
        r == char_len(c),
        1 <= r <= 4,
{
    let u = c as u32;
    if u <= 0x7f {
        1
    } else if u <= 0x7ff {
        2
    } else if u <= 0xffff {
        3
    } else {
        4
    }
}

/// The longest prefix of `s` whose UTF-8 encoding fits in `max` bytes: what
/// slicing a string at `max` bytes gives after stepping back to a character
/// boundary.
pub open spec fn is_byte_prefix(s: Seq<char>, max: nat, k: int) -> bool {
    &&& 0 <= k <= s.len()
    &&& byte_len(s.take(k)) <= max
    &&& (k == s.len() || byte_len(s.take(k + 1)) > max)
}

/// Number of leading characters of `s` that fit in `max` bytes.
pub fn byte_prefix_len(s: &[char], max: usize) -> (k: usize)
    ensures
        is_byte_prefix(s@, max as nat, k as int),
{
    let mut k: usize = 0;
    let mut used: usize = 0;
    assert(s@.take(0) =~= seq![]);
    while k < s.len()
        invariant
            k <= s@.len(),
            used == byte_len(s@.take(k as int)),
            used <= max,
        decreases s@.len() - k,
    {
        let w = utf8_len(s[k]);
        proof {
            assert(s@.take(k + 1) =~= s@.take(k as int).push(s@[k as int]));
            lemma_byte_len_push(s@.take(k as int), s@[k as int]);
        }
        if w > max - used {
            return k;
        }
        used = used + w;
        k = k + 1;
    }
    k
}

/// Some prefix length is the longest that fits.
pub proof fn lemma_byte_prefix_exists(s: Seq<char>, max: nat)
    ensures
        exists|k: int| is_byte_prefix(s, max, k),
    decreases s.len(),
{
    if s.len() == 0 {
        assert(s.take(0) =~= seq![]);
        assert(is_byte_prefix(s, max, 0));
    } else {
        let t = s.drop_last();
        lemma_byte_prefix_exists(t, max);
        let k = choose|k: int| is_byte_prefix(t, max, k);
        assert(t.take(k) =~= s.take(k));
        if k < t.len() {
            assert(t.take(k + 1) =~= s.take(k + 1));
            assert(is_byte_prefix(s, max, k));
        } else {
            assert(t.take(k) =~= t);
            assert(s.take(s.len() as int) =~= s);
            assert(s.take(k + 1) =~= s);
            if byte_len(s) <= max {
                assert(is_byte_prefix(s, max, s.len() as int));
            } else {
                assert(is_byte_prefix(s, max, k));
            }
        }
    }
}

/// At most one prefix length is the longest that fits.
pub proof fn lemma_byte_prefix_unique(s: Seq<char>, max: nat, k1: int, k2: int)
    requires
        is_byte_prefix(s, max, k1),
        is_byte_prefix(s, max, k2),
    ensures
        k1 == k2,
{
    if k1 < k2 {
        lemma_byte_len_take_monotone(s, k1 + 1, k2);
    } else if k2 < k1 {
        lemma_byte_len_take_monotone(s, k2 + 1, k1);
    }
}

/// The longest prefix of `s` that fits in `max` UTF-8 bytes.
pub open spec fn byte_prefix(s: Seq<char>, max: nat) -> Seq<char> {
    s.take(choose|k: int| is_byte_prefix(s, max, k))
}

/// The longest prefix of `s` that fits in `max` UTF-8 bytes, as a new vector.
pub fn byte_prefix_chars(s: &[char], max: usize) -> (r: Vec<char>)
    ensures
        r@ == byte_prefix(s@, max as nat),
        r@ == s@.take(r@.len() as int),
        is_byte_prefix(s@, max as nat, r@.len() as int),
        byte_len(r@) <= max,
        byte_len(s@) <= max ==> r@ == s@,
        (r@.len() == s@.len()) == (byte_len(s@) <= max),
{
    let k = byte_prefix_len(s, max);
    proof {
        let c = choose|k: int| is_byte_prefix(s@, max as nat, k);
        lemma_byte_prefix_unique(s@, max as nat, k as int, c);
        lemma_byte_prefix_whole(s@, max as nat, k as int);
        assert(s@.take(s@.len() as int) =~= s@);
    }
    copy_range(s, 0, k)
}

/// The UTF-8 length of `s` (`str::len`).
pub fn byte_length(s: &[char]) -> (r: usize)
    requires
        byte_len(s@) <= usize::MAX,
    ensures
        r == byte_len(s@),
{
    let mut k: usize = 0;
    let mut used: usize = 0;
    assert(s@.take(0) =~= seq![]);
    while k < s.len()
        invariant
            k <= s@.len(),
            used == byte_len(s@.take(k as int)),
            byte_len(s@) <= usize::MAX,
        decreases s@.len() - k,
    {
        proof {
            assert(s@.take(k + 1) =~= s@.take(k as int).push(s@[k as int]));
            lemma_byte_len_push(s@.take(k as int), s@[k as int]);
            lemma_byte_len_take_monotone(s@, k + 1, s@.len() as int);
            assert(s@.take(s@.len() as int) =~= s@);
        }
        used = used + utf8_len(s[k]);
        k = k + 1;
    }
    assert(s@.take(s@.len() as int) =~= s@);
    used
}

/// The UTF-8 length of `s` when it is below `limit`; `None` when it is not.
pub fn byte_length_below(s: &[char], limit: usize) -> (r: Option<usize>)
    ensures
        match r {
            Some(b) => b == byte_len(s@) && b < limit,
            None => byte_len(s@) >= limit,
        },
{
    if limit == 0 {
        return None;
    }
    let mut k: usize = 0;
    let mut used: usize = 0;
    assert(s@.take(0) =~= seq![]);
    while k < s.len()
        invariant
            k <= s@.len(),
            used == byte_len(s@.take(k as int)),
            used < limit,
        decreases s@.len() - k,
    {
        proof {
            assert(s@.take(k + 1) =~= s@.take(k as int).push(s@[k as int]));
            lemma_byte_len_push(s@.take(k as int), s@[k as int]);
            lemma_byte_len_take_monotone(s@, k + 1, s@.len() as int);
            assert(s@.take(s@.len() as int) =~= s@);
        }
        let l = utf8_len(s[k]);
        if l >= limit - used {
            return None;
        }
        used = used + l;
        k = k + 1;
    }
    assert(s@.take(s@.len() as int) =~= s@);
    if used < limit {
        Some(used)
    } else {
        None
    }
}

/// Whether all of `s` fits in `max` bytes, as a prefix does.
pub proof fn lemma_byte_prefix_whole(s: Seq<char>, max: nat, k: int)
    requires
        is_byte_prefix(s, max, k),
    ensures
        (k == s.len()) <==> byte_len(s) <= max,
{
    assert(s.take(s.len() as int) =~= s);
    if k < s.len() {
        lemma_byte_len_take_monotone(s, k + 1, s.len() as int);
    }
}

// ─── Whitespace and trimming ───

/// Unicode `White_Space` characters, which `char::is_whitespace` recognises
/// and `str::trim` removes.
pub open spec fn is_white_space(c: char) -> bool {
    let u = c as u32;
    ||| 0x09 <= u <= 0x0d
    ||| u == 0x20
    ||| u == 0x85
    ||| u == 0xa0
    ||| u == 0x1680
    ||| 0x2000 <= u <= 0x200a
    ||| u == 0x2028
    ||| u == 0x2029
    ||| u == 0x202f
    ||| u == 0x205f
    ||| u == 0x3000
}

/// Whether `c` is a Unicode `White_Space` character.
pub fn is_whitespace_char(c: char) -> (r: bool)
    ensures
        r == is_white_space(c),
{
    let u = c as u32;
    (0x09 <= u && u <= 0x0d) || u == 0x20 || u == 0x85 || u == 0xa0 || u == 0x1680 || (0x2000
        <= u && u <= 0x200a) || u == 0x2028 || u == 0x2029 || u == 0x202f || u == 0x205f || u
        == 0x3000
}

/// What a trim removes: whitespace (`None`) or one given character.
pub open spec fn trimmed_by(pat: Option<char>, c: char) -> bool {
    match pat {
        None => is_white_space(c),
        Some(x) => c == x,
    }
}

fn trimmed_by_exec(pat: Option<char>, c: char) -> (r: bool)
    ensures
        r == trimmed_by(pat, c),
{
    match pat {
        None => is_whitespace_char(c),
        Some(x) => c == x,
    }
}

/// `s` without its leading characters matched by `pat`.
pub open spec fn trim_start_by(s: Seq<char>, pat: Option<char>) -> Seq<char>
    decreases s.len(),
{
    if s.len() > 0 && trimmed_by(pat, s[0]) {
        trim_start_by(s.drop_first(), pat)
    } else {
        s
    }
}

/// `s` without its trailing characters matched by `pat`.
pub open spec fn trim_end_by(s: Seq<char>, pat: Option<char>) -> Seq<char>
    decreases s.len(),
{
    if s.len() > 0 && trimmed_by(pat, s.last()) {
        trim_end_by(s.drop_last(), pat)
    } else {
        s
    }
}

/// `str::trim`: leading and trailing whitespace removed.
pub open spec fn trim(s: Seq<char>) -> Seq<char> {
    trim_end_by(trim_start_by(s, None), None)
}

/// `str::trim_matches(c)` for a single character `c`.
pub open spec fn trim_matches(s: Seq<char>, c: char) -> Seq<char> {
    trim_end_by(trim_start_by(s, Some(c)), Some(c))
}

proof fn lemma_trim_start_at(s: Seq<char>, pat: Option<char>, lo: int)
    requires
        0 <= lo <= s.len(),
        forall|i: int| 0 <= i < lo ==> trimmed_by(pat, #[trigger] s[i]),
        lo == s.len() || !trimmed_by(pat, s[lo]),
    ensures
        trim_start_by(s, pat) == s.subrange(lo, s.len() as int),
    decreases lo,
{
    if lo == 0 {
        assert(s.subrange(0, s.len() as int) =~= s);
    } else {
        let t = s.drop_first();
        assert forall|i: int| 0 <= i < lo - 1 implies trimmed_by(pat, #[trigger] t[i]) by {
            assert(t[i] == s[i + 1]);
        }
        lemma_trim_start_at(t, pat, lo - 1);
        assert(t.subrange(lo - 1, t.len() as int) =~= s.subrange(lo, s.len() as int));
    }
}

proof fn lemma_trim_end_at(s: Seq<char>, pat: Option<char>, hi: int)
    requires
        0 <= hi <= s.len(),
        forall|i: int| hi <= i < s.len() ==> trimmed_by(pat, #[trigger] s[i]),
        hi == 0 || !trimmed_by(pat, s[hi - 1]),
    ensures
        trim_end_by(s, pat) == s.subrange(0, hi),
    decreases s.len() - hi,
{
    if hi == s.len() {
        assert(s.subrange(0, hi) =~= s);
    } else {
        let t = s.drop_last();
        assert forall|i: int| hi <= i < t.len() implies trimmed_by(pat, #[trigger] t[i]) by {
            assert(t[i] == s[i]);
        }
        assert(trimmed_by(pat, s[s.len() - 1]));
        lemma_trim_end_at(t, pat, hi);
        assert(t.subrange(0, hi) =~= s.subrange(0, hi));
    }
}

/// Both ends of `s` trimmed of the characters matched by `pat`.
pub fn trim_by(s: &[char], pat: Option<char>) -> (r: Vec<char>)
    ensures
        r@ == trim_end_by(trim_start_by(s@, pat), pat),
        r@.len() <= s@.len(),
{
    let n = s.len();
    let mut lo: usize = 0;
    while lo < n && trimmed_by_exec(pat, s[lo])
        invariant
            lo <= n == s@.len(),
            forall|i: int| 0 <= i < lo ==> trimmed_by(pat, #[trigger] s@[i]),
        decreases n - lo,
    {
        lo = lo + 1;
    }
    proof {
        lemma_trim_start_at(s@, pat, lo as int);
    }
    let mut hi: usize = n;
    while hi > lo && trimmed_by_exec(pat, s[hi - 1])
        invariant
            lo <= hi <= n == s@.len(),
            forall|i: int| hi <= i < n ==> trimmed_by(pat, #[trigger] s@[i]),
        decreases hi,
    {
        hi = hi - 1;
    }
    proof {
        let t = s@.subrange(lo as int, n as int);
        assert forall|i: int| hi - lo <= i < t.len() implies trimmed_by(pat, #[trigger] t[i]) by {
            assert(t[i] == s@[i + lo]);
        }
        if hi == lo && lo < n {
            assert(!trimmed_by(pat, s@[lo as int]));
            assert(false);
        }
        lemma_trim_end_at(t, pat, hi - lo);
        assert(t.subrange(0, hi - lo) =~= s@.subrange(lo as int, hi as int));
    }
    copy_range(s, lo, hi)
}

/// `s` without its trailing characters matched by `pat`.
pub fn trim_end_by_chars(s: &[char], pat: Option<char>) -> (r: Vec<char>)
    ensures
        r@ == trim_end_by(s@, pat),
{
    let n = s.len();
    let mut hi: usize = n;
    while hi > 0 && trimmed_by_exec(pat, s[hi - 1])
        invariant
            hi <= n == s@.len(),
            forall|i: int| hi <= i < n ==> trimmed_by(pat, #[trigger] s@[i]),
        decreases hi,
    {
        hi = hi - 1;
    }
    proof {
        lemma_trim_end_at(s@, pat, hi as int);
    }
    copy_range(s, 0, hi)
}

/// `str::trim` on a character sequence.
pub fn trim_chars(s: &[char]) -> (r: Vec<char>)
    ensures
        r@ == trim(s@),
        r@.len() <= s@.len(),
{
    trim_by(s, None)
}

/// Whether `c` occurs in `s`.
pub fn contains_char(s: &[char], c: char) -> (r: bool)
    ensures
        r == s@.contains(c),
{
    let mut i: usize = 0;
    while i < s.len()
        invariant
            i <= s@.len(),
            forall|j: int| 0 <= j < i ==> s@[j] != c,
        decreases s@.len() - i,
    {
        if s[i] == c {
            assert(s@[i as int] == c);
            return true;
        }
        i = i + 1;
    }
    false
}

/// `str::trim_end`: trailing whitespace removed.
pub open spec fn trim_end(s: Seq<char>) -> Seq<char> {
    trim_end_by(s, None)
}

/// `str::trim_end` on a character sequence.
pub fn trim_end_chars(s: &[char]) -> (r: Vec<char>)
    ensures
        r@ == trim_end(s@),
        r@ == s@.take(r@.len() as int),
{
    let n = s.len();
    let mut hi: usize = n;
    while hi > 0 && is_whitespace_char(s[hi - 1])
        invariant
            hi <= n == s@.len(),
            forall|i: int| hi <= i < n ==> trimmed_by(None, #[trigger] s@[i]),
        decreases hi,
    {
        hi = hi - 1;
    }
    proof {
        lemma_trim_end_at(s@, None, hi as int);
    }
    copy_range(s, 0, hi)
}

// ─── Searching ───

/// Whether `pat` occurs in `s` starting at position `i`.
pub open spec fn matches_at(s: Seq<char>, pat: Seq<char>, i: int) -> bool {
    0 <= i && i + pat.len() <= s.len() && s.subrange(i, i + pat.len()) == pat
}

/// Whether `pat` occurs anywhere in `s` (`str::contains`).
pub open spec fn contains_seq(s: Seq<char>, pat: Seq<char>) -> bool {
    exists|i: int| matches_at(s, pat, i)
}

/// The last position at or below `i` where `pat` occurs, or `-1`.
pub open spec fn rfind_from(s: Seq<char>, pat: Seq<char>, i: int) -> int
    decreases i + 1,
{
    if i < 0 {
        -1
    } else if matches_at(s, pat, i) {
        i
    } else {
        rfind_from(s, pat, i - 1)
    }
}

/// The last position where `pat` occurs in `s`, or `-1` (`str::rfind`).
pub open spec fn rfind(s: Seq<char>, pat: Seq<char>) -> int {
    rfind_from(s, pat, s.len() - pat.len())
}

/// Whether `pat` occurs in `s` at position `i`.
pub fn matches_at_exec(s: &[char], pat: &[char], i: usize) -> (r: bool)
    ensures
        r == matches_at(s@, pat@, i as int),
{
    if i > s.len() || pat.len() > s.len() - i {
        return false;
    }
    let mut k: usize = 0;
    while k < pat.len()
        invariant
            k <= pat@.len(),
            i + pat@.len() <= s@.len(),
            s@.len() <= usize::MAX,
            forall|m: int| 0 <= m < k ==> s@[i + m] == pat@[m],
        decreases pat@.len() - k,
    {
        if s[i + k] != pat[k] {
            assert(s@.subrange(i as int, i + pat@.len())[k as int] != pat@[k as int]);
            return false;
        }
        k = k + 1;
    }
    assert(s@.subrange(i as int, i + pat@.len()) =~= pat@);
    true
}

/// Whether `pat` occurs anywhere in `s`.
pub fn contains_chars(s: &[char], pat: &[char]) -> (r: bool)
    ensures
        r == contains_seq(s@, pat@),
{
    let mut i: usize = 0;
    while i <= s.len()
        invariant
            i <= s@.len() + 1,
            forall|j: int| 0 <= j < i ==> !matches_at(s@, pat@, j),
        decreases s@.len() + 1 - i,
    {
        if matches_at_exec(s, pat, i) {
            return true;
        }
        if i == s.len() {
            assert forall|j: int| !matches_at(s@, pat@, j) by {
                if j > s@.len() {
                    assert(!matches_at(s@, pat@, j));
                }
            }
            return false;
        }
        i = i + 1;
    }
    false
}

/// Whether the string `s` contains the string `pat` (`str::contains`).
pub fn str_contains(s: &str, pat: &str) -> (r: bool)
    ensures
        r == contains_seq(s@, pat@),
{
    let a = str_to_chars(s);
    let b = str_to_chars(pat);
    contains_chars(a.as_slice(), b.as_slice())
}

/// The first position at or after `i` where `pat` occurs, or `-1`.
pub open spec fn find_from(s: Seq<char>, pat: Seq<char>, i: int) -> int
    decreases s.len() + 1 - i,
{
    if i < 0 || i > s.len() {
        -1
    } else if matches_at(s, pat, i) {
        i
    } else {
        find_from(s, pat, i + 1)
    }
}

/// The first position where `pat` occurs in `s`, or `-1` (`str::find`,
/// counted in characters).
pub open spec fn find_seq(s: Seq<char>, pat: Seq<char>) -> int {
    find_from(s, pat, 0)
}

/// The first position where `pat` occurs in `s`, if any.
pub fn find_chars(s: &[char], pat: &[char]) -> (r: Option<usize>)
    ensures
        match r {
            Some(k) => find_seq(s@, pat@) == k && matches_at(s@, pat@, k as int),
            None => find_seq(s@, pat@) == -1,
        },
{
    let mut i: usize = 0;
    while i <= s.len()
        invariant
            i <= s@.len() + 1,
            find_seq(s@, pat@) == find_from(s@, pat@, i as int),
        decreases s@.len() + 1 - i,
    {
        if matches_at_exec(s, pat, i) {
            return Some(i);
        }
        if i == s.len() {
            assert(find_from(s@, pat@, i + 1) == -1);
            return None;
        }
        i = i + 1;
    }
    None
}

/// Unicode lower-casing of a string (`str::to_lowercase`).
pub uninterp spec fn lowercase(s: Seq<char>) -> Seq<char>;

/// `str::to_lowercase`.
#[verifier::external_body]
pub(crate) fn to_lowercase(s: &str) -> (r: String)
    ensures
        r@ == lowercase(s@),
        s@.len() == 0 ==> r@.len() == 0,
{
    s.to_lowercase()
}

/// Whether a character is alphabetic or numeric in Unicode (`char::is_alphanumeric`).
pub uninterp spec fn alphanumeric(c: char) -> bool;

/// `char::is_alphanumeric`.
#[verifier::external_body]
pub(crate) fn is_alphanumeric(c: char) -> (r: bool)
    ensures
        r == alphanumeric(c),
{
    c.is_alphanumeric()
}

pub proof fn lemma_rfind_from(s: Seq<char>, pat: Seq<char>, i: int)
    ensures
        -1 <= rfind_from(s, pat, i),
        i >= -1 ==> rfind_from(s, pat, i) <= i,
        rfind_from(s, pat, i) >= 0 ==> matches_at(s, pat, rfind_from(s, pat, i)),
        forall|j: int| rfind_from(s, pat, i) < j <= i ==> !matches_at(s, pat, j),
    decreases i + 1,
{
    if i >= 0 && !matches_at(s, pat, i) {
        lemma_rfind_from(s, pat, i - 1);
    }
}

/// The last position where `pat` occurs in `s`, if any.
pub fn rfind_chars(s: &[char], pat: &[char]) -> (r: Option<usize>)
    ensures
        match r {
            Some(i) => rfind(s@, pat@) == i as int,
            None => rfind(s@, pat@) == -1,
        },
{
    if pat.len() > s.len() {
        assert(rfind(s@, pat@) == -1);
        return None;
    }
    if pat.len() == 0 {
        assert(s@.subrange(s@.len() as int, s@.len() as int) =~= pat@);
        return Some(s.len());
    }
    // `i` is one past the candidate position.
    let mut i: usize = s.len() - pat.len() + 1;
    while i > 0
        invariant
            i <= s@.len() - pat@.len() + 1,
            rfind(s@, pat@) == rfind_from(s@, pat@, i - 1),
        decreases i,
    {
        if matches_at_exec(s, pat, i - 1) {
            return Some(i - 1);
        }
        i = i - 1;
    }
    None
}

/// `trim_end` gives a prefix of its argument.
/// Trimming the end twice trims it once.
pub proof fn lemma_trim_end_by_idempotent(s: Seq<char>, pat: Option<char>)
    ensures
        trim_end_by(trim_end_by(s, pat), pat) == trim_end_by(s, pat),
    decreases s.len(),
{
    if s.len() > 0 && trimmed_by(pat, s.last()) {
        lemma_trim_end_by_idempotent(s.drop_last(), pat);
    }
}

pub proof fn lemma_trim_end_prefix(s: Seq<char>)
    ensures
        trim_end(s).len() <= s.len(),
        trim_end(s) == s.take(trim_end(s).len() as int),
    decreases s.len(),
{
    if s.len() > 0 && trimmed_by(None, s.last()) {
        lemma_trim_end_prefix(s.drop_last());
        assert(s.drop_last().take(trim_end(s).len() as int) =~= s.take(trim_end(s).len() as int));
    } else {
        assert(s.take(s.len() as int) =~= s);
    }
}

// ─── Decimal numbers ───

/// The decimal digit for `d < 10`.
pub open spec fn digit(d: nat) -> char {
    if d == 0 { '0' } else if d == 1 { '1' } else if d == 2 { '2' } else if d == 3 { '3' }
    else if d == 4 { '4' } else if d == 5 { '5' } else if d == 6 { '6' } else if d == 7 { '7' }
    else if d == 8 { '8' } else { '9' }
}

/// The decimal representation of `n`, as `format!("{}", n)` writes it.
pub open spec fn decimal(n: nat) -> Seq<char>
    decreases n,
{
    if n < 10 {
        seq![digit(n)]
    } else {
        decimal(n / 10).push(digit(n % 10))
    }
}

fn digit_char(d: u64) -> (c: char)
    requires
        d < 10,
    ensures
        c == digit(d as nat),
{
    if d == 0 { '0' } else if d == 1 { '1' } else if d == 2 { '2' } else if d == 3 { '3' }
    else if d == 4 { '4' } else if d == 5 { '5' } else if d == 6 { '6' } else if d == 7 { '7' }
    else if d == 8 { '8' } else { '9' }
}

/// The decimal digits of `n`.
pub fn decimal_chars(n: u64) -> (r: Vec<char>)
    ensures
        r@ == decimal(n as nat),
    decreases n,
{
    if n < 10 {
        let mut v: Vec<char> = Vec::new();
        v.push(digit_char(n));
        assert(v@ =~= seq![digit(n as nat)]);
        v
    } else {
        let mut v = decimal_chars(n / 10);
        v.push(digit_char(n % 10));
        v
    }
}

/// Appends the decimal digits of `n` to `dst`.
pub fn push_decimal(dst: &mut Vec<char>, n: u64)
    ensures
        final(dst)@ == old(dst)@ + decimal(n as nat),
{
    let d = decimal_chars(n);
    push_all(dst, d.as_slice());
}

/// The decimal representation of an integer, with a leading `'-'` when it
/// is negative.
pub open spec fn signed_decimal(n: int) -> Seq<char> {
    if n < 0 {
        seq!['-'] + decimal((-n) as nat)
    } else {
        decimal(n as nat)
    }
}

/// Appends the decimal representation of a signed integer to `dst`.
pub fn push_signed_decimal(dst: &mut Vec<char>, n: i64)
    ensures
        final(dst)@ == old(dst)@ + signed_decimal(n as int),
{
    if n < 0 {
        dst.push('-');
        let m: u64 = if n == i64::MIN {
            9223372036854775808u64
        } else {
            (-n) as u64
        };
        push_decimal(dst, m);
    } else {
        push_decimal(dst, n as u64);
    }
}

/// The concatenation of two strings.
pub fn concat_strs(a: &str, b: &str) -> (r: String)
    ensures
        r@ == a@ + b@,
{
    let mut v: Vec<char> = Vec::new();
    push_str_chars(&mut v, a);
    push_str_chars(&mut v, b);
    chars_to_string(v.as_slice())
}

// ─── Splitting ───

/// The character sequences held by a vector of character vectors.
pub open spec fn views(v: Seq<Vec<char>>) -> Seq<Seq<char>> {
    Seq::new(v.len(), |i: int| v[i]@)
}

/// Index of the first `c` in `s` at or after `i`, or `s.len()` when there is none.
pub open spec fn next_index_of(s: Seq<char>, c: char, i: int) -> int
    decreases s.len() - i,
{
    if i >= s.len() {
        s.len() as int
    } else if s[i] == c {
        i
    } else {
        next_index_of(s, c, i + 1)
    }
}

pub proof fn lemma_next_index_of(s: Seq<char>, c: char, i: int)
    requires
        0 <= i <= s.len(),
    ensures
        i <= next_index_of(s, c, i) <= s.len(),
        next_index_of(s, c, i) < s.len() ==> s[next_index_of(s, c, i)] == c,
        forall|j: int| i <= j < next_index_of(s, c, i) ==> s[j] != c,
    decreases s.len() - i,
{
    if i < s.len() && s[i] != c {
        lemma_next_index_of(s, c, i + 1);
    }
}

/// `e` is the next `c` at or after `i` when none lies in between and `e` holds
/// a `c` or is the end.
pub proof fn lemma_next_index_is(s: Seq<char>, c: char, i: int, e: int)
    requires
        0 <= i <= e <= s.len(),
        e < s.len() ==> s[e] == c,
        forall|j: int| i <= j < e ==> s[j] != c,
    ensures
        next_index_of(s, c, i) == e,
    decreases e - i,
{
    if i < e {
        lemma_next_index_is(s, c, i + 1, e);
    }
}

/// Finds the next `c` at or after `i` (or the end of `s`).
pub fn find_char_from(s: &[char], c: char, i: usize) -> (r: usize)
    requires
        i <= s@.len(),
    ensures
        r == next_index_of(s@, c, i as int),
{
    let mut j = i;
    while j < s.len() && s[j] != c
        invariant
            i <= j <= s@.len(),
            next_index_of(s@, c, i as int) == next_index_of(s@, c, j as int),
        decreases s@.len() - j,
    {
        j = j + 1;
    }
    j
}

/// A line with one trailing `'\r'` removed, as `str::lines` does before a `'\n'`.
pub open spec fn strip_cr(line: Seq<char>) -> Seq<char> {
    if line.len() > 0 && line.last() == '\r' {
        line.drop_last()
    } else {
        line
    }
}

/// The lines of `s` from position `start` on, as `str::lines` yields them.
pub open spec fn lines_from(s: Seq<char>, start: int) -> Seq<Seq<char>>
    decreases s.len() + 1 - start,
    via lines_from_decreases
{
    if start < 0 || start >= s.len() {
        seq![]
    } else {
        let e = next_index_of(s, '\n', start);
        let line = if e < s.len() {
            strip_cr(s.subrange(start, e))
        } else {
            s.subrange(start, e)
        };
        seq![line] + lines_from(s, e + 1)
    }
}

#[via_fn]
proof fn lines_from_decreases(s: Seq<char>, start: int) {
    if 0 <= start < s.len() {
        lemma_next_index_of(s, '\n', start);
    }
}

/// `str::lines`: the text split at `'\n'` (and `"\r\n"`), with no empty last
/// line after a final line ending.
pub open spec fn lines(s: Seq<char>) -> Seq<Seq<char>> {
    lines_from(s, 0)
}

/// The lines joined back together, each followed by `'\n'`.
pub open spec fn concat_lines(ls: Seq<Seq<char>>) -> Seq<char>
    decreases ls.len(),
{
    if ls.len() == 0 {
        seq![]
    } else {
        ls[0] + seq!['\n'] + concat_lines(ls.drop_first())
    }
}

/// Joining the lines of a text without `'\r'` gives back the text, with a
/// `'\n'` added at the end when the text is non-empty and lacks one.
#[verifier::rlimit(40)]
pub proof fn lemma_concat_lines_from(s: Seq<char>, start: int)
    requires
        0 <= start <= s.len(),
        !s.contains('\r'),
    ensures
        concat_lines(lines_from(s, start)) == if start == s.len() {
            seq![]
        } else if s.last() == '\n' {
            s.subrange(start, s.len() as int)
        } else {
            s.subrange(start, s.len() as int) + seq!['\n']
        },
    decreases s.len() - start,
{
    if start < s.len() {
        let e = next_index_of(s, '\n', start);
        lemma_next_index_of(s, '\n', start);
        let piece = s.subrange(start, e);
        let ls = lines_from(s, start);
        if e < s.len() && piece.len() > 0 && piece.last() == '\r' {
            assert(s[e - 1] == '\r');
            assert(s.contains('\r'));
        }
        assert(ls[0] == piece);
        assert(ls.drop_first() =~= lines_from(s, e + 1));
        assert(concat_lines(ls) == piece + seq!['\n'] + concat_lines(lines_from(s, e + 1)));
        if e < s.len() {
            lemma_concat_lines_from(s, e + 1);
            if e + 1 == s.len() {
                assert(s.last() == '\n');
                assert(lines_from(s, e + 1) =~= seq![]);
                assert(piece + seq!['\n'] =~= s.subrange(start, s.len() as int));
            } else {
                assert(piece + seq!['\n'] + s.subrange(e + 1, s.len() as int) =~= s.subrange(
                    start,
                    s.len() as int,
                ));
            }
        } else {
            assert(lines_from(s, e + 1) =~= seq![]);
            assert(concat_lines(lines_from(s, e + 1)) =~= seq![]);
            assert(s.last() != '\n');
            assert(piece =~= s.subrange(start, s.len() as int));
            assert(concat_lines(ls) =~= s.subrange(start, s.len() as int) + seq!['\n']);
        }
    } else {
        assert(lines_from(s, start) =~= seq![]);
    }
}

/// Trimming never introduces a character.
pub proof fn lemma_trim_start_contains(s: Seq<char>, pat: Option<char>, c: char)
    ensures
        trim_start_by(s, pat).contains(c) ==> s.contains(c),
    decreases s.len(),
{
    if s.len() > 0 && trimmed_by(pat, s[0]) {
        lemma_trim_start_contains(s.drop_first(), pat, c);
        if s.drop_first().contains(c) {
            let k = choose|k: int| 0 <= k < s.drop_first().len() && s.drop_first()[k] == c;
            assert(s[k + 1] == c);
        }
    }
}

/// Trimming never introduces a character.
pub proof fn lemma_trim_end_contains(s: Seq<char>, pat: Option<char>, c: char)
    ensures
        trim_end_by(s, pat).contains(c) ==> s.contains(c),
    decreases s.len(),
{
    if s.len() > 0 && trimmed_by(pat, s.last()) {
        lemma_trim_end_contains(s.drop_last(), pat, c);
        if s.drop_last().contains(c) {
            let k = choose|k: int| 0 <= k < s.drop_last().len() && s.drop_last()[k] == c;
            assert(s[k] == c);
        }
    }
}

/// `trim` never introduces a character.
pub proof fn lemma_trim_contains(s: Seq<char>, c: char)
    ensures
        trim(s).contains(c) ==> s.contains(c),
{
    lemma_trim_end_contains(trim_start_by(s, None), None, c);
    lemma_trim_start_contains(s, None, c);
}

/// Every line of `s` (from `start` on) is made of characters of `s`.
pub proof fn lemma_lines_from_contains(s: Seq<char>, start: int, k: int, c: char)
    requires
        0 <= k < lines_from(s, start).len(),
        lines_from(s, start)[k].contains(c),
    ensures
        s.contains(c),
    decreases s.len() - start,
{
    let e = next_index_of(s, '\n', start);
    lemma_next_index_of(s, '\n', start);
    let piece = s.subrange(start, e);
    if k == 0 {
        let line = lines_from(s, start)[0];
        let m = choose|m: int| 0 <= m < line.len() && line[m] == c;
        assert(line[m] == piece[m]);
        assert(s[start + m] == c);
    } else {
        assert(lines_from(s, start)[k] == lines_from(s, e + 1)[k - 1]);
        lemma_lines_from_contains(s, e + 1, k - 1, c);
    }
}

/// No line of `s` holds a newline.
pub proof fn lemma_lines_no_newline(s: Seq<char>, start: int, k: int)
    requires
        0 <= k < lines_from(s, start).len(),
    ensures
        !lines_from(s, start)[k].contains('\n'),
    decreases s.len() - start,
{
    let e = next_index_of(s, '\n', start);
    lemma_next_index_of(s, '\n', start);
    if k == 0 {
        let line = lines_from(s, start)[0];
        let piece = s.subrange(start, e);
        if line.contains('\n') {
            let m = choose|m: int| 0 <= m < line.len() && line[m] == '\n';
            assert(line[m] == piece[m]);
            assert(s[start + m] == '\n');
        }
    } else {
        assert(lines_from(s, start)[k] == lines_from(s, e + 1)[k - 1]);
        lemma_lines_no_newline(s, e + 1, k - 1);
    }
}

/// The lines of a character sequence (`str::lines`).
pub fn split_lines(s: &[char]) -> (r: Vec<Vec<char>>)
    ensures
        views(r@) == lines(s@),
        forall|k: int| 0 <= k < r@.len() ==> (#[trigger] r@[k])@.len() <= s@.len(),
{
    let n = s.len();
    let mut r: Vec<Vec<char>> = Vec::new();
    let mut start: usize = 0;
    while start < n
        invariant
            start <= n == s@.len(),
            lines(s@) == views(r@) + lines_from(s@, start as int),
            forall|k: int| 0 <= k < r@.len() ==> (#[trigger] r@[k])@.len() <= s@.len(),
        decreases n - start,
    {
        let e = find_char_from(s, '\n', start);
        proof {
            lemma_next_index_of(s@, '\n', start as int);
        }
        let mut line = copy_range(s, start, e);
        if e < n && line.len() > 0 && line[line.len() - 1] == '\r' {
            line.pop();
        }
        proof {
            assert(line@ == if e < n {
                strip_cr(s@.subrange(start as int, e as int))
            } else {
                s@.subrange(start as int, e as int)
            });
        }
        let ghost old_dv = views(r@);
        r.push(line);
        assert(views(r@) =~= old_dv.push(line@));
        assert(lines_from(s@, start as int) == seq![line@] + lines_from(s@, e + 1));
        assert(lines(s@) =~= views(r@) + lines_from(s@, e + 1));
        if e >= n {
            start = n;
            assert(lines_from(s@, e + 1) =~= seq![]);
            assert(lines_from(s@, n as int) =~= seq![]);
        } else {
            start = e + 1;
        }
    }
    assert(lines_from(s@, start as int) =~= seq![]);
    assert(lines(s@) =~= views(r@));
    r
}

/// The pieces of `s` from position `start` on between occurrences of `c`,
/// as `str::split(c)` yields them.
pub open spec fn split_from(s: Seq<char>, c: char, start: int) -> Seq<Seq<char>>
    decreases s.len() + 1 - start,
{
    if start < 0 || start > s.len() {
        seq![]
    } else {
        let e = next_index_of(s, c, start);
        proof {
            lemma_next_index_of(s, c, start);
        }
        if e >= s.len() {
            seq![s.subrange(start, s.len() as int)]
        } else {
            seq![s.subrange(start, e)] + split_from(s, c, e + 1)
        }
    }
}

/// `str::split(c)`: always at least one piece, empty pieces included.
pub open spec fn split(s: Seq<char>, c: char) -> Seq<Seq<char>> {
    split_from(s, c, 0)
}

/// The pieces of a character sequence between occurrences of `c` (`str::split`).
pub fn split_on(s: &[char], c: char) -> (r: Vec<Vec<char>>)
    ensures
        views(r@) == split(s@, c),
        r@.len() >= 1,
        forall|k: int| 0 <= k < r@.len() ==> (#[trigger] r@[k])@.len() <= s@.len(),
{
    let n = s.len();
    let mut r: Vec<Vec<char>> = Vec::new();
    let mut start: usize = 0;
    loop
        invariant
            start <= n == s@.len(),
            split(s@, c) == views(r@) + split_from(s@, c, start as int),
            forall|k: int| 0 <= k < r@.len() ==> (#[trigger] r@[k])@.len() <= s@.len(),
        decreases n - start,
    {
        let e = find_char_from(s, c, start);
        proof {
            lemma_next_index_of(s@, c, start as int);
        }
        let piece = copy_range(s, start, e);
        let ghost old_dv = views(r@);
        r.push(piece);
        assert(views(r@) =~= old_dv.push(piece@));
        if e >= n {
            assert(split_from(s@, c, start as int) == seq![piece@]);
            assert(split(s@, c) =~= views(r@));
            return r;
        }
        assert(split_from(s@, c, start as int) == seq![piece@] + split_from(s@, c, e + 1));
        assert(split(s@, c) =~= views(r@) + split_from(s@, c, e + 1));
        start = e + 1;
    }
}

// ─── Joining ───

/// The pieces of `parts` joined with `sep` between neighbours (`[T]::join`).
pub open spec fn join(parts: Seq<Seq<char>>, sep: Seq<char>) -> Seq<char>
    decreases parts.len(),
{
    if parts.len() == 0 {
        seq![]
    } else if parts.len() == 1 {
        parts[0]
    } else {
        join(parts.drop_last(), sep) + sep + parts.last()
    }
}

/// Joins character sequences with a separator.
pub fn join_chars(parts: &Vec<Vec<char>>, sep: &[char]) -> (r: Vec<char>)
    ensures
        r@ == join(views(parts@), sep@),
{
    let mut r: Vec<char> = Vec::new();
    let mut i: usize = 0;
    while i < parts.len()
        invariant
            i <= parts@.len(),
            r@ == join(views(parts@).take(i as int), sep@),
        decreases parts@.len() - i,
    {
        let ghost prev = views(parts@).take(i as int);
        if i > 0 {
            push_all(&mut r, sep);
        }
        push_all(&mut r, parts[i].as_slice());
        i = i + 1;
        proof {
            let now = views(parts@).take(i as int);
            assert(now.drop_last() =~= prev);
            assert(now.last() == parts[i - 1]@);
            if i == 1 {
                assert(r@ =~= now[0]);
            }
        }
    }
    assert(views(parts@).take(parts@.len() as int) =~= views(parts@));
    r
}

// ─── Collapsing runs ───

/// The characters of a run: newlines, or blanks (space and tab).
pub open spec fn in_run(c: char, blanks: bool) -> bool {
    if blanks {
        c == ' ' || c == '\t'
    } else {
        c == '\n'
    }
}

/// The shortest run that is replaced: 2 blanks, or 3 newlines.
pub open spec fn min_run(blanks: bool) -> int {
    if blanks {
        2
    } else {
        3
    }
}

/// What a long run becomes: one space, or two newlines.
pub open spec fn run_replacement(blanks: bool) -> Seq<char> {
    if blanks {
        seq![' ']
    } else {
        seq!['\n', '\n']
    }
}

/// Where the run of run characters starting at `i` ends.
pub open spec fn run_end(s: Seq<char>, i: int, blanks: bool) -> int
    decreases s.len() - i,
{
    if i < 0 || i >= s.len() {
        i
    } else if in_run(s[i], blanks) {
        run_end(s, i + 1, blanks)
    } else {
        i
    }
}

pub proof fn lemma_run_end(s: Seq<char>, i: int, blanks: bool)
    requires
        0 <= i <= s.len(),
    ensures
        i <= run_end(s, i, blanks) <= s.len(),
        i < s.len() && in_run(s[i], blanks) ==> run_end(s, i, blanks) > i,
        forall|j: int| i <= j < run_end(s, i, blanks) ==> in_run(#[trigger] s[j], blanks),
        run_end(s, i, blanks) < s.len() ==> !in_run(s[run_end(s, i, blanks)], blanks),
    decreases s.len() - i,
{
    if i < s.len() && in_run(s[i], blanks) {
        lemma_run_end(s, i + 1, blanks);
    }
}

/// `s` from position `i` on, with every run of at least `min_run` run
/// characters replaced: what `Regex::replace_all` does with `\n{3,}` → `\n\n`
/// (newlines) or `[ \t]{2,}` → ` ` (blanks).
pub open spec fn collapse_from(s: Seq<char>, i: int, blanks: bool) -> Seq<char>
    decreases s.len() - i,
    via collapse_from_decreases
{
    if i < 0 || i >= s.len() {
        seq![]
    } else if !in_run(s[i], blanks) {
        seq![s[i]] + collapse_from(s, i + 1, blanks)
    } else {
        let e = run_end(s, i, blanks);
        (if e - i >= min_run(blanks) {
            run_replacement(blanks)
        } else {
            s.subrange(i, e)
        }) + collapse_from(s, e, blanks)
    }
}

#[via_fn]
proof fn collapse_from_decreases(s: Seq<char>, i: int, blanks: bool) {
    if 0 <= i < s.len() {
        lemma_run_end(s, i, blanks);
    }
}

/// `s` with its long runs collapsed.
pub open spec fn collapse_runs(s: Seq<char>, blanks: bool) -> Seq<char> {
    collapse_from(s, 0, blanks)
}

/// Three newlines in a row start at `i`.
pub open spec fn triple_newline_at(s: Seq<char>, i: int) -> bool {
    s[i] == '\n' && s[i + 1] == '\n' && s[i + 2] == '\n'
}

/// No three newlines in a row (no two blank lines in a row).
pub open spec fn no_triple_newline(s: Seq<char>) -> bool {
    forall|i: int| 0 <= i && i + 2 < s.len() ==> !#[trigger] triple_newline_at(s, i)
}

/// `a + b` has no three newlines in a row when `b` has none and none starts
/// in `a`.
proof fn lemma_no_triple_concat(a: Seq<char>, b: Seq<char>)
    requires
        no_triple_newline(b),
        forall|k: int| 0 <= k < a.len() && k + 2 < a.len() + b.len() ==> !#[trigger] triple_newline_at(a + b, k),
    ensures
        no_triple_newline(a + b),
{
    let ab = a + b;
    assert forall|i: int| 0 <= i && i + 2 < ab.len() implies !#[trigger] triple_newline_at(ab, i) by {
        if i >= a.len() {
            assert(ab[i] == b[i - a.len()]);
            assert(ab[i + 1] == b[i - a.len() + 1]);
            assert(ab[i + 2] == b[i - a.len() + 2]);
            assert(!triple_newline_at(b, i - a.len()));
        }
    }
}

/// A collapse of blanks starts with a newline only where the text does, and
/// then it is that newline followed by the collapse of the rest.
proof fn lemma_blank_collapse_newline_first(s: Seq<char>, j: int)
    requires
        0 <= j <= s.len(),
        collapse_from(s, j, true).len() > 0,
        collapse_from(s, j, true)[0] == '\n',
    ensures
        j < s.len(),
        s[j] == '\n',
        collapse_from(s, j, true) == seq!['\n'] + collapse_from(s, j + 1, true),
{
    if j < s.len() && in_run(s[j], true) {
        lemma_run_end(s, j, true);
        let e = run_end(s, j, true);
        assert(s.subrange(j, e)[0] == s[j]);
    }
}

/// Collapsing newline runs leaves no three newlines in a row.
proof fn lemma_newline_collapse_shape(s: Seq<char>, i: int)
    requires
        0 <= i <= s.len(),
    ensures
        no_triple_newline(collapse_from(s, i, false)),
        collapse_from(s, i, false).len() > 0 ==> i < s.len() && (collapse_from(s, i, false)[0] == '\n'
            <==> s[i] == '\n'),
    decreases s.len() - i,
{
    if i < s.len() {
        let r = collapse_from(s, i, false);
        if !in_run(s[i], false) {
            lemma_newline_collapse_shape(s, i + 1);
            let a = seq![s[i]];
            let b = collapse_from(s, i + 1, false);
            assert(r == a + b);
            assert forall|k: int| 0 <= k < a.len() && k + 2 < a.len() + b.len() implies !#[trigger] triple_newline_at(a + b, k) by {
                assert((a + b)[0] == s[i]);
            }
            lemma_no_triple_concat(a, b);
        } else {
            lemma_run_end(s, i, false);
            let e = run_end(s, i, false);
            lemma_newline_collapse_shape(s, e);
            let a = if e - i >= min_run(false) {
                run_replacement(false)
            } else {
                s.subrange(i, e)
            };
            let b = collapse_from(s, e, false);
            assert(r == a + b);
            assert(a.len() <= 2);
            assert(a.len() > 0 && a[0] == '\n');
            assert forall|k: int| 0 <= k < a.len() && k + 2 < a.len() + b.len() implies !#[trigger] triple_newline_at(a + b, k) by {
                assert((a + b)[a.len() as int] == b[0]);
                if e < s.len() {
                    assert(!in_run(s[e], false));
                }
            }
            lemma_no_triple_concat(a, b);
        }
    }
}

/// Collapsing blank runs adds no three newlines in a row.
proof fn lemma_blank_collapse_shape(s: Seq<char>, i: int)
    requires
        0 <= i <= s.len(),
        no_triple_newline(s),
    ensures
        no_triple_newline(collapse_from(s, i, true)),
    decreases s.len() - i,
{
    if i < s.len() {
        let r = collapse_from(s, i, true);
        if !in_run(s[i], true) {
            lemma_blank_collapse_shape(s, i + 1);
            let a = seq![s[i]];
            let b = collapse_from(s, i + 1, true);
            assert(r == a + b);
            assert forall|k: int| 0 <= k < a.len() && k + 2 < a.len() + b.len() implies !#[trigger] triple_newline_at(a + b, k) by {
                if triple_newline_at(a + b, k) {
                    assert((a + b)[1] == b[0]);
                    assert((a + b)[2] == b[1]);
                    lemma_blank_collapse_newline_first(s, i + 1);
                    let c = collapse_from(s, i + 2, true);
                    assert(b[1] == c[0]);
                    lemma_blank_collapse_newline_first(s, i + 2);
                    assert(triple_newline_at(s, i));
                }
            }
            lemma_no_triple_concat(a, b);
        } else {
            lemma_run_end(s, i, true);
            let e = run_end(s, i, true);
            lemma_blank_collapse_shape(s, e);
            let a = if e - i >= min_run(true) {
                run_replacement(true)
            } else {
                s.subrange(i, e)
            };
            let b = collapse_from(s, e, true);
            assert(r == a + b);
            assert forall|k: int| 0 <= k < a.len() && k + 2 < a.len() + b.len() implies !#[trigger] triple_newline_at(a + b, k) by {
                assert((a + b)[k] == a[k]);
                assert(in_run(a[k], true));
            }
            lemma_no_triple_concat(a, b);
        }
    }
}

/// Trimming the start leaves a text that is empty or starts with a kept
/// character, and dropping its first character keeps no three newlines in a
/// row.
proof fn lemma_trim_start_shape(s: Seq<char>, pat: Option<char>)
    ensures
        trim_start_by(s, pat).len() > 0 ==> !trimmed_by(pat, trim_start_by(s, pat)[0]),
        no_triple_newline(s) ==> no_triple_newline(trim_start_by(s, pat)),
    decreases s.len(),
{
    if s.len() > 0 && trimmed_by(pat, s[0]) {
        let t = s.drop_first();
        if no_triple_newline(s) {
            assert forall|i: int| 0 <= i && i + 2 < t.len() implies !#[trigger] triple_newline_at(t, i) by {
                assert(!triple_newline_at(s, i + 1));
            }
        }
        lemma_trim_start_shape(t, pat);
    }
}

pub proof fn lemma_trim_end_shape(s: Seq<char>, pat: Option<char>)
    ensures
        no_triple_newline(s) ==> no_triple_newline(trim_end_by(s, pat)),
    decreases s.len(),
{
    if s.len() > 0 && trimmed_by(pat, s.last()) {
        let t = s.drop_last();
        if no_triple_newline(s) {
            assert forall|i: int| 0 <= i && i + 2 < t.len() implies !#[trigger] triple_newline_at(t, i) by {
                assert(!triple_newline_at(s, i));
            }
        }
        lemma_trim_end_shape(t, pat);
    }
}

/// Trimming a prefix of a text that starts with a kept character keeps its
/// start.
proof fn lemma_trim_start_of_prefix(s: Seq<char>, k: int)
    requires
        0 <= k <= s.len(),
        s.len() > 0 ==> !trimmed_by(None, s[0]),
    ensures
        trim_start_by(s.take(k), None) == s.take(k),
{
}

/// Trimming twice trims once.
pub proof fn lemma_trim_idempotent(s: Seq<char>)
    ensures
        trim(trim(s)) == trim(s),
{
    let u = trim_start_by(s, None);
    lemma_trim_start_shape(s, None);
    lemma_trim_end_prefix(u);
    let v = trim_end(u);
    lemma_trim_start_of_prefix(u, v.len() as int);
    lemma_trim_end_by_idempotent(u, None);
}

/// Collapsing newline runs, then blank runs, then trimming leaves a trimmed
/// text with no three newlines in a row.
pub proof fn lemma_collapsed_trimmed_shape(t: Seq<char>)
    ensures
        ({
            let r = trim(collapse_runs(collapse_runs(t, false), true));
            trim(r) == r && no_triple_newline(r)
        }),
{
    let a = collapse_runs(t, false);
    lemma_newline_collapse_shape(t, 0);
    let b = collapse_runs(a, true);
    lemma_blank_collapse_shape(a, 0);
    lemma_trim_start_shape(b, None);
    lemma_trim_end_shape(trim_start_by(b, None), None);
    lemma_trim_idempotent(b);
}

fn is_run_char(c: char, blanks: bool) -> (r: bool)
    ensures
        r == in_run(c, blanks),
{
    if blanks {
        c == ' ' || c == '\t'
    } else {
        c == '\n'
    }
}

/// Collapse the long runs of newlines (`blanks == false`) or of blanks.
pub fn collapse_runs_chars(s: &[char], blanks: bool) -> (r: Vec<char>)
    ensures
        r@ == collapse_runs(s@, blanks),
{
    let n = s.len();
    let mut out: Vec<char> = Vec::new();
    let mut i: usize = 0;
    while i < n
        invariant
            i <= n == s@.len(),
            collapse_runs(s@, blanks) == out@ + collapse_from(s@, i as int, blanks),
        decreases n - i,
    {
        let c = s[i];
        let run = is_run_char(c, blanks);
        if !run {
            out.push(c);
            i = i + 1;
            proof {
                assert(out@ + collapse_from(s@, i as int, blanks) =~= out@.drop_last() + (seq![c]
                    + collapse_from(s@, i as int, blanks)));
            }
        } else {
            proof {
                lemma_run_end(s@, i as int, blanks);
            }
            let mut e = i;
            while e < n && is_run_char(s[e], blanks)
                invariant
                    i <= e <= n == s@.len(),
                    run_end(s@, i as int, blanks) == run_end(s@, e as int, blanks),
                decreases n - e,
            {
                e = e + 1;
            }
            let ghost before = out@;
            if blanks && e - i >= 2 {
                out.push(' ');
            } else if !blanks && e - i >= 3 {
                out.push('\n');
                out.push('\n');
            } else {
                let part = copy_range(s, i, e);
                push_all(&mut out, part.as_slice());
            }
            proof {
                let piece = if e - i >= min_run(blanks) {
                    run_replacement(blanks)
                } else {
                    s@.subrange(i as int, e as int)
                };
                assert(out@ =~= before + piece);
                assert(before + (piece + collapse_from(s@, e as int, blanks)) =~= out@
                    + collapse_from(s@, e as int, blanks));
            }
            i = e;
        }
    }
    out
}

/// The characters of each string.
pub open spec fn string_views(v: Seq<String>) -> Seq<Seq<char>> {
    Seq::new(v.len(), |i: int| v[i]@)
}

/// The strings of `v` joined by `sep`.
pub fn join_strings(v: &Vec<String>, sep: &str) -> (r: Vec<char>)
    ensures
        r@ == join(string_views(v@), sep@),
{
    let mut parts: Vec<Vec<char>> = Vec::new();
    let mut i: usize = 0;
    while i < v.len()
        invariant
            i <= v@.len(),
            views(parts@) == string_views(v@).take(i as int),
        decreases v@.len() - i,
    {
        let p = str_to_chars(v[i].as_str());
        let ghost old_p = views(parts@);
        parts.push(p);
        i = i + 1;
        assert(views(parts@) =~= old_p.push(p@));
        assert(string_views(v@).take(i as int) =~= string_views(v@).take((i - 1) as int).push(
            v@[i - 1]@,
        ));
        assert(views(parts@) =~= string_views(v@).take(i as int));
    }
    assert(string_views(v@).take(v@.len() as int) =~= string_views(v@));
    let sep_chars = str_to_chars(sep);
    join_chars(&parts, sep_chars.as_slice())
}

} // verus!
