//! Lexical primitives shared by the template grammar and the HTML grammar.
//!
//! A document is held as a `Vec<char>`; a parser position is an index into
//! it. Every scanner here has a spec-level twin (`spec_...`) that states,
//! as a recursive function over the character sequence, exactly where the
//! scanner stops; the executable scanner is proved equal to its twin.

use vstd::prelude::*;
use vstd::string::StrSliceExecFns;

verus! {

// ---------------------------------------------------------------------------
// Character classes
// ---------------------------------------------------------------------------

/// The four whitespace characters the grammars' `multispace` rules accept.
pub open spec fn is_space_char(c: char) -> bool {
    c == ' ' || c == '\t' || c == '\r' || c == '\n'
}

/// ASCII characters are the code points below 128.
pub open spec fn is_ascii_char(c: char) -> bool {
    (c as u32) < 128
}

/// Whether `char::is_alphanumeric` accepts `c`. The Unicode classification
/// is a pure function of the character alone; it is named here rather than
/// spelled out.
pub uninterp spec fn is_unicode_alphanumeric(c: char) -> bool;

/// Relies on `char::is_alphanumeric`: a deterministic classification of the
/// character against the Unicode `Alphabetic` and `Number` categories.
pub assume_specification[ char::is_alphanumeric ](c: char) -> (r: bool)
    ensures
        r == is_unicode_alphanumeric(c),
;

/// Whether `char::is_alphabetic` accepts `c`.
pub uninterp spec fn is_unicode_alphabetic(c: char) -> bool;

/// Relies on `char::is_alphabetic`: a deterministic classification of the
/// character against the Unicode `Alphabetic` category. An alphabetic
/// character is also alphanumeric: `char::is_alphanumeric` is documented as
/// accepting exactly the characters that satisfy `is_alphabetic` or
/// `is_numeric`.
pub assume_specification[ char::is_alphabetic ](c: char) -> (r: bool)
    ensures
        r == is_unicode_alphabetic(c),
        r ==> is_unicode_alphanumeric(c),
;

/// Whether `char::is_whitespace` accepts `c`.
pub uninterp spec fn is_unicode_whitespace(c: char) -> bool;

/// Relies on `char::is_whitespace`: a deterministic classification of the
/// character against the Unicode `White_Space` property.
pub assume_specification[ char::is_whitespace ](c: char) -> (r: bool)
    ensures
        r == is_unicode_whitespace(c),
;

/// Executable test for [`is_space_char`].
pub fn is_space(c: char) -> (r: bool)
    ensures
        r == is_space_char(c),
{
    c == ' ' || c == '\t' || c == '\r' || c == '\n'
}

// ---------------------------------------------------------------------------
// Building strings
// ---------------------------------------------------------------------------

/// Relies on `String`'s `FromIterator<char>`: collecting the characters of
/// the vector, in order, into a `String`.
#[verifier::external_body]
pub(crate) fn chars_to_string(v: &Vec<char>) -> (r: String)
    ensures
        r@ == v@,
{
    v.iter().collect()
}

/// Appends all characters of `s` to `out`.
pub fn push_all(out: &mut Vec<char>, s: &Vec<char>)
    ensures
        final(out)@ == old(out)@ + s@,
{
    let ghost start = out@;
    let mut i: usize = 0;
    proof {
        assert(out@ =~= start + s@.subrange(0, 0));
    }
    while i < s.len()
        invariant
            0 <= i <= s.len(),
            out@ == start + s@.subrange(0, i as int),
        decreases s.len() - i,
    {
        out.push(s[i]);
        proof {
            assert(start + s@.subrange(0, i as int) + seq![s@[i as int]] =~= start + s@.subrange(
                0,
                i + 1 as int,
            ));
        }
        i = i + 1;
    }
    proof {
        assert(s@.subrange(0, s@.len() as int) =~= s@);
    }
}

/// An owned copy of the characters in `[from, to)`.
pub fn copy_range(input: &Vec<char>, from: usize, to: usize) -> (r: Vec<char>)
    requires
        from <= to <= input.len(),
    ensures
        r@ == input@.subrange(from as int, to as int),
{
    let mut r: Vec<char> = Vec::new();
    let mut i: usize = from;
    proof {
        assert(r@ =~= input@.subrange(from as int, from as int));
    }
    while i < to
        invariant
            from <= i <= to <= input.len(),
            r@ == input@.subrange(from as int, i as int),
        decreases to - i,
    {
        r.push(input[i]);
        proof {
            assert(r@ =~= input@.subrange(from as int, i + 1 as int));
        }
        i = i + 1;
    }
    r
}

/// The indentation for a nesting depth: one tab per level.
pub open spec fn spec_indent(depth: nat) -> Seq<char> {
    Seq::new(depth, |i: int| '\t')
}

/// Builds the indentation for a nesting depth.
pub fn make_indent(depth: usize) -> (r: Vec<char>)
    ensures
        r@ == spec_indent(depth as nat),
{
    let mut r: Vec<char> = Vec::new();
    proof {
        assert(r@ =~= spec_indent(0));
    }
    let mut i: usize = 0;
    while i < depth
        invariant
            0 <= i <= depth,
            r@ == spec_indent(i as nat),
        decreases depth - i,
    {
        r.push('\t');
        proof {
            assert(r@ =~= spec_indent((i + 1) as nat));
        }
        i = i + 1;
    }
    r
}

// ---------------------------------------------------------------------------
// Scanners
// ---------------------------------------------------------------------------

/// The first index at or after `i` that holds a non-space character, or the
/// end of the sequence.
pub open spec fn spec_skip_spaces(s: Seq<char>, i: int) -> int
    decreases s.len() - i,
{
    if i < s.len() && is_space_char(s[i]) {
        spec_skip_spaces(s, i + 1)
    } else {
        i
    }
}

/// Advances past spaces, tabs, carriage returns and newlines.
pub fn skip_spaces(input: &Vec<char>, pos: usize) -> (end: usize)
    requires
        pos <= input.len(),
    ensures
        end == spec_skip_spaces(input@, pos as int),
        pos <= end <= input.len(),
        forall|k: int| pos <= k < end ==> is_space_char(input@[k]),
        end < input.len() ==> !is_space_char(input@[end as int]),
{
    let mut i: usize = pos;
    while i < input.len() && is_space(input[i])
        invariant
            pos <= i <= input.len(),
            spec_skip_spaces(input@, pos as int) == spec_skip_spaces(input@, i as int),
            forall|k: int| pos <= k < i ==> is_space_char(input@[k]),
        decreases input.len() - i,
    {
        i = i + 1;
    }
    i
}

/// The space scan never moves backwards, nor past the end.
pub proof fn lemma_skip_spaces_bounds(s: Seq<char>, i: int)
    requires
        0 <= i <= s.len(),
    ensures
        i <= spec_skip_spaces(s, i) <= s.len(),
    decreases s.len() - i,
{
    if i < s.len() && is_space_char(s[i]) {
        lemma_skip_spaces_bounds(s, i + 1);
    }
}

/// The first index at or after `i` that holds `stop`, or the end of the
/// sequence.
pub open spec fn spec_scan_until_char(s: Seq<char>, i: int, stop: char) -> int
    decreases s.len() - i,
{
    if i < s.len() && s[i] != stop {
        spec_scan_until_char(s, i + 1, stop)
    } else {
        i
    }
}

/// The scan never moves backwards, nor past the end.
pub proof fn lemma_scan_until_char_bounds(s: Seq<char>, i: int, stop: char)
    requires
        0 <= i <= s.len(),
    ensures
        i <= spec_scan_until_char(s, i, stop) <= s.len(),
    decreases s.len() - i,
{
    if i < s.len() && s[i] != stop {
        lemma_scan_until_char_bounds(s, i + 1, stop);
    }
}

/// Advances to the next occurrence of `stop` (or the end of the input).
pub fn scan_until_char(input: &Vec<char>, pos: usize, stop: char) -> (end: usize)
    requires
        pos <= input.len(),
    ensures
        end == spec_scan_until_char(input@, pos as int, stop),
        pos <= end <= input.len(),
        forall|k: int| pos <= k < end ==> input@[k] != stop,
        end < input.len() ==> input@[end as int] == stop,
{
    let mut i: usize = pos;
    while i < input.len() && input[i] != stop
        invariant
            pos <= i <= input.len(),
            spec_scan_until_char(input@, pos as int, stop) == spec_scan_until_char(
                input@,
                i as int,
                stop,
            ),
            forall|k: int| pos <= k < i ==> input@[k] != stop,
        decreases input.len() - i,
    {
        i = i + 1;
    }
    i
}

/// The first index at or after `i` where the two characters `a`, `b` occur
/// adjacently, or `None` when they never do.
pub open spec fn spec_find2(s: Seq<char>, i: int, a: char, b: char) -> Option<int>
    decreases s.len() - i,
{
    if i + 2 <= s.len() {
        if s[i] == a && s[i + 1] == b {
            Some(i)
        } else {
            spec_find2(s, i + 1, a, b)
        }
    } else {
        None
    }
}

/// Finds the next occurrence of the two-character marker `a b`.
pub fn find2(input: &Vec<char>, pos: usize, a: char, b: char) -> (r: Option<usize>)
    requires
        pos <= input.len(),
    ensures
        r matches Some(p) ==> spec_find2(input@, pos as int, a, b) == Some(p as int) && pos <= p
            && p + 2 <= input.len(),
        r is None ==> spec_find2(input@, pos as int, a, b) is None,
{
    let mut i: usize = pos;
    while input.len() - i >= 2
        invariant
            pos <= i <= input.len(),
            spec_find2(input@, pos as int, a, b) == spec_find2(input@, i as int, a, b),
        decreases input.len() - i,
    {
        if input[i] == a && input[i + 1] == b {
            return Some(i);
        }
        i = i + 1;
    }
    None
}

/// The first index at or after `i` where the three characters `a b c`
/// occur adjacently, or `None` when they never do.
pub open spec fn spec_find3(s: Seq<char>, i: int, a: char, b: char, c: char) -> Option<int>
    decreases s.len() - i,
{
    if i + 3 <= s.len() {
        if s[i] == a && s[i + 1] == b && s[i + 2] == c {
            Some(i)
        } else {
            spec_find3(s, i + 1, a, b, c)
        }
    } else {
        None
    }
}

/// Finds the next occurrence of the three-character marker `a b c`.
pub fn find3(input: &Vec<char>, pos: usize, a: char, b: char, c: char) -> (r: Option<usize>)
    requires
        pos <= input.len(),
    ensures
        r matches Some(p) ==> spec_find3(input@, pos as int, a, b, c) == Some(p as int) && pos <= p
            && p + 3 <= input.len(),
        r is None ==> spec_find3(input@, pos as int, a, b, c) is None,
{
    let mut i: usize = pos;
    while input.len() - i >= 3
        invariant
            pos <= i <= input.len(),
            spec_find3(input@, pos as int, a, b, c) == spec_find3(input@, i as int, a, b, c),
        decreases input.len() - i,
    {
        if input[i] == a && input[i + 1] == b && input[i + 2] == c {
            return Some(i);
        }
        i = i + 1;
    }
    None
}

/// A position where one of the template markers `{%`, `{{` or `{#` begins.
pub open spec fn is_tmpl_marker(s: Seq<char>, p: int) -> bool {
    p + 2 <= s.len() && s[p] == '{' && (s[p + 1] == '%' || s[p + 1] == '{' || s[p + 1] == '#')
}

/// The first index at or after `i` where a template marker begins, or `None`.
pub open spec fn spec_find_tmpl_marker(s: Seq<char>, i: int) -> Option<int>
    decreases s.len() - i,
{
    if i + 2 <= s.len() {
        if is_tmpl_marker(s, i) {
            Some(i)
        } else {
            spec_find_tmpl_marker(s, i + 1)
        }
    } else {
        None
    }
}

/// Finds the next position where a template marker (`{%`, `{{`, `{#`) begins.
pub fn find_tmpl_marker(input: &Vec<char>, pos: usize) -> (r: Option<usize>)
    requires
        pos <= input.len(),
    ensures
        r matches Some(p) ==> spec_find_tmpl_marker(input@, pos as int) == Some(p as int) && pos
            <= p && p + 2 <= input.len(),
        r is None ==> spec_find_tmpl_marker(input@, pos as int) is None,
{
    let mut i: usize = pos;
    while input.len() - i >= 2
        invariant
            pos <= i <= input.len(),
            spec_find_tmpl_marker(input@, pos as int) == spec_find_tmpl_marker(input@, i as int),
        decreases input.len() - i,
    {
        if input[i] == '{' && (input[i + 1] == '%' || input[i + 1] == '{' || input[i + 1] == '#') {
            return Some(i);
        }
        i = i + 1;
    }
    None
}

// ---------------------------------------------------------------------------
// Literal matching
// ---------------------------------------------------------------------------

/// Whether the characters of `pat` occur in `input` starting at `pos`.
pub fn chars_match_str_at(input: &Vec<char>, pos: usize, pat: &str) -> (r: bool)
    requires
        pos <= input.len(),
    ensures
        r <==> (pos + pat@.len() <= input@.len() && input@.subrange(
            pos as int,
            pos as int + pat@.len() as int,
        ) == pat@),
{
    let n = pat.unicode_len();
    if n > input.len() - pos {
        return false;
    }
    let mut j: usize = 0;
    while j < n
        invariant
            0 <= j <= n,
            n == pat@.len(),
            pos + n <= input.len(),
            forall|k: int| 0 <= k < j ==> input@[pos + k] == pat@[k],
        decreases n - j,
    {
        if input[pos + j] != pat.get_char(j) {
            proof {
                let sub = input@.subrange(pos as int, pos as int + pat@.len() as int);
                assert(sub[j as int] == input@[pos + j as int]);
                assert(sub != pat@);
            }
            return false;
        }
        j = j + 1;
    }
    proof {
        assert(input@.subrange(pos as int, pos as int + pat@.len() as int) =~= pat@);
    }
    true
}

/// Whether two character vectors hold the same characters.
pub fn vec_eq(a: &Vec<char>, b: &Vec<char>) -> (r: bool)
    ensures
        r <==> a@ == b@,
{
    if a.len() != b.len() {
        proof {
            assert(a@.len() != b@.len());
        }
        return false;
    }
    let mut j: usize = 0;
    while j < a.len()
        invariant
            0 <= j <= a.len(),
            a.len() == b.len(),
            forall|k: int| 0 <= k < j ==> a@[k] == b@[k],
        decreases a.len() - j,
    {
        if a[j] != b[j] {
            proof {
                assert(a@[j as int] != b@[j as int]);
            }
            return false;
        }
        j = j + 1;
    }
    proof {
        assert(a@ =~= b@);
    }
    true
}

/// Whether the vector holds exactly the characters of `pat`.
pub fn vec_eq_str(v: &Vec<char>, pat: &str) -> (r: bool)
    ensures
        r <==> v@ == pat@,
{
    let n = pat.unicode_len();
    if v.len() != n {
        proof {
            assert(v@.len() != pat@.len());
        }
        return false;
    }
    let r = chars_match_str_at(v, 0, pat);
    proof {
        assert(v@.subrange(0, v@.len() as int) =~= v@);
    }
    r
}

// ---------------------------------------------------------------------------
// Trimming
// ---------------------------------------------------------------------------

/// The first index at or after `i` that holds a non-whitespace character
/// (per the Unicode `White_Space` property), or the end.
pub open spec fn spec_trim_start(s: Seq<char>, i: int) -> int
    decreases s.len() - i,
{
    if 0 <= i < s.len() && is_unicode_whitespace(s[i]) {
        spec_trim_start(s, i + 1)
    } else {
        i
    }
}

/// The index just past the last non-whitespace character before `j`, or 0.
pub open spec fn spec_trim_end(s: Seq<char>, j: int) -> int
    decreases j,
{
    if 0 < j <= s.len() && is_unicode_whitespace(s[j - 1]) {
        spec_trim_end(s, j - 1)
    } else {
        j
    }
}

/// The sequence with Unicode whitespace removed from both ends.
pub open spec fn spec_trim(s: Seq<char>) -> Seq<char> {
    let a = spec_trim_start(s, 0);
    let b = spec_trim_end(s, s.len() as int);
    if a <= b {
        s.subrange(a, b)
    } else {
        Seq::empty()
    }
}

/// Removes Unicode whitespace from both ends, as `str::trim` does.
pub fn trim_chars(v: &Vec<char>) -> (r: Vec<char>)
    ensures
        r@ == spec_trim(v@),
{
    let mut a: usize = 0;
    while a < v.len() && v[a].is_whitespace()
        invariant
            0 <= a <= v.len(),
            spec_trim_start(v@, 0) == spec_trim_start(v@, a as int),
        decreases v.len() - a,
    {
        a = a + 1;
    }
    let mut b: usize = v.len();
    while b > 0 && v[b - 1].is_whitespace()
        invariant
            0 <= b <= v.len(),
            spec_trim_end(v@, v@.len() as int) == spec_trim_end(v@, b as int),
        decreases b,
    {
        b = b - 1;
    }
    if a <= b {
        copy_range(v, a, b)
    } else {
        let r: Vec<char> = Vec::new();
        proof {
            assert(r@ =~= Seq::<char>::empty());
        }
        r
    }
}

} // verus!
