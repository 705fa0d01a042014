//! HTML attributes: `key`, `key=value`, with unquoted, single-quoted or
//! double-quoted values, separated by whitespace. The parsed attributes
//! form a key-to-optional-value mapping with unique keys; on a duplicate
//! key the last write wins, keeping the first key's position.

use crate::lex::{
    copy_range, scan_until_char, skip_spaces, spec_scan_until_char, spec_skip_spaces, vec_eq,
    vec_eq_str,
};
use crate::ParseError;
use vstd::prelude::*;

verus! {

/// A character allowed in an attribute key or unquoted value: anything but
/// `>`, `<`, `/`, `=`, the two quotes, and whitespace.
pub open spec fn is_attr_char(c: char) -> bool {
    c != '>' && c != '<' && c != '/' && c != '=' && c != '"' && c != '\'' && c != ' ' && c != '\t'
        && c != '\n' && c != '\r'
}

/// The first index at or after `i` that does not hold an attribute-key
/// character.
pub open spec fn spec_scan_attr(s: Seq<char>, i: int) -> int
    decreases s.len() - i,
{
    if i < s.len() && is_attr_char(s[i]) {
        spec_scan_attr(s, i + 1)
    } else {
        i
    }
}

/// What parsing an attribute key (one or more key characters) at `i`
/// yields.
pub open spec fn spec_parse_attr_key(s: Seq<char>, i: int) -> Option<(int, Seq<char>)> {
    if i < s.len() && is_attr_char(s[i]) {
        let e = spec_scan_attr(s, i + 1);
        Some((e, s.subrange(i, e)))
    } else {
        None
    }
}

/// What parsing a double-quoted value at `i` yields: any characters except
/// `"` (newlines included), closed by `"`.
pub open spec fn spec_parse_dq_val(s: Seq<char>, i: int) -> Option<(int, Seq<char>)> {
    if i < s.len() && s[i] == '"' {
        let e = spec_scan_until_char(s, i + 1, '"');
        if e < s.len() {
            Some((e + 1, s.subrange(i + 1, e)))
        } else {
            None
        }
    } else {
        None
    }
}

/// What parsing a single-quoted value at `i` yields.
pub open spec fn spec_parse_sq_val(s: Seq<char>, i: int) -> Option<(int, Seq<char>)> {
    if i < s.len() && s[i] == '\'' {
        let e = spec_scan_until_char(s, i + 1, '\'');
        if e < s.len() {
            Some((e + 1, s.subrange(i + 1, e)))
        } else {
            None
        }
    } else {
        None
    }
}

/// What parsing an unquoted value (one or more key characters) at `i`
/// yields.
pub open spec fn spec_parse_unq_val(s: Seq<char>, i: int) -> Option<(int, Seq<char>)> {
    spec_parse_attr_key(s, i)
}

/// What parsing an attribute value at `i` yields: double-quoted, then
/// single-quoted, then unquoted, in that order.
pub open spec fn spec_parse_attr_val(s: Seq<char>, i: int) -> Option<(int, Seq<char>)> {
    match spec_parse_dq_val(s, i) {
        Some(r) => Some(r),
        None => match spec_parse_sq_val(s, i) {
            Some(r) => Some(r),
            None => spec_parse_unq_val(s, i),
        },
    }
}

/// What parsing one attribute at `i` yields: a key, an optional `=` with
/// flexible whitespace around it, and an optional value. When the `=` is
/// absent the whitespace is given back and the value is tried right after
/// the key; a missing value leaves the attribute boolean (`None`).
pub open spec fn spec_parse_attribute(s: Seq<char>, i: int) -> Option<
    (int, Seq<char>, Option<Seq<char>>),
> {
    match spec_parse_attr_key(s, i) {
        None => None,
        Some((k_end, k)) => {
            let p1 = spec_skip_spaces(s, k_end);
            if p1 < s.len() && s[p1] == '=' {
                let p2 = spec_skip_spaces(s, p1 + 1);
                match spec_parse_attr_val(s, p2) {
                    Some((e, v)) => Some((e, k, Some(v))),
                    None => Some((p2, k, None)),
                }
            } else {
                match spec_parse_attr_val(s, k_end) {
                    Some((e, v)) => Some((e, k, Some(v))),
                    None => Some((k_end, k, None)),
                }
            }
        },
    }
}

/// After one attribute ending at `e`: what consuming mandatory whitespace
/// and further attributes yields. When no whitespace follows, or the
/// attribute after it fails, the list stops at `e` and the separator is
/// given back.
pub open spec fn spec_parse_raw_attrs_next(s: Seq<char>, e: int) -> (
    int,
    Seq<(Seq<char>, Option<Seq<char>>)>,
)
    decreases s.len() - e,
{
    let p = spec_skip_spaces(s, e);
    if p > e {
        match spec_parse_attribute(s, p) {
            None => (e, Seq::empty()),
            Some((e2, k, v)) => if p < e2 && e2 <= s.len() {
                let (e3, rest) = spec_parse_raw_attrs_next(s, e2);
                (e3, seq![(k, v)] + rest)
            } else {
                (e2, seq![(k, v)])
            },
        }
    } else {
        (e, Seq::empty())
    }
}

/// Zero or more whitespace-separated attributes at `i`, in source order,
/// before any duplicate-key handling.
pub open spec fn spec_parse_raw_attrs(s: Seq<char>, i: int) -> (
    int,
    Seq<(Seq<char>, Option<Seq<char>>)>,
) {
    match spec_parse_attribute(s, i) {
        None => (i, Seq::empty()),
        Some((e, k, v)) => if i < e && e <= s.len() {
            let (e2, rest) = spec_parse_raw_attrs_next(s, e);
            (e2, seq![(k, v)] + rest)
        } else {
            (e, seq![(k, v)])
        },
    }
}

/// The key scan never moves backwards, nor past the end.
pub proof fn lemma_scan_attr_bounds(s: Seq<char>, i: int)
    requires
        0 <= i <= s.len(),
    ensures
        i <= spec_scan_attr(s, i) <= s.len(),
    decreases s.len() - i,
{
    if i < s.len() && is_attr_char(s[i]) {
        lemma_scan_attr_bounds(s, i + 1);
    }
}

/// A parsed attribute value ends within the input, past its start.
pub proof fn lemma_attr_val_bounds(s: Seq<char>, i: int)
    requires
        0 <= i <= s.len(),
    ensures
        match spec_parse_attr_val(s, i) {
            Some((e, v)) => i < e <= s.len(),
            None => true,
        },
{
    if i < s.len() {
        crate::lex::lemma_scan_until_char_bounds(s, i + 1, '"');
        crate::lex::lemma_scan_until_char_bounds(s, i + 1, '\'');
        lemma_scan_attr_bounds(s, i + 1);
    }
}

/// A parsed attribute ends within the input, past its start.
pub proof fn lemma_attribute_bounds(s: Seq<char>, i: int)
    requires
        0 <= i <= s.len(),
    ensures
        match spec_parse_attribute(s, i) {
            Some((e, k, v)) => i < e <= s.len(),
            None => true,
        },
{
    if i < s.len() && is_attr_char(s[i]) {
        lemma_scan_attr_bounds(s, i + 1);
        let k_end = spec_scan_attr(s, i + 1);
        crate::lex::lemma_skip_spaces_bounds(s, k_end);
        let p1 = spec_skip_spaces(s, k_end);
        if p1 < s.len() && s[p1] == '=' {
            crate::lex::lemma_skip_spaces_bounds(s, p1 + 1);
            lemma_attr_val_bounds(s, spec_skip_spaces(s, p1 + 1));
        } else {
            lemma_attr_val_bounds(s, k_end);
        }
    }
}

/// A run of further attributes ends within the input, at or past its
/// start.
pub proof fn lemma_raw_attrs_next_bounds(s: Seq<char>, e: int)
    requires
        0 <= e <= s.len(),
    ensures
        e <= spec_parse_raw_attrs_next(s, e).0 <= s.len(),
    decreases s.len() - e,
{
    crate::lex::lemma_skip_spaces_bounds(s, e);
    let p = spec_skip_spaces(s, e);
    if p > e {
        lemma_attribute_bounds(s, p);
        match spec_parse_attribute(s, p) {
            None => {},
            Some((e2, k, v)) => {
                if p < e2 && e2 <= s.len() {
                    lemma_raw_attrs_next_bounds(s, e2);
                }
            },
        }
    }
}

/// A run of attributes ends within the input, at or past its start.
pub proof fn lemma_raw_attrs_bounds(s: Seq<char>, i: int)
    requires
        0 <= i <= s.len(),
    ensures
        i <= spec_parse_raw_attrs(s, i).0 <= s.len(),
{
    lemma_attribute_bounds(s, i);
    match spec_parse_attribute(s, i) {
        None => {},
        Some((e, k, v)) => {
            if i < e && e <= s.len() {
                lemma_raw_attrs_next_bounds(s, e);
            }
        },
    }
}

/// Advances past attribute-key characters.
pub fn scan_attr(input: &Vec<char>, pos: usize) -> (end: usize)
    requires
        pos <= input.len(),
    ensures
        end == spec_scan_attr(input@, pos as int),
        pos <= end <= input.len(),
{
    let mut i: usize = pos;
    while i < input.len() && is_attr_char_exec(input[i])
        invariant
            pos <= i <= input.len(),
            spec_scan_attr(input@, pos as int) == spec_scan_attr(input@, i as int),
        decreases input.len() - i,
    {
        i = i + 1;
    }
    i
}

/// Executable test for [`is_attr_char`].
fn is_attr_char_exec(c: char) -> (r: bool)
    ensures
        r == is_attr_char(c),
{
    c != '>' && c != '<' && c != '/' && c != '=' && c != '"' && c != '\'' && c != ' ' && c != '\t'
        && c != '\n' && c != '\r'
}

/// Parses the key of an HTML attribute: one or more key characters.
pub fn parse_key(input: &Vec<char>, pos: usize) -> (r: Result<(usize, Vec<char>), ParseError>)
    requires
        pos <= input.len(),
    ensures
        r matches Ok((end, k)) ==> spec_parse_attr_key(input@, pos as int) == Some(
            (end as int, k@),
        ) && pos < end <= input.len(),
        r matches Err(e) ==> spec_parse_attr_key(input@, pos as int) is None && e
            == ParseError::Lexical,
{
    if pos < input.len() && is_attr_char_exec(input[pos]) {
        let e = scan_attr(input, pos + 1);
        proof {
            assert(spec_scan_attr(input@, pos as int) == spec_scan_attr(input@, pos + 1));
        }
        let k = copy_range(input, pos, e);
        Ok((e, k))
    } else {
        Err(ParseError::Lexical)
    }
}

/// Parses a double-quoted attribute value.
pub fn parse_double_quoted_val(input: &Vec<char>, pos: usize) -> (r: Result<
    (usize, Vec<char>),
    ParseError,
>)
    requires
        pos <= input.len(),
    ensures
        r matches Ok((end, v)) ==> spec_parse_dq_val(input@, pos as int) == Some((end as int, v@))
            && pos < end <= input.len(),
        r matches Err(e) ==> spec_parse_dq_val(input@, pos as int) is None && e
            == ParseError::Lexical,
{
    if pos < input.len() && input[pos] == '"' {
        let e = scan_until_char(input, pos + 1, '"');
        if e < input.len() {
            let v = copy_range(input, pos + 1, e);
            Ok((e + 1, v))
        } else {
            Err(ParseError::Lexical)
        }
    } else {
        Err(ParseError::Lexical)
    }
}

/// Parses a single-quoted attribute value.
pub fn parse_single_quoted_val(input: &Vec<char>, pos: usize) -> (r: Result<
    (usize, Vec<char>),
    ParseError,
>)
    requires
        pos <= input.len(),
    ensures
        r matches Ok((end, v)) ==> spec_parse_sq_val(input@, pos as int) == Some((end as int, v@))
            && pos < end <= input.len(),
        r matches Err(e) ==> spec_parse_sq_val(input@, pos as int) is None && e
            == ParseError::Lexical,
{
    if pos < input.len() && input[pos] == '\'' {
        let e = scan_until_char(input, pos + 1, '\'');
        if e < input.len() {
            let v = copy_range(input, pos + 1, e);
            Ok((e + 1, v))
        } else {
            Err(ParseError::Lexical)
        }
    } else {
        Err(ParseError::Lexical)
    }
}

/// Parses an unquoted attribute value: one or more key characters.
pub fn parse_unquoted_val(input: &Vec<char>, pos: usize) -> (r: Result<
    (usize, Vec<char>),
    ParseError,
>)
    requires
        pos <= input.len(),
    ensures
        r matches Ok((end, v)) ==> spec_parse_unq_val(input@, pos as int) == Some((end as int, v@))
            && pos < end <= input.len(),
        r matches Err(e) ==> spec_parse_unq_val(input@, pos as int) is None && e
            == ParseError::Lexical,
{
    parse_key(input, pos)
}

/// Parses an attribute value: double-quoted, single-quoted, or unquoted.
pub fn parse_val(input: &Vec<char>, pos: usize) -> (r: Result<(usize, Vec<char>), ParseError>)
    requires
        pos <= input.len(),
    ensures
        r matches Ok((end, v)) ==> spec_parse_attr_val(input@, pos as int) == Some(
            (end as int, v@),
        ) && pos < end <= input.len(),
        r matches Err(e) ==> spec_parse_attr_val(input@, pos as int) is None && e
            == ParseError::Lexical,
{
    match parse_double_quoted_val(input, pos) {
        Ok(r) => Ok(r),
        Err(_) => match parse_single_quoted_val(input, pos) {
            Ok(r) => Ok(r),
            Err(_) => parse_unquoted_val(input, pos),
        },
    }
}

/// Parses one HTML attribute, e.g. `key="val"`, `key=val`, or bare `key`.
pub fn parse_attribute(input: &Vec<char>, pos: usize) -> (r: Result<
    (usize, Vec<char>, Option<Vec<char>>),
    ParseError,
>)
    requires
        pos <= input.len(),
    ensures
        r matches Ok((end, k, v)) ==> spec_parse_attribute(input@, pos as int) == Some(
            (end as int, k@, val_view(v)),
        ) && pos < end <= input.len(),
        r matches Err(e) ==> spec_parse_attribute(input@, pos as int) is None && e
            == ParseError::Lexical,
{
    let (k_end, k) = match parse_key(input, pos) {
        Ok(v) => v,
        Err(e) => {
            return Err(e);
        },
    };
    let p1 = skip_spaces(input, k_end);
    if p1 < input.len() && input[p1] == '=' {
        let p2 = skip_spaces(input, p1 + 1);
        match parse_val(input, p2) {
            Ok((e, v)) => Ok((e, k, Some(v))),
            Err(_) => Ok((p2, k, None)),
        }
    } else {
        match parse_val(input, k_end) {
            Ok((e, v)) => Ok((e, k, Some(v))),
            Err(_) => Ok((k_end, k, None)),
        }
    }
}

// ---------------------------------------------------------------------------
// The key-to-value mapping
// ---------------------------------------------------------------------------

/// One parsed attribute: a key and an optional value.
#[derive(Debug, PartialEq, Eq)]
pub struct Attribute {
    pub key: Vec<char>,
    pub value: Option<Vec<char>>,
}

/// The spec-level shape of one attribute.
pub open spec fn attr_view(a: Attribute) -> (Seq<char>, Option<Seq<char>>) {
    (
        a.key@,
        match a.value {
            Some(v) => Some(v@),
            None => None,
        },
    )
}

/// The spec-level shapes of a sequence of attributes.
pub open spec fn attrs_view(kvs: Seq<Attribute>) -> Seq<(Seq<char>, Option<Seq<char>>)> {
    kvs.map_values(|a: Attribute| attr_view(a))
}

/// The spec-level shape of an optional value.
pub open spec fn val_view(v: Option<Vec<char>>) -> Option<Seq<char>> {
    match v {
        Some(v) => Some(v@),
        None => None,
    }
}

/// The first index whose key is `key`, or `None`.
pub open spec fn spec_find_key(kvs: Seq<(Seq<char>, Option<Seq<char>>)>, key: Seq<char>) -> Option<
    int,
>
    decreases kvs.len(),
{
    if kvs.len() == 0 {
        None
    } else if kvs[0].0 == key {
        Some(0)
    } else {
        match spec_find_key(kvs.drop_first(), key) {
            Some(j) => Some(j + 1),
            None => None,
        }
    }
}

/// The value stored under `key`, if the key is present.
pub open spec fn spec_lookup(kvs: Seq<(Seq<char>, Option<Seq<char>>)>, key: Seq<char>) -> Option<
    Option<Seq<char>>,
> {
    match spec_find_key(kvs, key) {
        Some(j) => Some(kvs[j].1),
        None => None,
    }
}

/// The mapping with `key` removed, if present.
pub open spec fn spec_remove_key(
    kvs: Seq<(Seq<char>, Option<Seq<char>>)>,
    key: Seq<char>,
) -> Seq<(Seq<char>, Option<Seq<char>>)> {
    match spec_find_key(kvs, key) {
        Some(j) => kvs.remove(j),
        None => kvs,
    }
}

/// The mapping after writing `key -> v`: an existing key keeps its
/// position and takes the new value; a new key is appended.
pub open spec fn spec_insert(
    kvs: Seq<(Seq<char>, Option<Seq<char>>)>,
    key: Seq<char>,
    v: Option<Seq<char>>,
) -> Seq<(Seq<char>, Option<Seq<char>>)> {
    match spec_find_key(kvs, key) {
        Some(j) => kvs.update(j, (key, v)),
        None => kvs.push((key, v)),
    }
}

/// The mapping after writing all pairs of `raw`, in order.
pub open spec fn spec_insert_all(
    acc: Seq<(Seq<char>, Option<Seq<char>>)>,
    raw: Seq<(Seq<char>, Option<Seq<char>>)>,
) -> Seq<(Seq<char>, Option<Seq<char>>)>
    decreases raw.len(),
{
    if raw.len() == 0 {
        acc
    } else {
        spec_insert_all(spec_insert(acc, raw[0].0, raw[0].1), raw.drop_first())
    }
}

/// No two entries share a key.
pub open spec fn unique_keys(kvs: Seq<(Seq<char>, Option<Seq<char>>)>) -> bool {
    forall|i: int, j: int| 0 <= i < j < kvs.len() ==> (#[trigger] kvs[i]).0 != (#[trigger] kvs[j]).0
}

/// Where `spec_find_key` answers, and that its answer is the first match.
pub proof fn lemma_find_key_props(kvs: Seq<(Seq<char>, Option<Seq<char>>)>, key: Seq<char>)
    ensures
        match spec_find_key(kvs, key) {
            Some(j) => 0 <= j < kvs.len() && kvs[j].0 == key && forall|k: int|
                0 <= k < j ==> (#[trigger] kvs[k]).0 != key,
            None => forall|k: int| 0 <= k < kvs.len() ==> (#[trigger] kvs[k]).0 != key,
        },
    decreases kvs.len(),
{
    if kvs.len() > 0 && kvs[0].0 != key {
        lemma_find_key_props(kvs.drop_first(), key);
        assert forall|k: int| 1 <= k < kvs.len() implies (#[trigger] kvs[k]).0
            == kvs.drop_first()[k - 1].0 by {}
    }
}

/// Writing the pairs one by one, last pair last, is writing the last pair
/// into the mapping built from the others.
pub proof fn lemma_insert_all_snoc(
    acc: Seq<(Seq<char>, Option<Seq<char>>)>,
    raw: Seq<(Seq<char>, Option<Seq<char>>)>,
    pair: (Seq<char>, Option<Seq<char>>),
)
    ensures
        spec_insert_all(acc, raw.push(pair)) == spec_insert(
            spec_insert_all(acc, raw),
            pair.0,
            pair.1,
        ),
    decreases raw.len(),
{
    if raw.len() == 0 {
        assert(raw.push(pair)[0] == pair);
        assert(raw.push(pair).drop_first() =~= Seq::<(Seq<char>, Option<Seq<char>>)>::empty());
        assert(spec_insert_all(acc, raw) == acc);
        assert(spec_insert_all(acc, raw.push(pair)) == spec_insert_all(
            spec_insert(acc, pair.0, pair.1),
            raw.push(pair).drop_first(),
        ));
        assert(spec_insert_all(spec_insert(acc, pair.0, pair.1), raw.push(pair).drop_first())
            == spec_insert(acc, pair.0, pair.1));
    } else {
        assert(raw.push(pair)[0] == raw[0]);
        assert(raw.push(pair).drop_first() =~= raw.drop_first().push(pair));
        assert(spec_insert_all(acc, raw.push(pair)) == spec_insert_all(
            spec_insert(acc, raw[0].0, raw[0].1),
            raw.push(pair).drop_first(),
        ));
        assert(spec_insert_all(acc, raw) == spec_insert_all(
            spec_insert(acc, raw[0].0, raw[0].1),
            raw.drop_first(),
        ));
        lemma_insert_all_snoc(spec_insert(acc, raw[0].0, raw[0].1), raw.drop_first(), pair);
    }
}

/// A match at `i` with no earlier match is where `spec_find_key` answers.
pub proof fn lemma_find_key_at(kvs: Seq<(Seq<char>, Option<Seq<char>>)>, key: Seq<char>, i: int)
    requires
        0 <= i < kvs.len(),
        kvs[i].0 == key,
        forall|k: int| 0 <= k < i ==> (#[trigger] kvs[k]).0 != key,
    ensures
        spec_find_key(kvs, key) == Some(i),
{
    lemma_find_key_props(kvs, key);
    match spec_find_key(kvs, key) {
        Some(j) => {
            if j < i {
                assert(kvs[j].0 != key);
            }
            if j > i {
                assert(kvs[i].0 != key);
            }
        },
        None => {
            assert(kvs[i].0 != key);
        },
    }
}

/// With no match anywhere, `spec_find_key` answers `None`.
pub proof fn lemma_find_key_none(kvs: Seq<(Seq<char>, Option<Seq<char>>)>, key: Seq<char>)
    requires
        forall|k: int| 0 <= k < kvs.len() ==> (#[trigger] kvs[k]).0 != key,
    ensures
        spec_find_key(kvs, key) is None,
{
    lemma_find_key_props(kvs, key);
    match spec_find_key(kvs, key) {
        Some(j) => {
            assert(kvs[j].0 != key);
        },
        None => {},
    }
}

/// Writing a key keeps the keys unique.
pub proof fn lemma_insert_preserves_unique(
    kvs: Seq<(Seq<char>, Option<Seq<char>>)>,
    key: Seq<char>,
    v: Option<Seq<char>>,
)
    requires
        unique_keys(kvs),
    ensures
        unique_keys(spec_insert(kvs, key, v)),
{
    lemma_find_key_props(kvs, key);
    match spec_find_key(kvs, key) {
        Some(j) => {
            let r = kvs.update(j, (key, v));
            assert forall|i1: int, i2: int| 0 <= i1 < i2 < r.len() implies (#[trigger] r[i1]).0 != (
            #[trigger] r[i2]).0 by {
                if i1 != j && i2 != j {
                    assert(r[i1] == kvs[i1] && r[i2] == kvs[i2]);
                }
            }
        },
        None => {
            let r = kvs.push((key, v));
            assert forall|i1: int, i2: int| 0 <= i1 < i2 < r.len() implies (#[trigger] r[i1]).0 != (
            #[trigger] r[i2]).0 by {
                if i2 == kvs.len() {
                    assert(r[i1] == kvs[i1]);
                } else {
                    assert(r[i1] == kvs[i1] && r[i2] == kvs[i2]);
                }
            }
        },
    }
}

/// Writing every pair keeps the keys unique.
pub proof fn lemma_insert_all_preserves_unique(
    acc: Seq<(Seq<char>, Option<Seq<char>>)>,
    raw: Seq<(Seq<char>, Option<Seq<char>>)>,
)
    requires
        unique_keys(acc),
    ensures
        unique_keys(spec_insert_all(acc, raw)),
    decreases raw.len(),
{
    if raw.len() > 0 {
        lemma_insert_preserves_unique(acc, raw[0].0, raw[0].1);
        lemma_insert_all_preserves_unique(spec_insert(acc, raw[0].0, raw[0].1), raw.drop_first());
    }
}

/// The parsed attributes of a tag: a key-to-optional-value mapping in
/// insertion order with unique keys.
#[derive(Debug, PartialEq, Eq)]
pub struct Attributes {
    pub kvs: Vec<Attribute>,
}

impl Default for Attributes {
    /// An empty mapping.
    fn default() -> (r: Self)
        ensures
            r.kvs@.len() == 0,
    {
        Attributes { kvs: Vec::new() }
    }
}

impl Attributes {
    /// The keys of the mapping are unique.
    pub open spec fn wf(self) -> bool {
        unique_keys(attrs_view(self.kvs@))
    }

    /// The entries, in insertion order.
    pub fn iter(&self) -> (r: &Vec<Attribute>)
        ensures
            r == &self.kvs,
    {
        &self.kvs
    }

    /// Writes `key -> value`: an existing key keeps its position and takes
    /// the new value, a new key is appended.
    pub fn insert(&mut self, key: Vec<char>, value: Option<Vec<char>>)
        ensures
            attrs_view(final(self).kvs@) == spec_insert(
                attrs_view(old(self).kvs@),
                key@,
                val_view(value),
            ),
            old(self).wf() ==> final(self).wf(),
    {
        proof {
            lemma_find_key_props(attrs_view(self.kvs@), key@);
            if old(self).wf() {
                lemma_insert_preserves_unique(attrs_view(self.kvs@), key@, val_view(value));
            }
        }
        let mut i: usize = 0;
        while i < self.kvs.len()
            invariant
                0 <= i <= self.kvs@.len(),
                self.kvs == old(self).kvs,
                forall|k: int| 0 <= k < i ==> (#[trigger] attrs_view(self.kvs@)[k]).0 != key@,
            decreases self.kvs@.len() - i,
        {
            if vec_eq(&self.kvs[i].key, &key) {
                proof {
                    assert(attrs_view(self.kvs@)[i as int] == attr_view(self.kvs@[i as int]));
                    lemma_find_key_at(attrs_view(self.kvs@), key@, i as int);
                }
                self.kvs.remove(i);
                self.kvs.insert(i, Attribute { key, value });
                proof {
                    assert(attrs_view(self.kvs@) =~= spec_insert(
                        attrs_view(old(self).kvs@),
                        key@,
                        val_view(value),
                    ));
                }
                return ;
            }
            i = i + 1;
        }
        proof {
            lemma_find_key_none(attrs_view(self.kvs@), key@);
        }
        self.kvs.push(Attribute { key, value });
        proof {
            assert(attrs_view(self.kvs@) =~= spec_insert(
                attrs_view(old(self).kvs@),
                key@,
                val_view(value),
            ));
        }
    }

    /// Parses zero or more whitespace-separated attributes into the
    /// mapping, in source order; on a duplicate key the last write wins.
    /// Never fails: no attribute at all gives the empty mapping.
    pub fn parse(input: &Vec<char>, pos: usize) -> (r: (usize, Self))
        requires
            pos <= input.len(),
        ensures
            ({
                let (e, raw) = spec_parse_raw_attrs(input@, pos as int);
                r.0 == e && attrs_view(r.1.kvs@) == spec_insert_all(Seq::empty(), raw)
            }),
            r.1.wf(),
            pos <= r.0 <= input.len(),
    {
        let mut attrs = Attributes { kvs: Vec::new() };
        let first = match parse_attribute(input, pos) {
            Err(_) => {
                proof {
                    assert(attrs_view(attrs.kvs@) =~= Seq::<
                        (Seq<char>, Option<Seq<char>>),
                    >::empty());
                }
                return (pos, attrs);
            },
            Ok(v) => v,
        };
        let (e0, k0, v0) = first;
        let ghost mut raw_done: Seq<(Seq<char>, Option<Seq<char>>)> = seq![(k0@, val_view(v0))];
        proof {
            assert(attrs_view(attrs.kvs@) =~= Seq::<(Seq<char>, Option<Seq<char>>)>::empty());
        }
        attrs.insert(k0, v0);
        let mut cur: usize = e0;
        let mut done: bool = false;
        proof {
            let empty_acc = Seq::<(Seq<char>, Option<Seq<char>>)>::empty();
            assert(raw_done[0] == (k0@, val_view(v0)));
            assert(raw_done.drop_first() =~= empty_acc);
            assert(spec_insert_all(empty_acc, raw_done) == spec_insert_all(
                spec_insert(empty_acc, k0@, val_view(v0)),
                raw_done.drop_first(),
            ));
            assert(spec_insert_all(spec_insert(empty_acc, k0@, val_view(v0)), raw_done.drop_first())
                == spec_insert(empty_acc, k0@, val_view(v0)));
            assert(attrs_view(attrs.kvs@) == spec_insert_all(empty_acc, raw_done));
        }
        while !done
            invariant
                pos <= cur <= input.len(),
                attrs.wf(),
                attrs_view(attrs.kvs@) == spec_insert_all(Seq::empty(), raw_done),
                ({
                    let (e2, rest) = spec_parse_raw_attrs_next(input@, cur as int);
                    let whole = spec_parse_raw_attrs(input@, pos as int);
                    if done {
                        whole.0 == cur && whole.1 == raw_done
                    } else {
                        whole.0 == e2 && whole.1 == raw_done + rest
                    }
                }),
            decreases input.len() - cur + (if done {
                0int
            } else {
                1int
            }),
        {
            let p = skip_spaces(input, cur);
            if p > cur {
                match parse_attribute(input, p) {
                    Ok((e2, k, v)) => {
                        proof {
                            lemma_insert_all_snoc(Seq::empty(), raw_done, (k@, val_view(v)));
                            let (e3, rest) = spec_parse_raw_attrs_next(input@, e2 as int);
                            assert(raw_done + (seq![(k@, val_view(v))] + rest) =~= raw_done.push(
                                (k@, val_view(v)),
                            ) + rest);
                        }
                        attrs.insert(k, v);
                        proof {
                            raw_done = raw_done.push((k@, val_view(v)));
                        }
                        cur = e2;
                    },
                    Err(_) => {
                        proof {
                            assert(raw_done + Seq::<(Seq<char>, Option<Seq<char>>)>::empty()
                                =~= raw_done);
                        }
                        done = true;
                    },
                }
            } else {
                proof {
                    assert(raw_done + Seq::<(Seq<char>, Option<Seq<char>>)>::empty() =~= raw_done);
                }
                done = true;
            }
        }
        (cur, attrs)
    }

    /// Removes `key` and hands back its value: `Some(v)` when the key was
    /// present with value `v` (itself optional), `None` when it was absent.
    pub fn pop(&mut self, key: &str) -> (r: Option<Option<Vec<char>>>)
        ensures
            ({
                let view = attrs_view(old(self).kvs@);
                match spec_find_key(view, key@) {
                    Some(j) => r matches Some(v) && val_view(v) == view[j].1 && attrs_view(
                        final(self).kvs@,
                    ) == view.remove(j),
                    None => r is None && final(self).kvs == old(self).kvs,
                }
            }),
            attrs_view(final(self).kvs@) == spec_remove_key(attrs_view(old(self).kvs@), key@),
            old(self).wf() ==> final(self).wf(),
    {
        proof {
            lemma_find_key_props(attrs_view(self.kvs@), key@);
        }
        let mut i: usize = 0;
        while i < self.kvs.len()
            invariant
                0 <= i <= self.kvs@.len(),
                self.kvs == old(self).kvs,
                forall|k: int| 0 <= k < i ==> (#[trigger] attrs_view(self.kvs@)[k]).0 != key@,
            decreases self.kvs@.len() - i,
        {
            if vec_eq_str(&self.kvs[i].key, key) {
                proof {
                    assert(attrs_view(self.kvs@)[i as int] == attr_view(self.kvs@[i as int]));
                    lemma_find_key_at(attrs_view(self.kvs@), key@, i as int);
                }
                let a = self.kvs.remove(i);
                proof {
                    assert(attrs_view(self.kvs@) =~= attrs_view(old(self).kvs@).remove(
                        i as int,
                    ));
                    if old(self).wf() {
                        let oldv = attrs_view(old(self).kvs@);
                        assert forall|i1: int, i2: int|
                            0 <= i1 < i2 < oldv.remove(i as int).len() implies (#[trigger] oldv
                            .remove(i as int)[i1]).0 != (#[trigger] oldv.remove(i as int)[i2]).0
                        by {}
                    }
                }
                return Some(a.value);
            }
            i = i + 1;
        }
        proof {
            lemma_find_key_none(attrs_view(self.kvs@), key@);
        }
        None
    }
}

// ---------------------------------------------------------------------------
// Rendering
// ---------------------------------------------------------------------------

/// The canonical rendering of one attribute: ` key` for a boolean
/// attribute, ` key="value"` otherwise — the value always double-quoted,
/// whatever the source quoting was.
pub open spec fn spec_render_attr(a: Attribute) -> Seq<char> {
    seq![' '] + a.key@ + match a.value {
        Some(v) => seq!['=', '"'] + v@ + seq!['"'],
        None => Seq::<char>::empty(),
    }
}

/// The canonical renderings of the attributes, concatenated in mapping
/// order.
pub open spec fn spec_render_attrs(kvs: Seq<Attribute>) -> Seq<char>
    decreases kvs.len(),
{
    if kvs.len() == 0 {
        Seq::empty()
    } else {
        spec_render_attrs(kvs.drop_last()) + spec_render_attr(kvs.last())
    }
}

/// Appends the canonical rendering of the attributes to `out`.
pub fn render_attrs_into(out: &mut Vec<char>, kvs: &Vec<Attribute>)
    ensures
        final(out)@ == old(out)@ + spec_render_attrs(kvs@),
{
    let ghost start = old(out)@;
    proof {
        assert(out@ =~= start + spec_render_attrs(kvs@.take(0)));
    }
    let mut i: usize = 0;
    while i < kvs.len()
        invariant
            0 <= i <= kvs@.len(),
            out@ == start + spec_render_attrs(kvs@.take(i as int)),
        decreases kvs@.len() - i,
    {
        out.push(' ');
        crate::lex::push_all(out, &kvs[i].key);
        match &kvs[i].value {
            Some(v) => {
                out.push('=');
                out.push('"');
                crate::lex::push_all(out, v);
                out.push('"');
            },
            None => {},
        }
        proof {
            let taken = kvs@.take(i + 1 as int);
            assert(taken.drop_last() =~= kvs@.take(i as int));
            assert(taken.last() == kvs@[i as int]);
            assert(out@ =~= start + spec_render_attrs(taken));
        }
        i = i + 1;
    }
    proof {
        assert(kvs@.take(kvs@.len() as int) =~= kvs@);
    }
}

} // verus!
