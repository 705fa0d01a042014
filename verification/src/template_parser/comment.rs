//! Template comments: the single-line form `{# ... #}` and the multi-line
//! form `{% comment %} ... {% endcomment %}`.
//!
//! A multi-line comment body may contain text that looks like template tags;
//! the body ends at the first `{% endcomment %}` tag (with flexible
//! whitespace inside it), and that minimality is part of the contract.

use crate::lex::{
    chars_match_str_at, chars_to_string, copy_range, find2, push_all, skip_spaces, spec_find2,
    spec_skip_spaces, spec_trim, trim_chars,
};
use crate::ParseError;
use vstd::prelude::*;
use vstd::string::StrSliceExecFns;

verus! {

/// Where the tag `{% w %}` (with flexible whitespace around `w`) ends when
/// it starts at `i`, or `None` when no such tag is there.
pub open spec fn spec_escape_tag(s: Seq<char>, i: int, w: Seq<char>) -> Option<int> {
    if i + 2 <= s.len() && s[i] == '{' && s[i + 1] == '%' {
        let p = spec_skip_spaces(s, i + 2);
        if p + w.len() <= s.len() && s.subrange(p, p + w.len() as int) == w {
            let q = spec_skip_spaces(s, p + w.len() as int);
            if q + 2 <= s.len() && s[q] == '%' && s[q + 1] == '}' {
                Some(q + 2)
            } else {
                None
            }
        } else {
            None
        }
    } else {
        None
    }
}

/// Parses the tag `{% word %}`, with flexible whitespace around the word.
pub fn parse_escape_tag(input: &Vec<char>, pos: usize, word: &str) -> (r: Option<usize>)
    requires
        pos <= input.len(),
    ensures
        r matches Some(end) ==> spec_escape_tag(input@, pos as int, word@) == Some(end as int)
            && pos < end <= input.len(),
        r is None ==> spec_escape_tag(input@, pos as int, word@) is None,
{
    if input.len() - pos >= 2 && input[pos] == '{' && input[pos + 1] == '%' {
        let p = skip_spaces(input, pos + 2);
        if chars_match_str_at(input, p, word) {
            let n = word.unicode_len();
            let q = skip_spaces(input, p + n);
            if input.len() - q >= 2 && input[q] == '%' && input[q + 1] == '}' {
                Some(q + 2)
            } else {
                None
            }
        } else {
            None
        }
    } else {
        None
    }
}

/// What parsing a single-line comment `{# body #}` at `i` yields: the end
/// position and the body with surrounding whitespace trimmed. The body runs
/// to the first `#}`.
pub open spec fn spec_parse_single_line_comment(s: Seq<char>, i: int) -> Option<(int, Seq<char>)> {
    if i + 2 <= s.len() && s[i] == '{' && s[i + 1] == '#' {
        match spec_find2(s, i + 2, '#', '}') {
            Some(p) => Some((p + 2, spec_trim(s.subrange(i + 2, p)))),
            None => None,
        }
    } else {
        None
    }
}

/// The first index at or after `i` where a `{% endcomment %}` tag parses,
/// or `None` when none does.
pub open spec fn spec_find_endcomment(s: Seq<char>, i: int) -> Option<int>
    decreases s.len() - i,
{
    if i + 2 <= s.len() {
        if spec_escape_tag(s, i, "endcomment"@) is Some {
            Some(i)
        } else {
            spec_find_endcomment(s, i + 1)
        }
    } else {
        None
    }
}

/// What parsing a multi-line comment at `i` yields: the end position (just
/// past the `{% endcomment %}` tag) and the body, which runs from the end
/// of the `{% comment %}` tag to the first `{% endcomment %}` tag and is
/// not trimmed.
pub open spec fn spec_parse_multi_line_comment(s: Seq<char>, i: int) -> Option<(int, Seq<char>)> {
    match spec_escape_tag(s, i, "comment"@) {
        None => None,
        Some(b) => match spec_find_endcomment(s, b) {
            None => None,
            Some(j) => match spec_escape_tag(s, j, "endcomment"@) {
                Some(e) => Some((e, s.subrange(b, j))),
                None => None,
            },
        },
    }
}

/// What parsing either comment form at `i` yields: the single-line form is
/// tried first, then the multi-line form.
pub open spec fn spec_parse_comment(s: Seq<char>, i: int) -> Option<(int, Seq<char>)> {
    match spec_parse_single_line_comment(s, i) {
        Some(r) => Some(r),
        None => spec_parse_multi_line_comment(s, i),
    }
}

/// A comment, already unwrapped: only the body is kept, whichever form the
/// source used.
#[derive(Debug, PartialEq, Eq)]
pub struct Comment(pub Vec<char>);

/// In a range with no `{%`, no `{% endcomment %}` tag can begin.
proof fn lemma_find_endcomment_skip(s: Seq<char>, a: int, b: int)
    requires
        0 <= a <= b <= s.len(),
        forall|p: int| a <= p < b ==> !(p + 2 <= s.len() && #[trigger] s[p] == '{' && s[p + 1] == '%'),
    ensures
        spec_find_endcomment(s, a) == spec_find_endcomment(s, b),
    decreases b - a,
{
    if a < b {
        assert(spec_escape_tag(s, a, "endcomment"@) is None);
        lemma_find_endcomment_skip(s, a + 1, b);
    }
}

/// Wherever `spec_find2` stops, no earlier occurrence exists.
proof fn lemma_find2_none_before(s: Seq<char>, i: int, a: char, b: char)
    requires
        0 <= i,
    ensures
        match spec_find2(s, i, a, b) {
            Some(p) => i <= p && p + 2 <= s.len() && s[p] == a && s[p + 1] == b && forall|k: int|
                i <= k < p ==> !(k + 2 <= s.len() && #[trigger] s[k] == a && s[k + 1] == b),
            None => forall|k: int| i <= k ==> !(k + 2 <= s.len() && #[trigger] s[k] == a && s[k + 1] == b),
        },
    decreases s.len() - i,
{
    if i + 2 <= s.len() {
        if s[i] == a && s[i + 1] == b {
        } else {
            lemma_find2_none_before(s, i + 1, a, b);
        }
    }
}

/// Parses a single-line comment, e.g. `{# my comment #}`. The body runs to
/// the first `#}` and is trimmed.
pub fn parse_single_line_comment(input: &Vec<char>, pos: usize) -> (r: Result<
    (usize, Comment),
    ParseError,
>)
    requires
        pos <= input.len(),
    ensures
        r matches Ok((end, c)) ==> spec_parse_single_line_comment(input@, pos as int) == Some(
            (end as int, c.0@),
        ) && pos < end <= input.len(),
        r matches Err(e) ==> spec_parse_single_line_comment(input@, pos as int) is None && e
            == ParseError::Lexical,
{
    if input.len() - pos >= 2 && input[pos] == '{' && input[pos + 1] == '#' {
        match find2(input, pos + 2, '#', '}') {
            Some(p) => {
                let raw = copy_range(input, pos + 2, p);
                let body = trim_chars(&raw);
                Ok((p + 2, Comment(body)))
            },
            None => Err(ParseError::Lexical),
        }
    } else {
        Err(ParseError::Lexical)
    }
}

/// Parses a multi-line comment `{% comment %} ... {% endcomment %}`. The
/// body may hold template-tag-looking text; it ends at the first
/// `{% endcomment %}` tag.
pub fn parse_multi_line_comment(input: &Vec<char>, pos: usize) -> (r: Result<
    (usize, Comment),
    ParseError,
>)
    requires
        pos <= input.len(),
    ensures
        r matches Ok((end, c)) ==> spec_parse_multi_line_comment(input@, pos as int) == Some(
            (end as int, c.0@),
        ) && pos < end <= input.len(),
        r matches Err(e) ==> spec_parse_multi_line_comment(input@, pos as int) is None && e
            == ParseError::Lexical,
{
    let b = match parse_escape_tag(input, pos, "comment") {
        Some(b) => b,
        None => {
            return Err(ParseError::Lexical);
        },
    };
    let mut cur: usize = b;
    loop
        invariant
            pos <= b <= cur <= input.len(),
            pos < b,
            spec_escape_tag(input@, pos as int, "comment"@) == Some(b as int),
            spec_find_endcomment(input@, b as int) == spec_find_endcomment(input@, cur as int),
        decreases input.len() - cur,
    {
        match find2(input, cur, '{', '%') {
            None => {
                proof {
                    lemma_find2_none_before(input@, cur as int, '{', '%');
                    lemma_find_endcomment_skip(input@, cur as int, input@.len() as int);
                }
                return Err(ParseError::Lexical);
            },
            Some(j) => {
                proof {
                    lemma_find2_none_before(input@, cur as int, '{', '%');
                    lemma_find_endcomment_skip(input@, cur as int, j as int);
                }
                match parse_escape_tag(input, j, "endcomment") {
                    Some(e) => {
                        proof {
                            assert(spec_find_endcomment(input@, j as int) == Some(j as int));
                        }
                        let body = copy_range(input, b, j);
                        return Ok((e, Comment(body)));
                    },
                    None => {
                        proof {
                            // No endcomment tag begins at `j`, nor at `j + 1`
                            // (which holds `%`).
                            assert(spec_find_endcomment(input@, j as int)
                                == spec_find_endcomment(input@, j + 1));
                            assert(spec_escape_tag(input@, j + 1, "endcomment"@) is None);
                        }
                        cur = j + 2;
                    },
                }
            },
        }
    }
}

impl Comment {
    /// Parses a comment in either form: single-line first, then multi-line.
    pub fn parse(input: &Vec<char>, pos: usize) -> (r: Result<(usize, Self), ParseError>)
        requires
            pos <= input.len(),
        ensures
            r matches Ok((end, c)) ==> spec_parse_comment(input@, pos as int) == Some(
                (end as int, c.0@),
            ) && pos < end <= input.len(),
            r matches Err(e) ==> spec_parse_comment(input@, pos as int) is None && e
                == ParseError::Lexical,
    {
        match parse_single_line_comment(input, pos) {
            Ok(r) => Ok(r),
            Err(_) => parse_multi_line_comment(input, pos),
        }
    }

    /// The canonical rendering: the body, verbatim.
    pub open spec fn spec_render(self) -> Seq<char> {
        self.0@
    }

    /// Appends the canonical rendering to `out`.
    pub fn render_into(&self, out: &mut Vec<char>)
        ensures
            final(out)@ == old(out)@ + self.spec_render(),
    {
        push_all(out, &self.0);
    }

    /// Renders the comment canonically.
    pub fn formatted(&self, _indent_level: usize) -> (r: String)
        ensures
            r@ == self.spec_render(),
    {
        chars_to_string(&self.0)
    }
}

} // verus!
