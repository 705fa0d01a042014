//! Standalone scanners for Django template fragments: a bare `{{ var }}`
//! reference and a single-line `{# comment #}`.
//!
//! Reference material: https://docs.djangoproject.com/en/5.0/ref/templates/language/

use crate::lex::{
    copy_range, find2, skip_spaces, spec_find2, spec_skip_spaces, spec_trim, trim_chars,
};
use crate::template_parser::variable::{scan_ident, spec_scan_ident};
use crate::ParseError;
use vstd::prelude::*;

verus! {

/// An ASCII letter.
pub open spec fn is_ascii_alpha_char(c: char) -> bool {
    (97 <= c as u32 && c as u32 <= 122) || (65 <= c as u32 && c as u32 <= 90)
}

/// What parsing `{{ var }}` at `i` yields: the end position and the
/// variable path, which must open with an ASCII letter and hold at least
/// one path character; whitespace around the path is flexible.
pub open spec fn spec_parse_django_variable(s: Seq<char>, i: int) -> Option<(int, Seq<char>)> {
    if i + 2 <= s.len() && s[i] == '{' && s[i + 1] == '{' {
        let p0 = spec_skip_spaces(s, i + 2);
        if p0 < s.len() && is_ascii_alpha_char(s[p0]) {
            let e = spec_scan_ident(s, p0);
            if e > p0 {
                let p1 = spec_skip_spaces(s, e);
                if p1 + 2 <= s.len() && s[p1] == '}' && s[p1 + 1] == '}' {
                    Some((p1 + 2, s.subrange(p0, e)))
                } else {
                    None
                }
            } else {
                None
            }
        } else {
            None
        }
    } else {
        None
    }
}

/// Parses a Django variable reference, e.g. `{{ my_var.sub }}`.
pub fn parse_django_variable(input: &Vec<char>, pos: usize) -> (r: Result<
    (usize, Vec<char>),
    ParseError,
>)
    requires
        pos <= input.len(),
    ensures
        r matches Ok((end, v)) ==> spec_parse_django_variable(input@, pos as int) == Some(
            (end as int, v@),
        ) && pos < end <= input.len(),
        r matches Err(e) ==> spec_parse_django_variable(input@, pos as int) is None && e
            == ParseError::Lexical,
{
    if input.len() - pos >= 2 && input[pos] == '{' && input[pos + 1] == '{' {
        let p0 = skip_spaces(input, pos + 2);
        if p0 < input.len() && ((97 <= input[p0] as u32 && input[p0] as u32 <= 122) || (65
            <= input[p0] as u32 && input[p0] as u32 <= 90)) {
            let e = scan_ident(input, p0);
            if e > p0 {
                let p1 = skip_spaces(input, e);
                if input.len() - p1 >= 2 && input[p1] == '}' && input[p1 + 1] == '}' {
                    let v = copy_range(input, p0, e);
                    Ok((p1 + 2, v))
                } else {
                    Err(ParseError::Lexical)
                }
            } else {
                Err(ParseError::Lexical)
            }
        } else {
            Err(ParseError::Lexical)
        }
    } else {
        Err(ParseError::Lexical)
    }
}

/// What scanning comment contents at `i` yields: everything up to the
/// first `#}` (which is not consumed), trimmed of surrounding whitespace.
pub open spec fn spec_parse_comment_contents(s: Seq<char>, i: int) -> Option<(int, Seq<char>)> {
    match spec_find2(s, i, '#', '}') {
        Some(p) => Some((p, spec_trim(s.subrange(i, p)))),
        None => None,
    }
}

/// Parses comment contents: the text before the next `#}`, trimmed. The
/// closing `#}` itself is left unconsumed.
pub fn parse_comment_contents(input: &Vec<char>, pos: usize) -> (r: Result<
    (usize, Vec<char>),
    ParseError,
>)
    requires
        pos <= input.len(),
    ensures
        r matches Ok((end, c)) ==> spec_parse_comment_contents(input@, pos as int) == Some(
            (end as int, c@),
        ) && pos <= end <= input.len(),
        r matches Err(e) ==> spec_parse_comment_contents(input@, pos as int) is None && e
            == ParseError::Lexical,
{
    match find2(input, pos, '#', '}') {
        Some(p) => {
            let raw = copy_range(input, pos, p);
            let body = trim_chars(&raw);
            Ok((p, body))
        },
        None => Err(ParseError::Lexical),
    }
}

/// What parsing `{# comment #}` at `i` yields: the end position and the
/// trimmed body. The comment must sit on a single line in spirit, but any
/// characters before the first `#}` belong to it.
pub open spec fn spec_parse_django_single_line_comment(s: Seq<char>, i: int) -> Option<
    (int, Seq<char>),
> {
    if i + 2 <= s.len() && s[i] == '{' && s[i + 1] == '#' {
        match spec_parse_comment_contents(s, i + 2) {
            Some((p, body)) => if p + 2 <= s.len() && s[p] == '#' && s[p + 1] == '}' {
                Some((p + 2, body))
            } else {
                None
            },
            None => None,
        }
    } else {
        None
    }
}

/// Parses a Django single-line comment, e.g. `{# my comment #}`.
pub fn parse_django_single_line_comment(input: &Vec<char>, pos: usize) -> (r: Result<
    (usize, Vec<char>),
    ParseError,
>)
    requires
        pos <= input.len(),
    ensures
        r matches Ok((end, c)) ==> spec_parse_django_single_line_comment(input@, pos as int)
            == Some((end as int, c@)) && pos < end <= input.len(),
        r matches Err(e) ==> spec_parse_django_single_line_comment(input@, pos as int) is None && e
            == ParseError::Lexical,
{
    if input.len() - pos >= 2 && input[pos] == '{' && input[pos + 1] == '#' {
        match parse_comment_contents(input, pos + 2) {
            Ok((p, body)) => {
                if input.len() - p >= 2 && input[p] == '#' && input[p + 1] == '}' {
                    Ok((p + 2, body))
                } else {
                    Err(ParseError::Lexical)
                }
            },
            Err(e) => Err(e),
        }
    } else {
        Err(ParseError::Lexical)
    }
}

} // verus!
