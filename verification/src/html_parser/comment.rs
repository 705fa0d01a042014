//! HTML comments: `<!-- ... -->`.

use crate::lex::{copy_range, find3, spec_find3, spec_trim, trim_chars};
use crate::ParseError;
use vstd::prelude::*;

verus! {

/// What parsing an HTML comment at `i` yields: the end position and the
/// body, trimmed of surrounding whitespace. The body runs to the first
/// `-->`.
pub open spec fn spec_parse_html_comment(s: Seq<char>, i: int) -> Option<(int, Seq<char>)> {
    if i + 4 <= s.len() && s[i] == '<' && s[i + 1] == '!' && s[i + 2] == '-' && s[i + 3] == '-' {
        match spec_find3(s, i + 4, '-', '-', '>') {
            Some(p) => Some((p + 3, spec_trim(s.subrange(i + 4, p)))),
            None => None,
        }
    } else {
        None
    }
}

/// Parses an HTML comment, e.g. `<!-- my comment -->`, trimming the body.
pub fn parse_comment(input: &Vec<char>, pos: usize) -> (r: Result<(usize, Vec<char>), ParseError>)
    requires
        pos <= input.len(),
    ensures
        r matches Ok((end, c)) ==> spec_parse_html_comment(input@, pos as int) == Some(
            (end as int, c@),
        ) && pos < end <= input.len(),
        r matches Err(e) ==> spec_parse_html_comment(input@, pos as int) is None && e
            == ParseError::Lexical,
{
    if input.len() - pos >= 4 && input[pos] == '<' && input[pos + 1] == '!' && input[pos + 2] == '-'
        && input[pos + 3] == '-' {
        match find3(input, pos + 4, '-', '-', '>') {
            Some(p) => {
                let raw = copy_range(input, pos + 4, p);
                let body = trim_chars(&raw);
                Ok((p + 3, body))
            },
            None => Err(ParseError::Lexical),
        }
    } else {
        Err(ParseError::Lexical)
    }
}

} // verus!
