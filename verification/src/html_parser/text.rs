//! Raw text between HTML tags.

use crate::lex::{scan_until_char, spec_scan_until_char};
use vstd::prelude::*;

verus! {

/// Where a text run beginning at `i` ends: at the next `<`, or at the end
/// of the input.
pub open spec fn spec_html_text_end(s: Seq<char>, i: int) -> int {
    spec_scan_until_char(s, i, '<')
}

/// Parses the text between tags: everything up to the next `<`. The run
/// may be empty.
pub fn parse_text(input: &Vec<char>, pos: usize) -> (end: usize)
    requires
        pos <= input.len(),
    ensures
        end == spec_html_text_end(input@, pos as int),
        pos <= end <= input.len(),
        end < input.len() ==> input@[end as int] == '<',
{
    scan_until_char(input, pos, '<')
}

} // verus!
