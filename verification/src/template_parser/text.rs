//! Raw text runs and single-line quoted strings of the template grammar.

use crate::lex::{
    copy_range, chars_to_string, find_tmpl_marker, is_ascii_char, spec_find_tmpl_marker,
};
use crate::ParseError;
use vstd::prelude::*;

verus! {

/// Where a raw text run beginning at `i` ends: at the first template marker
/// (`{%`, `{{` or `{#`), or at the end of the input when no marker follows.
pub open spec fn spec_template_text_end(s: Seq<char>, i: int) -> int {
    match spec_find_tmpl_marker(s, i) {
        Some(p) => p,
        None => s.len() as int,
    }
}

/// Parses all text up to the next template marker. The run may be empty.
pub fn parse_text(input: &Vec<char>, pos: usize) -> (end: usize)
    requires
        pos <= input.len(),
    ensures
        end == spec_template_text_end(input@, pos as int),
        pos <= end <= input.len(),
{
    match find_tmpl_marker(input, pos) {
        Some(p) => p,
        None => input.len(),
    }
}

/// A character that may appear in a single-line quoted string opened by `q`:
/// ASCII, not the quote itself, and not a newline.
pub open spec fn is_sl_text_char(c: char, q: char) -> bool {
    is_ascii_char(c) && c != q && c != '\n'
}

/// The first index at or after `i` that ends a run of string characters.
pub open spec fn spec_scan_sl_text(s: Seq<char>, i: int, q: char) -> int
    decreases s.len() - i,
{
    if i < s.len() && is_sl_text_char(s[i], q) {
        spec_scan_sl_text(s, i + 1, q)
    } else {
        i
    }
}

/// What parsing a single-line quoted string at `i` yields: the end position,
/// the quote character that opened it, and the unquoted value.
pub open spec fn spec_parse_sl_string(s: Seq<char>, i: int) -> Option<(int, char, Seq<char>)> {
    if i < s.len() && (s[i] == '\'' || s[i] == '"') {
        let q = s[i];
        let e = spec_scan_sl_text(s, i + 1, q);
        if e < s.len() && s[e] == q {
            Some((e + 1, q, s.subrange(i + 1, e)))
        } else {
            None
        }
    } else {
        None
    }
}

/// A quoted string that must open and close with the same quote character on
/// a single line, e.g. `'my_text'` or `"my_text"`. The quote character is
/// kept so that a tag argument re-renders with its original quoting.
#[derive(Debug, PartialEq, Eq)]
pub struct SingleLineTextString {
    pub value: Vec<char>,
    pub startquote_char: char,
}

impl SingleLineTextString {
    /// Parses a single-line quoted string, e.g. `'my_text'` or `"my_text"`.
    pub fn parse(input: &Vec<char>, pos: usize) -> (r: Result<(usize, Self), ParseError>)
        requires
            pos <= input.len(),
        ensures
            r matches Ok((end, st)) ==> spec_parse_sl_string(input@, pos as int) == Some(
                (end as int, st.startquote_char, st.value@),
            ) && pos < end <= input.len(),
            r matches Err(e) ==> spec_parse_sl_string(input@, pos as int) is None && e
                == ParseError::Lexical,
    {
        if pos < input.len() && (input[pos] == '\'' || input[pos] == '"') {
            let q = input[pos];
            let e = scan_sl_text(input, pos + 1, q);
            if e < input.len() && input[e] == q {
                let value = copy_range(input, pos + 1, e);
                Ok((e + 1, SingleLineTextString { value, startquote_char: q }))
            } else {
                Err(ParseError::Lexical)
            }
        } else {
            Err(ParseError::Lexical)
        }
    }

    /// The canonical rendering: the original quote, the value, the quote.
    pub open spec fn spec_render(self) -> Seq<char> {
        seq![self.startquote_char] + self.value@ + seq![self.startquote_char]
    }

    /// Appends the canonical rendering to `out`.
    pub fn render_into(&self, out: &mut Vec<char>)
        ensures
            final(out)@ == old(out)@ + self.spec_render(),
    {
        out.push(self.startquote_char);
        crate::lex::push_all(out, &self.value);
        out.push(self.startquote_char);
        proof {
            assert(out@ =~= old(out)@ + self.spec_render());
        }
    }

    /// Renders the string back with its original quote character.
    pub fn formatted(&self, _indent_level: usize) -> (r: String)
        ensures
            r@ == self.spec_render(),
    {
        let mut out: Vec<char> = Vec::new();
        self.render_into(&mut out);
        chars_to_string(&out)
    }
}

/// Advances past single-line string characters (for the quote `q`).
pub fn scan_sl_text(input: &Vec<char>, pos: usize, q: char) -> (end: usize)
    requires
        pos <= input.len(),
    ensures
        end == spec_scan_sl_text(input@, pos as int, q),
        pos <= end <= input.len(),
{
    let mut i: usize = pos;
    while i < input.len() && (input[i] as u32) < 128 && input[i] != q && input[i] != '\n'
        invariant
            pos <= i <= input.len(),
            spec_scan_sl_text(input@, pos as int, q) == spec_scan_sl_text(input@, i as int, q),
        decreases input.len() - i,
    {
        i = i + 1;
    }
    i
}

} // verus!
