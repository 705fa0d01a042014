//! Variable paths (`my_var.sub.0`) and the `{{ ... }}` variable tag.

use crate::lex::{
    chars_to_string, copy_range, is_unicode_alphabetic, is_unicode_alphanumeric, push_all,
    skip_spaces, spec_skip_spaces,
};
use crate::template_parser::argument::ArgValV;
use crate::template_parser::filter::{
    filter_views, parse_filter_chain, spec_parse_filter_chain, spec_render_filters_concat, Filter,
};
use crate::ParseError;
use vstd::prelude::*;

verus! {

/// A character allowed after the first one of a variable path: alphanumeric,
/// underscore, or a dot for property/index chaining.
pub open spec fn is_ident_char(c: char) -> bool {
    is_unicode_alphanumeric(c) || c == '_' || c == '.'
}

/// A character allowed to open a variable path.
pub open spec fn is_ident_start_char(c: char) -> bool {
    is_unicode_alphabetic(c) || c == '_'
}

/// The first index at or after `i` that does not hold a path character.
pub open spec fn spec_scan_ident(s: Seq<char>, i: int) -> int
    decreases s.len() - i,
{
    if i < s.len() && is_ident_char(s[i]) {
        spec_scan_ident(s, i + 1)
    } else {
        i
    }
}

/// What parsing a variable path at `i` yields: the end position and the
/// path itself. The first character must open a path; the run then extends
/// as far as path characters go.
pub open spec fn spec_parse_variable(s: Seq<char>, i: int) -> Option<(int, Seq<char>)> {
    if i < s.len() && is_ident_start_char(s[i]) {
        let e = spec_scan_ident(s, i);
        Some((e, s.subrange(i, e)))
    } else {
        None
    }
}

/// Advances past variable-path characters.
pub fn scan_ident(input: &Vec<char>, pos: usize) -> (end: usize)
    requires
        pos <= input.len(),
    ensures
        end == spec_scan_ident(input@, pos as int),
        pos <= end <= input.len(),
{
    let mut i: usize = pos;
    while i < input.len() && (input[i].is_alphanumeric() || input[i] == '_' || input[i] == '.')
        invariant
            pos <= i <= input.len(),
            spec_scan_ident(input@, pos as int) == spec_scan_ident(input@, i as int),
        decreases input.len() - i,
    {
        i = i + 1;
    }
    i
}

/// Parses a variable path, which may contain alphanumeric characters,
/// underscores and dots, but must start with an alphabetic character or an
/// underscore.
pub fn parse_variable(input: &Vec<char>, pos: usize) -> (r: Result<(usize, Vec<char>), ParseError>)
    requires
        pos <= input.len(),
    ensures
        r matches Ok((end, v)) ==> spec_parse_variable(input@, pos as int) == Some(
            (end as int, v@),
        ) && pos < end <= input.len(),
        r matches Err(e) ==> spec_parse_variable(input@, pos as int) is None && e
            == ParseError::Lexical,
    {
    if pos < input.len() && (input[pos].is_alphabetic() || input[pos] == '_') {
        proof {
            // The opening character is itself a path character, so the scan
            // of the rest may start one past it.
            assert(is_ident_char(input@[pos as int]));
            assert(spec_scan_ident(input@, pos as int) == spec_scan_ident(input@, pos + 1));
        }
        let e = scan_ident(input, pos + 1);
        let v = copy_range(input, pos, e);
        Ok((e, v))
    } else {
        Err(ParseError::Lexical)
    }
}

/// What parsing a `{{ ... }}` variable tag at `i` yields: the end position
/// (whitespace after `}}` is consumed too), the variable path, and the
/// filter chain. Whitespace is flexible around all delimiters, and a single
/// leading `|` before the chain is accepted.
pub open spec fn spec_parse_variable_tag(s: Seq<char>, i: int) -> Option<
    (int, Seq<char>, Seq<(Seq<char>, Option<ArgValV>)>),
> {
    let p0 = spec_skip_spaces(s, i);
    if p0 + 2 <= s.len() && s[p0] == '{' && s[p0 + 1] == '{' {
        let p1 = spec_skip_spaces(s, p0 + 2);
        match spec_parse_variable(s, p1) {
            None => None,
            Some((p2, path)) => {
                let p3 = spec_skip_spaces(s, p2);
                let p4 = if p3 < s.len() && s[p3] == '|' {
                    p3 + 1
                } else {
                    p3
                };
                let p5 = spec_skip_spaces(s, p4);
                let (p6, fs) = spec_parse_filter_chain(s, p5);
                let p7 = spec_skip_spaces(s, p6);
                if p7 + 2 <= s.len() && s[p7] == '}' && s[p7 + 1] == '}' {
                    Some((spec_skip_spaces(s, p7 + 2), path, fs))
                } else {
                    None
                }
            },
        }
    } else {
        None
    }
}

/// A `{{ path|filters }}` construct: a value interpolation point, rendered
/// but never evaluated.
#[derive(Debug, PartialEq, Eq)]
pub struct VariableTag {
    pub tag_type: Vec<char>,
    pub filters: Vec<Filter>,
}

impl VariableTag {
    /// Parses a variable tag, with flexible whitespace around all
    /// delimiters.
    pub fn parse(input: &Vec<char>, pos: usize) -> (r: Result<(usize, Self), ParseError>)
        requires
            pos <= input.len(),
        ensures
            r matches Ok((end, vt)) ==> spec_parse_variable_tag(input@, pos as int) == Some(
                (end as int, vt.tag_type@, filter_views(vt.filters@)),
            ) && pos < end <= input.len(),
            r matches Err(e) ==> spec_parse_variable_tag(input@, pos as int) is None && e
                == ParseError::Lexical,
    {
        let p0 = skip_spaces(input, pos);
        if input.len() - p0 >= 2 && input[p0] == '{' && input[p0 + 1] == '{' {
            let p1 = skip_spaces(input, p0 + 2);
            let (p2, path) = match parse_variable(input, p1) {
                Ok(v) => v,
                Err(e) => {
                    return Err(e);
                },
            };
            let p3 = skip_spaces(input, p2);
            let p4: usize = if p3 < input.len() && input[p3] == '|' {
                p3 + 1
            } else {
                p3
            };
            let p5 = skip_spaces(input, p4);
            let (p6, filters) = parse_filter_chain(input, p5);
            let p7 = skip_spaces(input, p6);
            if input.len() - p7 >= 2 && input[p7] == '}' && input[p7 + 1] == '}' {
                let p8 = skip_spaces(input, p7 + 2);
                Ok((p8, VariableTag { tag_type: path, filters }))
            } else {
                Err(ParseError::Lexical)
            }
        } else {
            Err(ParseError::Lexical)
        }
    }

    /// The canonical rendering: `{{ path` + each filter's rendering + ` }}`.
    pub open spec fn spec_render(self) -> Seq<char> {
        seq!['{', '{', ' '] + self.tag_type@ + spec_render_filters_concat(self.filters@) + seq![
            ' ',
            '}',
            '}',
        ]
    }

    /// Appends the canonical rendering to `out`.
    pub fn render_into(&self, out: &mut Vec<char>)
        ensures
            final(out)@ == old(out)@ + self.spec_render(),
    {
        out.push('{');
        out.push('{');
        out.push(' ');
        push_all(out, &self.tag_type);
        let ghost prefix = old(out)@ + seq!['{', '{', ' '] + self.tag_type@;
        proof {
            assert(out@ =~= prefix + spec_render_filters_concat(self.filters@.take(0)));
        }
        let mut i: usize = 0;
        while i < self.filters.len()
            invariant
                0 <= i <= self.filters@.len(),
                out@ == prefix + spec_render_filters_concat(self.filters@.take(i as int)),
            decreases self.filters@.len() - i,
        {
            self.filters[i].render_into(out);
            proof {
                let taken = self.filters@.take(i + 1 as int);
                assert(taken.drop_last() =~= self.filters@.take(i as int));
                assert(taken.last() == self.filters@[i as int]);
                assert(out@ =~= prefix + spec_render_filters_concat(taken));
            }
            i = i + 1;
        }
        out.push(' ');
        out.push('}');
        out.push('}');
        proof {
            assert(self.filters@.take(self.filters@.len() as int) =~= self.filters@);
            assert(out@ =~= old(out)@ + self.spec_render());
        }
    }

    /// Renders the variable tag canonically.
    pub fn formatted(&self, _indent_level: usize) -> (r: String)
        ensures
            r@ == self.spec_render(),
    {
        let mut out: Vec<char> = Vec::new();
        self.render_into(&mut out);
        chars_to_string(&out)
    }
}

} // verus!
