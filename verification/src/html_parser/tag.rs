//! HTML opening tags (`<div a="b">`) and closing tags (`</div>`).

use crate::html_parser::attribute::{
    attrs_view, render_attrs_into, spec_insert_all, spec_parse_raw_attrs, spec_render_attrs,
    Attributes,
};
use crate::html_parser::element::{is_void_name, spec_is_void_name, ElementVariant};
use crate::lex::{
    chars_to_string, copy_range, is_ascii_char, push_all, skip_spaces, spec_skip_spaces,
};
use crate::ParseError;
use vstd::prelude::*;

verus! {

/// A character allowed in a tag name: ASCII, but not `/`, `>` or a space.
pub open spec fn is_tag_name_char(c: char) -> bool {
    is_ascii_char(c) && c != '/' && c != '>' && c != ' '
}

/// The first index at or after `i` that does not hold a tag-name
/// character.
pub open spec fn spec_scan_tag_name(s: Seq<char>, i: int) -> int
    decreases s.len() - i,
{
    if i < s.len() && is_tag_name_char(s[i]) {
        spec_scan_tag_name(s, i + 1)
    } else {
        i
    }
}

/// What parsing a tag name (one or more tag-name characters) at `i`
/// yields.
pub open spec fn spec_parse_tag_name(s: Seq<char>, i: int) -> Option<(int, Seq<char>)> {
    if i < s.len() && is_tag_name_char(s[i]) {
        let e = spec_scan_tag_name(s, i + 1);
        Some((e, s.subrange(i, e)))
    } else {
        None
    }
}

/// The name scan never moves backwards, nor past the end.
pub proof fn lemma_scan_tag_name_bounds(s: Seq<char>, i: int)
    requires
        0 <= i <= s.len(),
    ensures
        i <= spec_scan_tag_name(s, i) <= s.len(),
    decreases s.len() - i,
{
    if i < s.len() && is_tag_name_char(s[i]) {
        lemma_scan_tag_name_bounds(s, i + 1);
    }
}

/// A parsed opening tag ends within the input, past its start.
pub proof fn lemma_html_tag_bounds(s: Seq<char>, i: int)
    requires
        0 <= i,
    ensures
        match spec_parse_html_tag(s, i) {
            Some((p1, name, raw, sc)) => i < p1 <= s.len(),
            None => true,
        },
{
    if i < s.len() && s[i] == '<' {
        crate::lex::lemma_skip_spaces_bounds(s, i + 1);
        let p0 = spec_skip_spaces(s, i + 1);
        match spec_parse_tag_name(s, p0) {
            None => {},
            Some((pn, name)) => {
                lemma_scan_tag_name_bounds(s, p0 + 1);
                crate::lex::lemma_skip_spaces_bounds(s, pn);
                let p2 = spec_skip_spaces(s, pn);
                crate::html_parser::attribute::lemma_raw_attrs_bounds(s, p2);
                let p3 = spec_parse_raw_attrs(s, p2).0;
                crate::lex::lemma_skip_spaces_bounds(s, p3);
                let p4 = spec_skip_spaces(s, p3);
                let p5: int = if p4 < s.len() && s[p4] == '/' {
                    p4 + 1
                } else {
                    p4
                };
                crate::lex::lemma_skip_spaces_bounds(s, p5);
            },
        }
    }
}

/// A parsed closing tag ends within the input, past its start.
pub proof fn lemma_closing_tag_bounds(s: Seq<char>, i: int)
    requires
        0 <= i,
    ensures
        match spec_parse_closing_tag(s, i) {
            Some((p2, name)) => i < p2 <= s.len(),
            None => true,
        },
{
    if i + 2 <= s.len() && s[i] == '<' && s[i + 1] == '/' {
        crate::lex::lemma_skip_spaces_bounds(s, i + 2);
        let p0 = spec_skip_spaces(s, i + 2);
        match spec_parse_tag_name(s, p0) {
            None => {},
            Some((pn, name)) => {
                lemma_scan_tag_name_bounds(s, p0 + 1);
                crate::lex::lemma_skip_spaces_bounds(s, pn);
            },
        }
    }
}

/// Parses a tag name: one or more ASCII characters other than `/`, `>`
/// and space.
pub fn parse_tag_name(input: &Vec<char>, pos: usize) -> (r: Result<(usize, Vec<char>), ParseError>)
    requires
        pos <= input.len(),
    ensures
        r matches Ok((end, n)) ==> spec_parse_tag_name(input@, pos as int) == Some(
            (end as int, n@),
        ) && pos < end <= input.len(),
        r matches Err(e) ==> spec_parse_tag_name(input@, pos as int) is None && e
            == ParseError::Lexical,
{
    if pos < input.len() && (input[pos] as u32) < 128 && input[pos] != '/' && input[pos] != '>'
        && input[pos] != ' ' {
        proof {
            assert(spec_scan_tag_name(input@, pos as int) == spec_scan_tag_name(input@, pos + 1));
        }
        let e = scan_tag_name(input, pos + 1);
        let n = copy_range(input, pos, e);
        Ok((e, n))
    } else {
        Err(ParseError::Lexical)
    }
}

/// Advances past tag-name characters.
fn scan_tag_name(input: &Vec<char>, pos: usize) -> (end: usize)
    requires
        pos <= input.len(),
    ensures
        end == spec_scan_tag_name(input@, pos as int),
        pos <= end <= input.len(),
{
    let mut i: usize = pos;
    while i < input.len() && (input[i] as u32) < 128 && input[i] != '/' && input[i] != '>'
        && input[i] != ' '
        invariant
            pos <= i <= input.len(),
            spec_scan_tag_name(input@, pos as int) == spec_scan_tag_name(input@, i as int),
        decreases input.len() - i,
    {
        i = i + 1;
    }
    i
}

/// What parsing an opening tag at `i` yields: the end position, the tag
/// name, the attributes in source order, and whether a `/` marked the tag
/// self-closing. The shape is `<`, optional whitespace, a name,
/// whitespace-delimited attributes, an optional `/`, optional whitespace,
/// `>`.
pub open spec fn spec_parse_html_tag(s: Seq<char>, i: int) -> Option<
    (int, Seq<char>, Seq<(Seq<char>, Option<Seq<char>>)>, bool),
> {
    if i < s.len() && s[i] == '<' {
        let p0 = spec_skip_spaces(s, i + 1);
        match spec_parse_tag_name(s, p0) {
            None => None,
            Some((p1, name)) => {
                let p2 = spec_skip_spaces(s, p1);
                let (p3, raw) = spec_parse_raw_attrs(s, p2);
                let p4 = spec_skip_spaces(s, p3);
                let (sc, p5): (bool, int) = if p4 < s.len() && s[p4] == '/' {
                    (true, p4 + 1)
                } else {
                    (false, p4)
                };
                let p6 = spec_skip_spaces(s, p5);
                if p6 < s.len() && s[p6] == '>' {
                    Some((p6 + 1, name, raw, sc))
                } else {
                    None
                }
            },
        }
    } else {
        None
    }
}

/// What parsing a closing tag `</name>` at `i` yields: the end position
/// and the name, with flexible whitespace around the name.
pub open spec fn spec_parse_closing_tag(s: Seq<char>, i: int) -> Option<(int, Seq<char>)> {
    if i + 2 <= s.len() && s[i] == '<' && s[i + 1] == '/' {
        let p0 = spec_skip_spaces(s, i + 2);
        match spec_parse_tag_name(s, p0) {
            None => None,
            Some((p1, name)) => {
                let p2 = spec_skip_spaces(s, p1);
                if p2 < s.len() && s[p2] == '>' {
                    Some((p2 + 1, name))
                } else {
                    None
                }
            },
        }
    } else {
        None
    }
}

/// An HTML opening tag, like `<a href="google.com">`.
#[derive(Debug, PartialEq, Eq)]
pub struct Tag {
    /// Like `div`.
    pub name: Vec<char>,
    pub attributes: Attributes,
    pub variant: ElementVariant,
}

impl Tag {
    /// Parses an opening tag. The tag is `Void` when it carries an
    /// explicit `/` or its name is one of the fixed void-element names;
    /// otherwise it is `Normal`.
    pub fn parse(input: &Vec<char>, pos: usize) -> (r: Result<(usize, Self), ParseError>)
        requires
            pos <= input.len(),
        ensures
            r matches Ok((end, t)) ==> ({
                match spec_parse_html_tag(input@, pos as int) {
                    Some((e, name, raw, sc)) => {
                        &&& end == e
                        &&& t.name@ == name
                        &&& attrs_view(t.attributes.kvs@) == spec_insert_all(Seq::empty(), raw)
                        &&& t.attributes.wf()
                        &&& (t.variant is Void <==> (sc || spec_is_void_name(name)))
                        &&& pos < end <= input.len()
                    },
                    None => false,
                }
            }),
            r matches Err(e) ==> spec_parse_html_tag(input@, pos as int) is None && e
                == ParseError::Lexical,
    {
        if pos < input.len() && input[pos] == '<' {
            let p0 = skip_spaces(input, pos + 1);
            let (p1, name) = match parse_tag_name(input, p0) {
                Ok(v) => v,
                Err(e) => {
                    return Err(e);
                },
            };
            let p2 = skip_spaces(input, p1);
            let (p3, attributes) = Attributes::parse(input, p2);
            let p4 = skip_spaces(input, p3);
            let (sc, p5): (bool, usize) = if p4 < input.len() && input[p4] == '/' {
                (true, p4 + 1)
            } else {
                (false, p4)
            };
            let p6 = skip_spaces(input, p5);
            if p6 < input.len() && input[p6] == '>' {
                let variant = if sc || is_void_name(&name) {
                    ElementVariant::Void
                } else {
                    ElementVariant::Normal
                };
                Ok((p6 + 1, Tag { name, attributes, variant }))
            } else {
                Err(ParseError::Lexical)
            }
        } else {
            Err(ParseError::Lexical)
        }
    }

    /// The canonical rendering of the bare tag: `<name` + the attributes +
    /// `>`. Variant and nesting are the element renderer's business.
    pub open spec fn spec_render(self) -> Seq<char> {
        seq!['<'] + self.name@ + spec_render_attrs(self.attributes.kvs@) + seq!['>']
    }

    /// Renders the tag: `<name key="value" ...>`.
    pub fn to_html(&self) -> (r: String)
        ensures
            r@ == self.spec_render(),
    {
        let mut out: Vec<char> = Vec::new();
        out.push('<');
        push_all(&mut out, &self.name);
        render_attrs_into(&mut out, &self.attributes.kvs);
        out.push('>');
        proof {
            assert(out@ =~= self.spec_render());
        }
        chars_to_string(&out)
    }
}

/// An HTML closing tag, like `</a>`.
#[derive(Debug, PartialEq, Eq)]
pub struct ClosingTag {
    /// Like `div`.
    pub name: Vec<char>,
}

impl ClosingTag {
    /// Parses a closing tag, e.g. `</div>`.
    pub fn parse(input: &Vec<char>, pos: usize) -> (r: Result<(usize, Self), ParseError>)
        requires
            pos <= input.len(),
        ensures
            r matches Ok((end, t)) ==> spec_parse_closing_tag(input@, pos as int) == Some(
                (end as int, t.name@),
            ) && pos < end <= input.len(),
            r matches Err(e) ==> spec_parse_closing_tag(input@, pos as int) is None && e
                == ParseError::Lexical,
    {
        if input.len() - pos >= 2 && input[pos] == '<' && input[pos + 1] == '/' {
            let p0 = skip_spaces(input, pos + 2);
            let (p1, name) = match parse_tag_name(input, p0) {
                Ok(v) => v,
                Err(e) => {
                    return Err(e);
                },
            };
            let p2 = skip_spaces(input, p1);
            if p2 < input.len() && input[p2] == '>' {
                Ok((p2 + 1, ClosingTag { name }))
            } else {
                Err(ParseError::Lexical)
            }
        } else {
            Err(ParseError::Lexical)
        }
    }

    /// The canonical rendering: `</name>`.
    pub open spec fn spec_render(self) -> Seq<char> {
        seq!['<', '/'] + self.name@ + seq!['>']
    }

    /// Renders the closing tag: `</name>`.
    pub fn to_html(&self) -> (r: String)
        ensures
            r@ == self.spec_render(),
    {
        let mut out: Vec<char> = Vec::new();
        out.push('<');
        out.push('/');
        push_all(&mut out, &self.name);
        out.push('>');
        proof {
            assert(out@ =~= self.spec_render());
        }
        chars_to_string(&out)
    }
}

} // verus!
