//! Tag arguments: a quoted string or a variable path, with an optional
//! filter chain of its own.

use crate::lex::chars_to_string;
use crate::template_parser::filter::{
    filter_views, parse_filter_chain, spec_parse_filter_chain, spec_render_filters_joined, Filter,
};
use crate::template_parser::text::{spec_parse_sl_string, SingleLineTextString};
use crate::template_parser::variable::{parse_variable, spec_parse_variable};
use crate::ParseError;
use vstd::prelude::*;

verus! {

/// The spec-level shape of a tag-argument value: a quoted string with its
/// quote character, or a bare variable path.
pub enum ArgValV {
    VText(char, Seq<char>),
    VVar(Seq<char>),
}

/// The value of a tag argument: a quoted string (quote style kept) or a
/// variable path.
#[derive(Debug, PartialEq, Eq)]
pub enum TagArgumentValue {
    Text(SingleLineTextString),
    Variable(Vec<char>),
}

/// The spec-level shape of a tag-argument value.
pub open spec fn argval_view(a: TagArgumentValue) -> ArgValV {
    match a {
        TagArgumentValue::Text(st) => ArgValV::VText(st.startquote_char, st.value@),
        TagArgumentValue::Variable(v) => ArgValV::VVar(v@),
    }
}

/// What parsing a tag-argument value at `i` yields: a quoted string when a
/// quote opens the value (with no fallback on failure), a variable path
/// otherwise.
pub open spec fn spec_parse_argval(s: Seq<char>, i: int) -> Option<(int, ArgValV)> {
    if i < s.len() && (s[i] == '\'' || s[i] == '"') {
        match spec_parse_sl_string(s, i) {
            Some((e, q, v)) => Some((e, ArgValV::VText(q, v))),
            None => None,
        }
    } else {
        match spec_parse_variable(s, i) {
            Some((e, v)) => Some((e, ArgValV::VVar(v))),
            None => None,
        }
    }
}

impl TagArgumentValue {
    /// Parses a tag-argument value.
    pub fn parse(input: &Vec<char>, pos: usize) -> (r: Result<(usize, Self), ParseError>)
        requires
            pos <= input.len(),
        ensures
            r matches Ok((end, a)) ==> spec_parse_argval(input@, pos as int) == Some(
                (end as int, argval_view(a)),
            ) && pos < end <= input.len(),
            r matches Err(e) ==> spec_parse_argval(input@, pos as int) is None && e
                == ParseError::Lexical,
    {
        if pos < input.len() && (input[pos] == '\'' || input[pos] == '"') {
            match SingleLineTextString::parse(input, pos) {
                Ok((end, st)) => Ok((end, TagArgumentValue::Text(st))),
                Err(e) => Err(e),
            }
        } else {
            match parse_variable(input, pos) {
                Ok((end, v)) => Ok((end, TagArgumentValue::Variable(v))),
                Err(e) => Err(e),
            }
        }
    }

    /// The canonical rendering: the quoted string with its original quote,
    /// or the bare variable path.
    pub open spec fn spec_render(self) -> Seq<char> {
        match self {
            TagArgumentValue::Text(st) => st.spec_render(),
            TagArgumentValue::Variable(v) => v@,
        }
    }

    /// Appends the canonical rendering to `out`.
    pub fn render_into(&self, out: &mut Vec<char>)
        ensures
            final(out)@ == old(out)@ + self.spec_render(),
    {
        match self {
            TagArgumentValue::Text(st) => {
                st.render_into(out);
            },
            TagArgumentValue::Variable(v) => {
                crate::lex::push_all(out, v);
            },
        }
    }

    /// Renders the value canonically.
    pub fn formatted(&self, _indent_level: usize) -> (r: String)
        ensures
            r@ == self.spec_render(),
    {
        let mut out: Vec<char> = Vec::new();
        self.render_into(&mut out);
        chars_to_string(&out)
    }
}

/// One argument of a `{% ... %}` tag: a value and its own filter chain.
#[derive(Debug, PartialEq, Eq)]
pub struct TagArgument {
    pub value: TagArgumentValue,
    pub filters: Vec<Filter>,
}

/// The spec-level shape of a tag argument.
pub open spec fn tagarg_view(a: TagArgument) -> (ArgValV, Seq<(Seq<char>, Option<ArgValV>)>) {
    (argval_view(a.value), filter_views(a.filters@))
}

/// What parsing a tag argument at `i` yields: a value, then a filter chain.
pub open spec fn spec_parse_tagarg(s: Seq<char>, i: int) -> Option<
    (int, (ArgValV, Seq<(Seq<char>, Option<ArgValV>)>)),
> {
    match spec_parse_argval(s, i) {
        None => None,
        Some((e, v)) => {
            let (e2, fs) = spec_parse_filter_chain(s, e);
            Some((e2, (v, fs)))
        },
    }
}

impl TagArgument {
    /// Parses a tag argument: a value followed by its filter chain.
    pub fn parse(input: &Vec<char>, pos: usize) -> (r: Result<(usize, Self), ParseError>)
        requires
            pos <= input.len(),
        ensures
            r matches Ok((end, a)) ==> spec_parse_tagarg(input@, pos as int) == Some(
                (end as int, tagarg_view(a)),
            ) && pos < end <= input.len(),
            r matches Err(e) ==> spec_parse_tagarg(input@, pos as int) is None && e
                == ParseError::Lexical,
    {
        let (e, value) = match TagArgumentValue::parse(input, pos) {
            Ok(v) => v,
            Err(e) => {
                return Err(e);
            },
        };
        let (end, filters) = parse_filter_chain(input, e);
        Ok((end, TagArgument { value, filters }))
    }

    /// The canonical rendering: the value, then, when filters are present,
    /// ` | ` and the filter renderings joined with ` | `.
    pub open spec fn spec_render(self) -> Seq<char> {
        self.value.spec_render() + if self.filters@.len() == 0 {
            Seq::<char>::empty()
        } else {
            seq![' ', '|', ' '] + spec_render_filters_joined(self.filters@)
        }
    }

    /// Appends the canonical rendering to `out`.
    pub fn render_into(&self, out: &mut Vec<char>)
        ensures
            final(out)@ == old(out)@ + self.spec_render(),
    {
        self.value.render_into(out);
        if self.filters.len() > 0 {
            out.push(' ');
            out.push('|');
            out.push(' ');
            let ghost prefix = old(out)@ + self.value.spec_render() + seq![' ', '|', ' '];
            proof {
                assert(out@ =~= prefix + spec_render_filters_joined(self.filters@.take(0)));
            }
            let mut i: usize = 0;
            while i < self.filters.len()
                invariant
                    0 <= i <= self.filters@.len(),
                    out@ == prefix + spec_render_filters_joined(self.filters@.take(i as int)),
                decreases self.filters@.len() - i,
            {
                if i > 0 {
                    out.push(' ');
                    out.push('|');
                    out.push(' ');
                }
                self.filters[i].render_into(out);
                proof {
                    let taken = self.filters@.take(i + 1 as int);
                    assert(taken.drop_last() =~= self.filters@.take(i as int));
                    assert(taken.last() == self.filters@[i as int]);
                    if i == 0 {
                        assert(out@ =~= prefix + spec_render_filters_joined(taken));
                    } else {
                        assert(out@ =~= prefix + spec_render_filters_joined(taken));
                    }
                }
                i = i + 1;
            }
            proof {
                assert(self.filters@.take(self.filters@.len() as int) =~= self.filters@);
                assert(out@ =~= old(out)@ + self.spec_render());
            }
        } else {
            proof {
                assert(out@ =~= old(out)@ + self.spec_render());
            }
        }
    }

    /// Renders the argument canonically.
    pub fn formatted(&self, _indent_level: usize) -> (r: String)
        ensures
            r@ == self.spec_render(),
    {
        let mut out: Vec<char> = Vec::new();
        self.render_into(&mut out);
        chars_to_string(&out)
    }
}

} // verus!
