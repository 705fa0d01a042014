//! Filters (`|name` or `|name:"arg"`) and filter chains.

use crate::lex::{push_all, chars_to_string, skip_spaces, spec_skip_spaces};
use crate::template_parser::argument::{
    argval_view, spec_parse_argval, ArgValV, TagArgumentValue,
};
use crate::template_parser::variable::{parse_variable, spec_parse_variable};
use crate::ParseError;
use vstd::prelude::*;

verus! {

/// A named post-processing step applied to a variable or tag argument,
/// optionally taking one argument.
#[derive(Debug, PartialEq, Eq)]
pub struct Filter {
    pub filter_type: Vec<char>,
    pub argument: Option<TagArgumentValue>,
}

/// The spec-level shape of a filter: its name and its optional argument.
pub open spec fn filter_view(f: Filter) -> (Seq<char>, Option<ArgValV>) {
    (
        f.filter_type@,
        match f.argument {
            Some(a) => Some(argval_view(a)),
            None => None,
        },
    )
}

/// The spec-level shapes of a sequence of filters.
pub open spec fn filter_views(fs: Seq<Filter>) -> Seq<(Seq<char>, Option<ArgValV>)> {
    fs.map_values(|f: Filter| filter_view(f))
}

/// What parsing one filter at `i` yields. A filter is a name, optionally
/// followed by `:` (with flexible whitespace) and an argument value; a `:`
/// with no argument value after it is a failure. An argument value directly
/// after the name, without `:`, is also accepted.
pub open spec fn spec_parse_filter(s: Seq<char>, i: int) -> Option<
    (int, (Seq<char>, Option<ArgValV>)),
> {
    match spec_parse_variable(s, i) {
        None => None,
        Some((p1, name)) => {
            let p2 = spec_skip_spaces(s, p1);
            if p2 < s.len() && s[p2] == ':' {
                let p3 = spec_skip_spaces(s, p2 + 1);
                match spec_parse_argval(s, p3) {
                    Some((p4, av)) => Some((p4, (name, Some(av)))),
                    None => None,
                }
            } else {
                match spec_parse_argval(s, p1) {
                    Some((p4, av)) => Some((p4, (name, Some(av)))),
                    None => Some((p1, (name, None))),
                }
            }
        },
    }
}

/// After one filter ending at `e`: what consuming `|` (with flexible
/// whitespace) and further filters yields. When no `|` follows, or the
/// filter after a `|` fails, the chain stops at `e` and the separator is
/// given back.
pub open spec fn spec_parse_filters_next(s: Seq<char>, e: int) -> (
    int,
    Seq<(Seq<char>, Option<ArgValV>)>,
)
    decreases s.len() - e,
{
    let p = spec_skip_spaces(s, e);
    if p < s.len() && s[p] == '|' {
        let n = spec_skip_spaces(s, p + 1);
        if e < n {
            match spec_parse_filter(s, n) {
                None => (e, Seq::empty()),
                Some((e2, f)) => if n < e2 && e2 <= s.len() {
                    let (e3, rest) = spec_parse_filters_next(s, e2);
                    (e3, seq![f] + rest)
                } else {
                    (e2, seq![f])
                },
            }
        } else {
            (e, Seq::empty())
        }
    } else {
        (e, Seq::empty())
    }
}

/// Zero or more filters starting at `i`, separated by `|`.
pub open spec fn spec_parse_filters(s: Seq<char>, i: int) -> (
    int,
    Seq<(Seq<char>, Option<ArgValV>)>,
) {
    match spec_parse_filter(s, i) {
        None => (i, Seq::empty()),
        Some((e, f)) => if i < e && e <= s.len() {
            let (e2, rest) = spec_parse_filters_next(s, e);
            (e2, seq![f] + rest)
        } else {
            (e, seq![f])
        },
    }
}

/// A whole filter chain: an optional leading `|` (with flexible whitespace,
/// given back when no `|` is there), then zero or more `|`-separated
/// filters.
pub open spec fn spec_parse_filter_chain(s: Seq<char>, i: int) -> (
    int,
    Seq<(Seq<char>, Option<ArgValV>)>,
) {
    let pa = spec_skip_spaces(s, i);
    let start = if pa < s.len() && s[pa] == '|' {
        spec_skip_spaces(s, pa + 1)
    } else {
        i
    };
    spec_parse_filters(s, start)
}

impl Filter {
    /// Parses one filter: a name, then optionally `:` and an argument.
    pub fn parse(input: &Vec<char>, pos: usize) -> (r: Result<(usize, Self), ParseError>)
        requires
            pos <= input.len(),
        ensures
            r matches Ok((end, f)) ==> spec_parse_filter(input@, pos as int) == Some(
                (end as int, filter_view(f)),
            ) && pos < end <= input.len(),
            r matches Err(e) ==> spec_parse_filter(input@, pos as int) is None && e
                == ParseError::Lexical,
    {
        let (p1, name) = match parse_variable(input, pos) {
            Ok(v) => v,
            Err(e) => {
                return Err(e);
            },
        };
        let p2 = skip_spaces(input, p1);
        if p2 < input.len() && input[p2] == ':' {
            let p3 = skip_spaces(input, p2 + 1);
            match TagArgumentValue::parse(input, p3) {
                Ok((p4, av)) => Ok((p4, Filter { filter_type: name, argument: Some(av) })),
                Err(e) => Err(e),
            }
        } else {
            match TagArgumentValue::parse(input, p1) {
                Ok((p4, av)) => Ok((p4, Filter { filter_type: name, argument: Some(av) })),
                Err(_) => Ok((p1, Filter { filter_type: name, argument: None })),
            }
        }
    }

    /// The canonical rendering: `|name`, then `:"value"` for a text argument
    /// (always double-quoted here) or `:path` for a variable argument.
    pub open spec fn spec_render(self) -> Seq<char> {
        seq!['|'] + self.filter_type@ + match self.argument {
            Some(TagArgumentValue::Text(st)) => seq![':', '"'] + st.value@ + seq!['"'],
            Some(TagArgumentValue::Variable(v)) => seq![':'] + v@,
            None => Seq::<char>::empty(),
        }
    }

    /// Appends the canonical rendering to `out`.
    pub fn render_into(&self, out: &mut Vec<char>)
        ensures
            final(out)@ == old(out)@ + self.spec_render(),
    {
        out.push('|');
        push_all(out, &self.filter_type);
        match &self.argument {
            Some(TagArgumentValue::Text(st)) => {
                out.push(':');
                out.push('"');
                push_all(out, &st.value);
                out.push('"');
            },
            Some(TagArgumentValue::Variable(v)) => {
                out.push(':');
                push_all(out, v);
            },
            None => {},
        }
        proof {
            assert(out@ =~= old(out)@ + self.spec_render());
        }
    }

    /// Renders the filter canonically.
    pub fn formatted(&self, _indent_level: usize) -> (r: String)
        ensures
            r@ == self.spec_render(),
    {
        let mut out: Vec<char> = Vec::new();
        self.render_into(&mut out);
        chars_to_string(&out)
    }
}

/// The renderings of the filters, concatenated; each already starts with
/// its own `|`.
pub open spec fn spec_render_filters_concat(fs: Seq<Filter>) -> Seq<char>
    decreases fs.len(),
{
    if fs.len() == 0 {
        Seq::empty()
    } else {
        spec_render_filters_concat(fs.drop_last()) + fs.last().spec_render()
    }
}

/// The renderings of the filters joined with ` | `.
pub open spec fn spec_render_filters_joined(fs: Seq<Filter>) -> Seq<char>
    decreases fs.len(),
{
    if fs.len() == 0 {
        Seq::empty()
    } else if fs.len() == 1 {
        fs[0].spec_render()
    } else {
        spec_render_filters_joined(fs.drop_last()) + seq![' ', '|', ' '] + fs.last().spec_render()
    }
}

/// Parses a filter chain: an optional leading `|`, then filters separated
/// by `|`, each with flexible surrounding whitespace. Never fails; an empty
/// chain is an empty list.
pub fn parse_filter_chain(input: &Vec<char>, pos: usize) -> (r: (usize, Vec<Filter>))
    requires
        pos <= input.len(),
    ensures
        ({
            let (e, fs) = spec_parse_filter_chain(input@, pos as int);
            r.0 == e && filter_views(r.1@) == fs
        }),
        pos <= r.0 <= input.len(),
{
    let pa = skip_spaces(input, pos);
    let start: usize;
    if pa < input.len() && input[pa] == '|' {
        start = skip_spaces(input, pa + 1);
    } else {
        start = pos;
    }
    let first = match Filter::parse(input, start) {
        Err(_) => {
            let fs: Vec<Filter> = Vec::new();
            proof {
                assert(filter_views(fs@) =~= spec_parse_filter_chain(input@, pos as int).1);
            }
            return (start, fs);
        },
        Ok(v) => v,
    };
    let (e0, f0) = first;
    let mut fs: Vec<Filter> = Vec::new();
    fs.push(f0);
    let mut cur: usize = e0;
    let mut done: bool = false;
    proof {
        assert(filter_views(fs@) =~= seq![filter_view(f0)]);
    }
    while !done
        invariant
            pos <= cur <= input.len(),
            ({
                let (e2, rest) = spec_parse_filters_next(input@, cur as int);
                let whole = spec_parse_filter_chain(input@, pos as int);
                if done {
                    whole.0 == cur && whole.1 == filter_views(fs@)
                } else {
                    whole.0 == e2 && whole.1 == filter_views(fs@) + rest
                }
            }),
        decreases input.len() - cur + (if done {
            0int
        } else {
            1int
        }),
    {
        let p = skip_spaces(input, cur);
        if p < input.len() && input[p] == '|' {
            let n = skip_spaces(input, p + 1);
            match Filter::parse(input, n) {
                Ok((e2, f)) => {
                    proof {
                        assert(filter_views(fs@.push(f)) =~= filter_views(fs@).push(
                            filter_view(f),
                        ));
                        let (e3, rest) = spec_parse_filters_next(input@, e2 as int);
                        assert(filter_views(fs@) + (seq![filter_view(f)] + rest) =~= filter_views(
                            fs@.push(f),
                        ) + rest);
                    }
                    fs.push(f);
                    cur = e2;
                },
                Err(_) => {
                    proof {
                        assert(filter_views(fs@) + Seq::<
                            (Seq<char>, Option<ArgValV>),
                        >::empty() =~= filter_views(fs@));
                    }
                    done = true;
                },
            }
        } else {
            proof {
                assert(filter_views(fs@) + Seq::<(Seq<char>, Option<ArgValV>)>::empty()
                    =~= filter_views(fs@));
            }
            done = true;
        }
    }
    (cur, fs)
}

} // verus!
