//! Block tags of the template grammar: `{% name arg1 arg2 %}`.

use crate::lex::{chars_match_str_at, chars_to_string, push_all, skip_spaces, spec_skip_spaces};
use crate::template_parser::argument::{spec_parse_tagarg, tagarg_view, ArgValV, TagArgument};
use crate::template_parser::filter::parse_filter_chain;
use crate::template_parser::variable::{parse_variable, spec_parse_variable};
use crate::ParseError;
use vstd::prelude::*;
use vstd::string::StrSliceExecFns;

verus! {

/// The spec-level shapes of a sequence of tag arguments.
pub open spec fn tagarg_views(args: Seq<TagArgument>) -> Seq<
    (ArgValV, Seq<(Seq<char>, Option<ArgValV>)>),
> {
    args.map_values(|a: TagArgument| tagarg_view(a))
}

/// After one argument: what parsing the rest of the argument list yields.
/// Either the closing `%}` follows (optional whitespace before it), or at
/// least one whitespace character separates the next argument from the
/// last one; anything else fails the whole tag.
pub open spec fn spec_parse_tag_args_more(s: Seq<char>, e: int) -> Option<
    (int, Seq<(ArgValV, Seq<(Seq<char>, Option<ArgValV>)>)>),
>
    decreases s.len() - e,
{
    let p = spec_skip_spaces(s, e);
    if p + 2 <= s.len() && s[p] == '%' && s[p + 1] == '}' {
        Some((p + 2, Seq::empty()))
    } else if p > e {
        match spec_parse_tagarg(s, p) {
            None => None,
            Some((e2, a)) => if p < e2 && e2 <= s.len() {
                match spec_parse_tag_args_more(s, e2) {
                    Some((e3, rest)) => Some((e3, seq![a] + rest)),
                    None => None,
                }
            } else {
                None
            },
        }
    } else {
        None
    }
}

/// After the tag name: what parsing whitespace-separated arguments up to
/// the closing `%}` yields. Whitespace before the first argument and
/// before the closing delimiter is optional; consecutive arguments must
/// be separated by at least one whitespace character. An argument that
/// fails to parse before `%}` is reached fails the whole tag.
pub open spec fn spec_parse_tag_args(s: Seq<char>, i: int) -> Option<
    (int, Seq<(ArgValV, Seq<(Seq<char>, Option<ArgValV>)>)>),
> {
    let p = spec_skip_spaces(s, i);
    if p + 2 <= s.len() && s[p] == '%' && s[p + 1] == '}' {
        Some((p + 2, Seq::empty()))
    } else {
        match spec_parse_tagarg(s, p) {
            None => None,
            Some((e, a)) => if i < e && e <= s.len() {
                match spec_parse_tag_args_more(s, e) {
                    Some((e2, rest)) => Some((e2, seq![a] + rest)),
                    None => None,
                }
            } else {
                None
            },
        }
    }
}

/// What parsing a `{% name args %}` tag at `i` yields: the end position,
/// the tag name (a variable path), and the arguments.
pub open spec fn spec_parse_tmpl_tag(s: Seq<char>, i: int) -> Option<
    (int, Seq<char>, Seq<(ArgValV, Seq<(Seq<char>, Option<ArgValV>)>)>),
> {
    if i + 2 <= s.len() && s[i] == '{' && s[i + 1] == '%' {
        let p1 = spec_skip_spaces(s, i + 2);
        match spec_parse_variable(s, p1) {
            None => None,
            Some((p2, name)) => match spec_parse_tag_args(s, p2) {
                Some((e, args)) => Some((e, name, args)),
                None => None,
            },
        }
    } else {
        None
    }
}

/// A `{% name args %}` construct: a block/control directive, rendered but
/// never evaluated.
#[derive(Debug, PartialEq, Eq)]
pub struct Tag {
    pub tag_type: Vec<char>,
    pub arguments: Vec<TagArgument>,
}

impl Tag {
    /// Parses a block tag: `{%`, a name, whitespace-separated arguments,
    /// `%}`.
    pub fn parse(input: &Vec<char>, pos: usize) -> (r: Result<(usize, Self), ParseError>)
        requires
            pos <= input.len(),
        ensures
            r matches Ok((end, t)) ==> spec_parse_tmpl_tag(input@, pos as int) == Some(
                (end as int, t.tag_type@, tagarg_views(t.arguments@)),
            ) && pos < end <= input.len(),
            r matches Err(e) ==> spec_parse_tmpl_tag(input@, pos as int) is None && e
                == ParseError::Lexical,
    {
        if input.len() - pos >= 2 && input[pos] == '{' && input[pos + 1] == '%' {
            let p1 = skip_spaces(input, pos + 2);
            let (p2, name) = match parse_variable(input, p1) {
                Ok(v) => v,
                Err(e) => {
                    return Err(e);
                },
            };
            let mut args: Vec<TagArgument> = Vec::new();
            let mut cur: usize = p2;
            let mut first: bool = true;
            proof {
                assert(tagarg_views(args@) =~= Seq::<
                    (ArgValV, Seq<(Seq<char>, Option<ArgValV>)>),
                >::empty());
            }
            loop
                invariant
                    pos < cur <= input.len(),
                    ({
                        let rel = if first {
                            spec_parse_tag_args(input@, cur as int)
                        } else {
                            spec_parse_tag_args_more(input@, cur as int)
                        };
                        spec_parse_tmpl_tag(input@, pos as int) == (match rel {
                            Some((e2, rest)) => Some(
                                (e2, name@, tagarg_views(args@) + rest),
                            ),
                            None => None::<
                                (
                                    int,
                                    Seq<char>,
                                    Seq<(ArgValV, Seq<(Seq<char>, Option<ArgValV>)>)>,
                                ),
                            >,
                        })
                    }),
                decreases input.len() - cur,
            {
                let p = skip_spaces(input, cur);
                if input.len() - p >= 2 && input[p] == '%' && input[p + 1] == '}' {
                    proof {
                        assert(tagarg_views(args@) + Seq::<
                            (ArgValV, Seq<(Seq<char>, Option<ArgValV>)>),
                        >::empty() =~= tagarg_views(args@));
                    }
                    return Ok((p + 2, Tag { tag_type: name, arguments: args }));
                }
                if !first && p == cur {
                    // Consecutive arguments must be whitespace-separated.
                    return Err(ParseError::Lexical);
                }
                match TagArgument::parse(input, p) {
                    Ok((e, a)) => {
                        proof {
                            assert(tagarg_views(args@.push(a)) =~= tagarg_views(args@).push(
                                tagarg_view(a),
                            ));
                            match spec_parse_tag_args_more(input@, e as int) {
                                Some(pair) => {
                                    assert(tagarg_views(args@) + (seq![tagarg_view(a)] + pair.1)
                                        =~= tagarg_views(args@.push(a)) + pair.1);
                                },
                                None => {},
                            }
                        }
                        args.push(a);
                        cur = e;
                        first = false;
                    },
                    Err(e) => {
                        return Err(e);
                    },
                }
            }
        } else {
            Err(ParseError::Lexical)
        }
    }

    /// The renderings of the arguments, each preceded by one space.
    pub open spec fn spec_render_args(args: Seq<TagArgument>) -> Seq<char>
        decreases args.len(),
    {
        if args.len() == 0 {
            Seq::empty()
        } else {
            Self::spec_render_args(args.drop_last()) + seq![' '] + args.last().spec_render()
        }
    }

    /// The canonical rendering: `{% name` + each argument preceded by a
    /// space + ` %}`.
    pub open spec fn spec_render(self) -> Seq<char> {
        seq!['{', '%', ' '] + self.tag_type@ + Self::spec_render_args(self.arguments@) + seq![
            ' ',
            '%',
            '}',
        ]
    }

    /// Appends the canonical rendering to `out`.
    pub fn render_into(&self, out: &mut Vec<char>)
        ensures
            final(out)@ == old(out)@ + self.spec_render(),
    {
        out.push('{');
        out.push('%');
        out.push(' ');
        push_all(out, &self.tag_type);
        let ghost prefix = old(out)@ + seq!['{', '%', ' '] + self.tag_type@;
        proof {
            assert(out@ =~= prefix + Self::spec_render_args(self.arguments@.take(0)));
        }
        let mut i: usize = 0;
        while i < self.arguments.len()
            invariant
                0 <= i <= self.arguments@.len(),
                out@ == prefix + Self::spec_render_args(self.arguments@.take(i as int)),
            decreases self.arguments@.len() - i,
        {
            out.push(' ');
            self.arguments[i].render_into(out);
            proof {
                let taken = self.arguments@.take(i + 1 as int);
                assert(taken.drop_last() =~= self.arguments@.take(i as int));
                assert(taken.last() == self.arguments@[i as int]);
                assert(out@ =~= prefix + Self::spec_render_args(taken));
            }
            i = i + 1;
        }
        out.push(' ');
        out.push('%');
        out.push('}');
        proof {
            assert(self.arguments@.take(self.arguments@.len() as int) =~= self.arguments@);
            assert(out@ =~= old(out)@ + self.spec_render());
        }
    }

    /// Renders the tag canonically.
    pub fn formatted(&self, _indent_level: usize) -> (r: String)
        ensures
            r@ == self.spec_render(),
    {
        let mut out: Vec<char> = Vec::new();
        self.render_into(&mut out);
        chars_to_string(&out)
    }
}

/// What parsing a loose trailing argument list at `i` yields: optional
/// whitespace and at most one argument, with trailing whitespace consumed
/// after it; with no argument, nothing is consumed at all. (The separator
/// of this list can never match after the greedy whitespace skip, so the
/// list holds at most one element.)
pub open spec fn spec_parse_loose_args(s: Seq<char>, i: int) -> (
    int,
    Seq<(ArgValV, Seq<(Seq<char>, Option<ArgValV>)>)>,
) {
    let p = spec_skip_spaces(s, i);
    match spec_parse_tagarg(s, p) {
        None => (i, Seq::empty()),
        Some((e, a)) => (spec_skip_spaces(s, e), seq![a]),
    }
}

/// What parsing `{% name %}` at `i`, then a loose argument list after the
/// closing delimiter, yields.
pub open spec fn spec_parse_individual_tag(s: Seq<char>, i: int) -> Option<
    (int, Seq<char>, Seq<(ArgValV, Seq<(Seq<char>, Option<ArgValV>)>)>),
> {
    if i + 2 <= s.len() && s[i] == '{' && s[i + 1] == '%' {
        let p0 = spec_skip_spaces(s, i + 2);
        match spec_parse_variable(s, p0) {
            None => None,
            Some((p1, name)) => {
                let p2 = spec_skip_spaces(s, p1);
                if p2 + 2 <= s.len() && s[p2] == '%' && s[p2 + 1] == '}' {
                    let (e, args) = spec_parse_loose_args(s, p2 + 2);
                    Some((e, name, args))
                } else {
                    None
                }
            },
        }
    } else {
        None
    }
}

/// What parsing `{% w |filters %}` at `i` for the fixed word `w`, then a
/// loose argument list after the closing delimiter, yields. The filter
/// chain is consumed but not kept.
pub open spec fn spec_parse_specific_tag(s: Seq<char>, i: int, w: Seq<char>) -> Option<
    (int, Seq<(ArgValV, Seq<(Seq<char>, Option<ArgValV>)>)>),
> {
    if i + 2 <= s.len() && s[i] == '{' && s[i + 1] == '%' {
        let p0 = spec_skip_spaces(s, i + 2);
        if p0 + w.len() <= s.len() && s.subrange(p0, p0 + w.len() as int) == w {
            let p1 = spec_skip_spaces(s, p0 + w.len() as int);
            let p2: int = if p1 < s.len() && s[p1] == '|' {
                p1 + 1
            } else {
                p1
            };
            let p3 = spec_skip_spaces(s, p2);
            let (p4, fs) = crate::template_parser::filter::spec_parse_filter_chain(s, p3);
            let p5 = spec_skip_spaces(s, p4);
            if p5 + 2 <= s.len() && s[p5] == '%' && s[p5 + 1] == '}' {
                let (e, args) = spec_parse_loose_args(s, p5 + 2);
                Some((e, args))
            } else {
                None
            }
        } else {
            None
        }
    } else {
        None
    }
}

/// Parses a loose trailing argument list: optional whitespace, at most one
/// argument, trailing whitespace. Never fails.
fn parse_loose_args(input: &Vec<char>, pos: usize) -> (r: (usize, Vec<TagArgument>))
    requires
        pos <= input.len(),
    ensures
        ({
            let (e, views) = spec_parse_loose_args(input@, pos as int);
            r.0 == e && tagarg_views(r.1@) == views
        }),
        pos <= r.0 <= input.len(),
{
    let p = skip_spaces(input, pos);
    match TagArgument::parse(input, p) {
        Ok((e, a)) => {
            let q = skip_spaces(input, e);
            let mut args: Vec<TagArgument> = Vec::new();
            args.push(a);
            proof {
                assert(tagarg_views(args@) =~= seq![tagarg_view(a)]);
            }
            (q, args)
        },
        Err(_) => {
            let args: Vec<TagArgument> = Vec::new();
            proof {
                assert(tagarg_views(args@) =~= Seq::<
                    (ArgValV, Seq<(Seq<char>, Option<ArgValV>)>),
                >::empty());
            }
            (pos, args)
        },
    }
}

/// Parses one bare tag, e.g. `{% my_tag %}`, and then a loose argument
/// list from the input that follows the closing delimiter.
pub fn parse_individual_tag(input: &Vec<char>, pos: usize) -> (r: Result<
    (usize, Tag),
    ParseError,
>)
    requires
        pos <= input.len(),
    ensures
        r matches Ok((end, t)) ==> spec_parse_individual_tag(input@, pos as int) == Some(
            (end as int, t.tag_type@, tagarg_views(t.arguments@)),
        ) && pos < end <= input.len(),
        r matches Err(e) ==> spec_parse_individual_tag(input@, pos as int) is None && e
            == ParseError::Lexical,
{
    if input.len() - pos >= 2 && input[pos] == '{' && input[pos + 1] == '%' {
        let p0 = skip_spaces(input, pos + 2);
        let (p1, name) = match parse_variable(input, p0) {
            Ok(v) => v,
            Err(e) => {
                return Err(e);
            },
        };
        let p2 = skip_spaces(input, p1);
        if input.len() - p2 >= 2 && input[p2] == '%' && input[p2 + 1] == '}' {
            let (e, arguments) = parse_loose_args(input, p2 + 2);
            Ok((e, Tag { tag_type: name, arguments }))
        } else {
            Err(ParseError::Lexical)
        }
    } else {
        Err(ParseError::Lexical)
    }
}

/// Parses a tag with the fixed name `tag_name`, e.g. `{% if |filters %}`
/// for `if`, discarding the filter chain, and then a loose argument list
/// from the input that follows the closing delimiter.
pub fn parse_specific_tag(input: &Vec<char>, pos: usize, tag_name: &str) -> (r: Result<
    (usize, Tag),
    ParseError,
>)
    requires
        pos <= input.len(),
    ensures
        r matches Ok((end, t)) ==> spec_parse_specific_tag(input@, pos as int, tag_name@) == Some(
            (end as int, tagarg_views(t.arguments@)),
        ) && t.tag_type@ == tag_name@ && pos < end <= input.len(),
        r matches Err(e) ==> spec_parse_specific_tag(input@, pos as int, tag_name@) is None && e
            == ParseError::Lexical,
{
    if input.len() - pos >= 2 && input[pos] == '{' && input[pos + 1] == '%' {
        let p0 = skip_spaces(input, pos + 2);
        if chars_match_str_at(input, p0, tag_name) {
            let n = tag_name.unicode_len();
            let p1 = skip_spaces(input, p0 + n);
            let p2: usize = if p1 < input.len() && input[p1] == '|' {
                p1 + 1
            } else {
                p1
            };
            let p3 = skip_spaces(input, p2);
            let (p4, _filters) = parse_filter_chain(input, p3);
            let p5 = skip_spaces(input, p4);
            if input.len() - p5 >= 2 && input[p5] == '%' && input[p5 + 1] == '}' {
                let (e, arguments) = parse_loose_args(input, p5 + 2);
                let name = crate::lex::copy_range(input, p0, p0 + n);
                proof {
                    assert(name@ =~= tag_name@);
                }
                Ok((e, Tag { tag_type: name, arguments }))
            } else {
                Err(ParseError::Lexical)
            }
        } else {
            Err(ParseError::Lexical)
        }
    } else {
        Err(ParseError::Lexical)
    }
}

} // verus!
