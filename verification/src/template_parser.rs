//! The template grammar: Django-style comments, variable tags, block tags
//! and raw text, together with the canonical renderer for each node.

use vstd::prelude::*;

pub mod argument;
pub mod comment;
pub mod filter;
pub mod tag;
pub mod text;
pub mod variable;

use crate::lex::{chars_to_string, copy_range};
use crate::template_parser::argument::ArgValV;
use crate::template_parser::comment::{spec_parse_comment, Comment};
use crate::template_parser::filter::filter_views;
use crate::template_parser::tag::{spec_parse_tmpl_tag, tagarg_views, Tag};
use crate::template_parser::text::{parse_text, spec_template_text_end};
use crate::template_parser::variable::{spec_parse_variable_tag, VariableTag};

verus! {

/// One node of a parsed template.
#[derive(Debug, PartialEq, Eq)]
pub enum Node {
    Variable(VariableTag),
    Tag(Tag),
    Comment(Vec<char>),
    Text(Vec<char>),
}

/// The spec-level shape of a template node.
pub enum TemplateNodeV {
    VariableV(Seq<char>, Seq<(Seq<char>, Option<ArgValV>)>),
    TagV(Seq<char>, Seq<(ArgValV, Seq<(Seq<char>, Option<ArgValV>)>)>),
    CommentV(Seq<char>),
    TextV(Seq<char>),
}

/// The spec-level shape of a template node.
pub open spec fn template_node_view(n: Node) -> TemplateNodeV {
    match n {
        Node::Variable(vt) => TemplateNodeV::VariableV(vt.tag_type@, filter_views(vt.filters@)),
        Node::Tag(t) => TemplateNodeV::TagV(t.tag_type@, tagarg_views(t.arguments@)),
        Node::Comment(c) => TemplateNodeV::CommentV(c@),
        Node::Text(t) => TemplateNodeV::TextV(t@),
    }
}

/// The spec-level shapes of a sequence of template nodes.
pub open spec fn template_node_views(ns: Seq<Node>) -> Seq<TemplateNodeV> {
    ns.map_values(|n: Node| template_node_view(n))
}

/// What parsing one template node at `i` yields. The alternatives are
/// tried in order: comment, variable tag, block tag, then raw text as the
/// fallback; an empty text run means no node parses here.
pub open spec fn spec_parse_template_node(s: Seq<char>, i: int) -> Option<(int, TemplateNodeV)> {
    match spec_parse_comment(s, i) {
        Some((e, c)) => Some((e, TemplateNodeV::CommentV(c))),
        None => match spec_parse_variable_tag(s, i) {
            Some((e, path, fs)) => Some((e, TemplateNodeV::VariableV(path, fs))),
            None => match spec_parse_tmpl_tag(s, i) {
                Some((e, name, args)) => Some((e, TemplateNodeV::TagV(name, args))),
                None => {
                    let e = spec_template_text_end(s, i);
                    if i < e {
                        Some((e, TemplateNodeV::TextV(s.subrange(i, e))))
                    } else {
                        None
                    }
                },
            },
        },
    }
}

/// What parsing a whole template from `i` yields: nodes are taken as long
/// as one parses and advances the position; parsing then stops, possibly
/// before the end of the input (trailing unparseable input is dropped, not
/// an error).
pub open spec fn spec_parse_template(s: Seq<char>, i: int) -> (int, Seq<TemplateNodeV>)
    decreases s.len() - i,
{
    match spec_parse_template_node(s, i) {
        None => (i, Seq::empty()),
        Some((e, n)) => if i < e && e <= s.len() {
            let (e2, rest) = spec_parse_template(s, e);
            (e2, seq![n] + rest)
        } else {
            (e, seq![n])
        },
    }
}

/// A parsed template document: a flat sequence of nodes.
#[derive(Debug, PartialEq, Eq)]
pub struct Template {
    pub nodes: Vec<Node>,
}

impl Node {
    /// Parses one template node at `pos`, trying comment, variable tag,
    /// block tag, then raw text, committing only on success.
    pub fn parse(input: &Vec<char>, pos: usize) -> (r: Result<(usize, Self), crate::ParseError>)
        requires
            pos <= input.len(),
        ensures
            r matches Ok((end, n)) ==> spec_parse_template_node(input@, pos as int) == Some(
                (end as int, template_node_view(n)),
            ) && pos < end <= input.len(),
            r matches Err(e) ==> spec_parse_template_node(input@, pos as int) is None && e
                == crate::ParseError::Lexical,
    {
        match Comment::parse(input, pos) {
            Ok((e, c)) => {
                return Ok((e, Node::Comment(c.0)));
            },
            Err(_) => {},
        }
        match VariableTag::parse(input, pos) {
            Ok((e, vt)) => {
                return Ok((e, Node::Variable(vt)));
            },
            Err(_) => {},
        }
        match Tag::parse(input, pos) {
            Ok((e, t)) => {
                return Ok((e, Node::Tag(t)));
            },
            Err(_) => {},
        }
        let e = parse_text(input, pos);
        if pos < e {
            let t = copy_range(input, pos, e);
            Ok((e, Node::Text(t)))
        } else {
            Err(crate::ParseError::Lexical)
        }
    }

    /// The canonical rendering of one template node: a variable or block
    /// tag renders canonically, a comment renders as its bare body, text
    /// renders verbatim.
    pub open spec fn spec_render(self) -> Seq<char> {
        match self {
            Node::Variable(vt) => vt.spec_render(),
            Node::Tag(t) => t.spec_render(),
            Node::Comment(c) => c@,
            Node::Text(t) => t@,
        }
    }

    /// Appends the canonical rendering to `out`.
    pub fn render_into(&self, out: &mut Vec<char>)
        ensures
            final(out)@ == old(out)@ + self.spec_render(),
    {
        match self {
            Node::Variable(vt) => {
                vt.render_into(out);
            },
            Node::Tag(t) => {
                t.render_into(out);
            },
            Node::Comment(c) => {
                crate::lex::push_all(out, c);
            },
            Node::Text(t) => {
                crate::lex::push_all(out, t);
            },
        }
    }
}

/// The concatenation of the canonical renderings of the nodes.
pub open spec fn spec_render_template_nodes(ns: Seq<Node>) -> Seq<char>
    decreases ns.len(),
{
    if ns.len() == 0 {
        Seq::empty()
    } else {
        spec_render_template_nodes(ns.drop_last()) + ns.last().spec_render()
    }
}

impl Template {
    /// Parses a whole template document starting at `pos`. Never fails:
    /// nodes are taken while one parses, and parsing stops at the first
    /// position where none does (silently dropping any trailing input).
    pub fn parse(input: &Vec<char>, pos: usize) -> (r: (usize, Self))
        requires
            pos <= input.len(),
        ensures
            ({
                let (e, ns) = spec_parse_template(input@, pos as int);
                r.0 == e && template_node_views(r.1.nodes@) == ns
            }),
            pos <= r.0 <= input.len(),
    {
        let mut nodes: Vec<Node> = Vec::new();
        let mut cur: usize = pos;
        let mut done: bool = false;
        proof {
            assert(template_node_views(nodes@) =~= Seq::<TemplateNodeV>::empty());
        }
        while !done
            invariant
                pos <= cur <= input.len(),
                ({
                    let (e2, rest) = spec_parse_template(input@, cur as int);
                    let whole = spec_parse_template(input@, pos as int);
                    if done {
                        whole.0 == cur && whole.1 == template_node_views(nodes@)
                    } else {
                        whole.0 == e2 && whole.1 == template_node_views(nodes@) + rest
                    }
                }),
            decreases input.len() - cur + (if done {
                0int
            } else {
                1int
            }),
        {
            match Node::parse(input, cur) {
                Ok((e, n)) => {
                    proof {
                        assert(template_node_views(nodes@.push(n)) =~= template_node_views(
                            nodes@,
                        ).push(template_node_view(n)));
                        let (e3, rest) = spec_parse_template(input@, e as int);
                        assert(template_node_views(nodes@) + (seq![template_node_view(n)] + rest)
                            =~= template_node_views(nodes@.push(n)) + rest);
                    }
                    nodes.push(n);
                    cur = e;
                },
                Err(_) => {
                    proof {
                        assert(template_node_views(nodes@) + Seq::<TemplateNodeV>::empty()
                            =~= template_node_views(nodes@));
                    }
                    done = true;
                },
            }
        }
        (cur, Template { nodes })
    }

    /// The canonical rendering of the whole template.
    pub open spec fn spec_render(self) -> Seq<char> {
        spec_render_template_nodes(self.nodes@)
    }

    /// Renders the template canonically: the nodes' renderings, in order.
    pub fn formatted(&self, _indent_level: usize) -> (r: String)
        ensures
            r@ == self.spec_render(),
    {
        let out = self.rendered_chars();
        chars_to_string(&out)
    }

    /// The canonical rendering, as characters.
    pub fn rendered_chars(&self) -> (r: Vec<char>)
        ensures
            r@ == self.spec_render(),
    {
        let mut out: Vec<char> = Vec::new();
        proof {
            assert(out@ =~= spec_render_template_nodes(self.nodes@.take(0)));
        }
        let mut i: usize = 0;
        while i < self.nodes.len()
            invariant
                0 <= i <= self.nodes@.len(),
                out@ == spec_render_template_nodes(self.nodes@.take(i as int)),
            decreases self.nodes@.len() - i,
        {
            self.nodes[i].render_into(&mut out);
            proof {
                let taken = self.nodes@.take(i + 1 as int);
                assert(taken.drop_last() =~= self.nodes@.take(i as int));
                assert(taken.last() == self.nodes@[i as int]);
            }
            i = i + 1;
        }
        proof {
            assert(self.nodes@.take(self.nodes@.len() as int) =~= self.nodes@);
        }
        out
    }
}

} // verus!
