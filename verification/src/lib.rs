//! A canonicalizing formatter for documents that mix Django-style template
//! syntax (`{{ }}`, `{% %}`, `{# #}`) with HTML markup.
//!
//! The document is parsed twice: once with the template grammar, once with
//! the HTML grammar. Each tree is re-emitted by a deterministic renderer, so
//! that a formatted document is a canonical fixed point of the pipeline.

use vstd::prelude::*;

pub mod html_parser;
pub mod laws;
pub mod lex;
pub mod parser;
pub mod template_parser;

use crate::html_parser::node::{html_node_parsed, Node};
use crate::lex::chars_to_string;
use crate::template_parser::{spec_parse_template, template_node_views, Template};

verus! {

/// How a parse attempt failed.
///
/// `Lexical` means no grammar alternative matched at the current position
/// (unexpected character, unterminated quote, unterminated comment).
/// `StructuralMismatch` means a closing tag's name differed from the name of
/// the opening tag it was supposed to match.
#[derive(Clone, Copy, Debug, PartialEq, Eq, Structural)]
pub enum ParseError {
    Lexical,
    StructuralMismatch,
}

/// That `out` is a canonical form of `input`: some template tree with the
/// shape the template grammar assigns to `input` was rendered, the
/// rendering was parsed as one HTML node (whatever follows that node is
/// dropped), and that node's rendering at depth zero is `out`.
pub open spec fn document_formatted(input: Seq<char>, out: Seq<char>) -> bool {
    exists|t: Template, n: Node, end2: int|
        #![trigger html_node_parsed(t.spec_render(), 0, end2, n)]
        {
            &&& template_node_views(t.nodes@) == spec_parse_template(input, 0).1
            &&& html_node_parsed(t.spec_render(), 0, end2, n)
            &&& out == crate::html_parser::element::spec_render_node(n, Seq::empty())
        }
}

/// That `input` has no canonical form: for a template tree with the shape
/// the template grammar assigns to `input`, no HTML node at all parses at
/// the start of its rendering.
pub open spec fn document_unformattable(input: Seq<char>) -> bool {
    exists|t: Template|
        #![trigger template_node_views(t.nodes@)]
        {
            &&& template_node_views(t.nodes@) == spec_parse_template(input, 0).1
            &&& forall|end2: int, n: Node|
                !#[trigger] html_node_parsed(t.spec_render(), 0, end2, n)
        }
}

/// Runs the two-stage pipeline on one document: parse it with the
/// template grammar, render canonically, parse that output as one HTML
/// node, render canonically again. A failure of the HTML stage aborts the
/// whole document; it happens only when no HTML node parses at the start
/// of the canonicalized template.
pub fn format_document(input: &Vec<char>) -> (r: Result<String, ParseError>)
    ensures
        r matches Ok(out) ==> document_formatted(input@, out@),
        r matches Err(e) ==> e == ParseError::Lexical || e == ParseError::StructuralMismatch,
        r matches Err(e) ==> document_unformattable(input@),
{
    let (_, t) = Template::parse(input, 0);
    let mid = t.rendered_chars();
    match Node::parse(&mid, 0) {
        Ok((end2, n)) => {
            let ind: Vec<char> = Vec::new();
            let mut out: Vec<char> = Vec::new();
            n.render_into(&mut out, &ind);
            proof {
                assert(ind@ =~= Seq::<char>::empty());
                assert(html_node_parsed(t.spec_render(), 0, end2 as int, n));
            }
            Ok(chars_to_string(&out))
        },
        Err(e) => {
            proof {
                assert(template_node_views(t.nodes@) == spec_parse_template(input@, 0).1);
                assert forall|end2: int, n: Node|
                    !#[trigger] html_node_parsed(t.spec_render(), 0, end2, n) by {
                    assert(!html_node_parsed(mid@, 0, end2, n));
                }
            }
            Err(e)
        },
    }
}

} // verus!
