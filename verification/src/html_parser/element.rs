//! HTML elements and nodes: the recursive heart of the HTML grammar, and
//! the canonical, indentation-aware renderer.
//!
//! An element is an opening tag, recursively parsed children, and a
//! matching closing tag; a mismatching closing-tag name is a hard
//! `StructuralMismatch` failure. `id` and `class` are popped out of the
//! attribute mapping into dedicated fields, `class` split on single spaces
//! into the class list. A `Void` element (explicit `/` or a void-element
//! name) has no children and consumes no closing tag.

use crate::html_parser::attribute::{
    attrs_view, render_attrs_into, spec_insert_all, spec_lookup, spec_remove_key,
    spec_render_attrs, val_view, Attributes,
};
use crate::html_parser::comment::{parse_comment, spec_parse_html_comment};
use crate::html_parser::tag::{
    lemma_html_tag_bounds, spec_parse_closing_tag, spec_parse_html_tag, spec_parse_tag_name,
    ClosingTag, Tag,
};
use crate::html_parser::text::{parse_text, spec_html_text_end};
use crate::lex::{
    chars_to_string, copy_range, push_all, scan_until_char, spec_scan_until_char, spec_skip_spaces,
    vec_eq, vec_eq_str,
};
use crate::ParseError;
use vstd::prelude::*;

verus! {

/// Whether an element may have children and a closing tag.
#[derive(Debug, PartialEq, Eq, Structural, Clone, Copy)]
pub enum ElementVariant {
    Normal,
    Void,
}

/// The fixed set of void-element names: elements that cannot contain
/// children and have no closing tag.
pub open spec fn spec_is_void_name(n: Seq<char>) -> bool {
    ||| n == "area"@
    ||| n == "base"@
    ||| n == "br"@
    ||| n == "col"@
    ||| n == "embed"@
    ||| n == "hr"@
    ||| n == "img"@
    ||| n == "input"@
    ||| n == "link"@
    ||| n == "meta"@
    ||| n == "param"@
    ||| n == "source"@
    ||| n == "track"@
    ||| n == "wbr"@
}

/// Whether `name` is one of the void-element names.
pub fn is_void_name(name: &Vec<char>) -> (r: bool)
    ensures
        r == spec_is_void_name(name@),
{
    vec_eq_str(name, "area") || vec_eq_str(name, "base") || vec_eq_str(name, "br") || vec_eq_str(
        name,
        "col",
    ) || vec_eq_str(name, "embed") || vec_eq_str(name, "hr") || vec_eq_str(name, "img")
        || vec_eq_str(name, "input") || vec_eq_str(name, "link") || vec_eq_str(name, "meta")
        || vec_eq_str(name, "param") || vec_eq_str(name, "source") || vec_eq_str(name, "track")
        || vec_eq_str(name, "wbr")
}

// ---------------------------------------------------------------------------
// Splitting a class attribute
// ---------------------------------------------------------------------------

/// The pieces of `s` from `i` on, split on every single space; consecutive
/// spaces give empty pieces, and the split of an empty tail is one empty
/// piece.
pub open spec fn spec_split_from(s: Seq<char>, i: int) -> Seq<Seq<char>>
    decreases s.len() - i,
{
    let e = spec_scan_until_char(s, i, ' ');
    if i <= e <= s.len() {
        if e == s.len() {
            seq![s.subrange(i, e)]
        } else {
            seq![s.subrange(i, e)] + spec_split_from(s, e + 1)
        }
    } else {
        seq![]
    }
}

/// The pieces of `s` split on every single space, as `str::split(' ')`
/// would produce them.
pub open spec fn spec_split_spaces(s: Seq<char>) -> Seq<Seq<char>> {
    spec_split_from(s, 0)
}

/// The spec-level shapes of a class list.
pub open spec fn classes_view(cs: Seq<Vec<char>>) -> Seq<Seq<char>> {
    cs.map_values(|c: Vec<char>| c@)
}

/// Splits a class attribute value on single spaces.
pub fn split_spaces(v: &Vec<char>) -> (r: Vec<Vec<char>>)
    ensures
        classes_view(r@) == spec_split_spaces(v@),
{
    let mut r: Vec<Vec<char>> = Vec::new();
    let mut i: usize = 0;
    let mut done: bool = false;
    while !done
        invariant
            0 <= i <= v.len(),
            ({
                if done {
                    classes_view(r@) == spec_split_spaces(v@)
                } else {
                    spec_split_spaces(v@) == classes_view(r@) + spec_split_from(v@, i as int)
                }
            }),
        decreases v.len() - i + (if done {
            0int
        } else {
            1int
        }),
    {
        let e = scan_until_char(v, i, ' ');
        let piece = copy_range(v, i, e);
        proof {
            assert(classes_view(r@.push(piece)) =~= classes_view(r@).push(piece@));
            if e < v.len() {
                assert(classes_view(r@) + (seq![piece@] + spec_split_from(v@, e + 1))
                    =~= classes_view(r@.push(piece)) + spec_split_from(v@, e + 1));
            } else {
                assert(classes_view(r@) + seq![piece@] =~= classes_view(r@.push(piece)));
            }
        }
        r.push(piece);
        if e == v.len() {
            proof {
                assert(classes_view(r@) + Seq::<Seq<char>>::empty() =~= classes_view(r@));
            }
            done = true;
        } else {
            i = e + 1;
        }
    }
    r
}

// ---------------------------------------------------------------------------
// The tree
// ---------------------------------------------------------------------------

/// A parsed HTML element.
#[derive(Debug, PartialEq, Eq)]
pub struct Element {
    pub id: Option<Vec<char>>,
    pub name: Vec<char>,
    pub variant: ElementVariant,
    pub attributes: Attributes,
    pub classes: Vec<Vec<char>>,
    pub children: Vec<Node>,
}

/// One node of a parsed HTML document.
#[derive(Debug, PartialEq, Eq)]
pub enum Node {
    Text(Vec<char>),
    Element(Element),
    Comment(Vec<char>),
}

/// A present attribute value, or nothing for an absent or boolean one.
pub open spec fn flatten_lookup(l: Option<Option<Seq<char>>>) -> Option<Seq<char>> {
    match l {
        Some(Some(v)) => Some(v),
        Some(None) => None,
        None => None,
    }
}

/// Where an element parse that begins at `i` and yields `e` would end.
/// The split positions of a parse are deterministic, so they are computed
/// rather than quantified: this is a total function, meaningful where the
/// corresponding `..._parsed` relation holds.
pub open spec fn element_span_end(s: Seq<char>, i: int, e: Element) -> int
    decreases e, 0int,
{
    match spec_parse_html_tag(s, i) {
        None => i,
        Some((p1, name, raw, sc)) => {
            if sc || spec_is_void_name(name) {
                p1
            } else {
                match spec_parse_closing_tag(s, p1) {
                    Some((p2, cname)) => p2,
                    None => {
                        let mid = nodes_span_end(s, p1, e.children@);
                        match spec_parse_closing_tag(s, mid) {
                            Some((p3, cn)) => p3,
                            None => mid,
                        }
                    },
                }
            }
        },
    }
}

/// Where a node parse that begins at `i` and yields `n` would end.
pub open spec fn node_span_end(s: Seq<char>, i: int, n: Node) -> int
    decreases n, 1int,
{
    match n {
        Node::Comment(c) => match spec_parse_html_comment(s, i) {
            Some((e, b)) => e,
            None => i,
        },
        Node::Text(t) => spec_html_text_end(s, i),
        Node::Element(e) => element_span_end(s, i, e),
    }
}

/// Where consecutive node parses that begin at `i` and yield `ns` would
/// end.
pub open spec fn nodes_span_end(s: Seq<char>, i: int, ns: Seq<Node>) -> int
    decreases ns, 2int,
{
    if ns.len() == 0 {
        i
    } else {
        nodes_span_end(s, node_span_end(s, i, ns[0]), ns.drop_first())
    }
}

/// That the element `e` is a parse of `s[i .. end)`: an opening tag, with
/// `id` and `class` popped out of the deduplicated attribute mapping (in
/// that order) and `class` split on spaces; then, for a `Normal` element,
/// either an immediately matching closing tag and no children, or parsed
/// children followed by a matching closing tag. A `Void` element ends with
/// its opening tag.
pub open spec fn element_parsed(s: Seq<char>, i: int, end: int, e: Element) -> bool
    decreases e, 0int,
{
    match spec_parse_html_tag(s, i) {
        None => false,
        Some((p1, name, raw, sc)) => {
            let dedup = spec_insert_all(Seq::empty(), raw);
            let rest1 = spec_remove_key(dedup, "id"@);
            let rest2 = spec_remove_key(rest1, "class"@);
            let void = sc || spec_is_void_name(name);
            &&& e.name@ == name
            &&& val_view(e.id) == flatten_lookup(spec_lookup(dedup, "id"@))
            &&& classes_view(e.classes@) == (match flatten_lookup(spec_lookup(rest1, "class"@)) {
                Some(cv) => spec_split_spaces(cv),
                None => Seq::<Seq<char>>::empty(),
            })
            &&& attrs_view(e.attributes.kvs@) == rest2
            &&& if void {
                &&& e.variant is Void
                &&& e.children@.len() == 0
                &&& end == p1
            } else {
                &&& e.variant is Normal
                &&& match spec_parse_closing_tag(s, p1) {
                    Some((p2, cname)) => cname == name && e.children@.len() == 0 && end == p2,
                    None => {
                        let mid = nodes_span_end(s, p1, e.children@);
                        &&& html_nodes_parsed(s, p1, mid, e.children@)
                        &&& match spec_parse_closing_tag(s, mid) {
                            Some((p3, cn)) => cn == name && end == p3,
                            None => false,
                        }
                    },
                }
            }
        },
    }
}

/// That the nodes `ns` are consecutive parses covering `s[i .. end)`.
pub open spec fn html_nodes_parsed(s: Seq<char>, i: int, end: int, ns: Seq<Node>) -> bool
    decreases ns, 2int,
{
    if ns.len() == 0 {
        end == i
    } else {
        let mid = node_span_end(s, i, ns[0]);
        &&& i < mid <= s.len()
        &&& html_node_parsed(s, i, mid, ns[0])
        &&& html_nodes_parsed(s, mid, end, ns.drop_first())
    }
}

/// That the node `n` is a parse of `s[i .. end)`. The alternatives are
/// tried in order — comment, element, text — so a non-comment node also
/// records that no comment parses at `i`; a text node is non-empty and
/// runs to the next `<`.
pub open spec fn html_node_parsed(s: Seq<char>, i: int, end: int, n: Node) -> bool
    decreases n, 1int,
{
    match n {
        Node::Comment(c) => spec_parse_html_comment(s, i) == Some((end, c@)),
        Node::Element(e) => spec_parse_html_comment(s, i) is None && element_parsed(s, i, end, e),
        Node::Text(t) => {
            &&& spec_parse_html_comment(s, i) is None
            &&& t@.len() > 0
            &&& end == spec_html_text_end(s, i)
            &&& t@ == s.subrange(i, end)
        },
    }
}

/// Where the relation holds of a node, the computed span end is the
/// parse's end.
proof fn lemma_node_span_end(s: Seq<char>, i: int, end: int, n: Node)
    requires
        html_node_parsed(s, i, end, n),
    ensures
        node_span_end(s, i, n) == end,
{
}

/// Where the relation holds of a run of nodes, the computed span end is
/// the run's end.
proof fn lemma_nodes_span_end(s: Seq<char>, i: int, end: int, ns: Seq<Node>)
    requires
        html_nodes_parsed(s, i, end, ns),
    ensures
        nodes_span_end(s, i, ns) == end,
    decreases ns.len(),
{
    if ns.len() > 0 {
        let mid = node_span_end(s, i, ns[0]);
        lemma_nodes_span_end(s, mid, end, ns.drop_first());
    }
}

/// Extending a parsed run of nodes by one more parsed node.
proof fn lemma_nodes_parsed_push(s: Seq<char>, i: int, mid: int, end: int, ns: Seq<Node>, n: Node)
    requires
        html_nodes_parsed(s, i, mid, ns),
        html_node_parsed(s, mid, end, n),
        mid < end <= s.len(),
    ensures
        html_nodes_parsed(s, i, end, ns.push(n)),
    decreases ns.len(),
{
    lemma_node_span_end(s, mid, end, n);
    if ns.len() == 0 {
        assert(ns.push(n)[0] == n);
        assert(ns.push(n).drop_first() =~= Seq::<Node>::empty());
        assert(html_node_parsed(s, i, end, ns.push(n)[0]));
        assert(html_nodes_parsed(s, end, end, ns.push(n).drop_first()));
    } else {
        let m0 = node_span_end(s, i, ns[0]);
        lemma_nodes_parsed_push(s, m0, mid, end, ns.drop_first(), n);
        assert(ns.push(n)[0] == ns[0]);
        assert(ns.push(n).drop_first() =~= ns.drop_first().push(n));
        assert(html_node_parsed(s, i, m0, ns.push(n)[0]));
        assert(html_nodes_parsed(s, m0, end, ns.push(n).drop_first()));
    }
}

// ---------------------------------------------------------------------------
// Determinism of the grammar
// ---------------------------------------------------------------------------
// The alternatives exclude one another and every split position is forced,
// so the relations admit at most one parse end from any position. This is
// what lets the parsers below owe success whenever a parse exists.

/// A parsed run of nodes never ends before it begins.
proof fn lemma_nodes_parsed_lb(s: Seq<char>, i: int, end: int, ns: Seq<Node>)
    requires
        html_nodes_parsed(s, i, end, ns),
    ensures
        i <= end,
    decreases ns,
{
    if ns.len() > 0 {
        lemma_nodes_parsed_lb(s, node_span_end(s, i, ns[0]), end, ns.drop_first());
    }
}

/// An opening tag and a closing tag cannot begin at the same position: the
/// `/` of a closing tag is not a tag-name character.
proof fn lemma_tag_closing_exclusive(s: Seq<char>, i: int)
    ensures
        spec_parse_html_tag(s, i) is Some ==> spec_parse_closing_tag(s, i) is None,
{
    if spec_parse_html_tag(s, i) is Some && spec_parse_closing_tag(s, i) is Some {
        assert(s[i + 1] == '/');
        assert(spec_skip_spaces(s, i + 1) == i + 1);
        assert(spec_parse_tag_name(s, i + 1) is None);
    }
}

/// Where a closing tag begins, no node (comment, element, or text) parses.
proof fn lemma_closing_no_node(s: Seq<char>, m: int, end: int, n: Node)
    requires
        0 <= m,
        spec_parse_closing_tag(s, m) is Some,
    ensures
        !html_node_parsed(s, m, end, n),
{
    reveal_with_fuel(html_node_parsed, 3);
    match n {
        Node::Comment(c) => {
            assert(s[m + 1] == '/');
            assert(spec_parse_html_comment(s, m) is None);
        },
        Node::Element(e) => {
            lemma_tag_closing_exclusive(s, m);
        },
        Node::Text(t) => {
            assert(s[m] == '<');
            assert(spec_html_text_end(s, m) == m);
        },
    }
}

/// A node parse from a given position ends at one position only.
proof fn lemma_node_end_unique(s: Seq<char>, i: int, end1: int, n1: Node, end2: int, n2: Node)
    requires
        0 <= i,
        html_node_parsed(s, i, end1, n1),
        html_node_parsed(s, i, end2, n2),
    ensures
        end1 == end2,
    decreases n1, 0int,
{
    reveal_with_fuel(html_node_parsed, 3);
    match (n1, n2) {
        (Node::Element(e1), Node::Element(e2)) => {
            match spec_parse_html_tag(s, i) {
                Some((p1, name, raw, sc)) => {
                    if !(sc || spec_is_void_name(name)) {
                        match spec_parse_closing_tag(s, p1) {
                            Some(pair) => {},
                            None => {
                                lemma_html_tag_bounds(s, i);
                                lemma_chains_agree(
                                    s,
                                    p1,
                                    nodes_span_end(s, p1, e1.children@),
                                    e1.children@,
                                    nodes_span_end(s, p1, e2.children@),
                                    e2.children@,
                                );
                            },
                        }
                    }
                },
                None => {},
            }
        },
        (Node::Element(e1), Node::Text(t2)) => {
            assert(s[i] == '<');
            assert(spec_html_text_end(s, i) == i);
        },
        (Node::Text(t1), Node::Element(e2)) => {
            assert(s[i] == '<');
            assert(spec_html_text_end(s, i) == i);
        },
        _ => {},
    }
}

/// Two parsed child runs from the same position that both end where a
/// closing tag begins end at the same position.
proof fn lemma_chains_agree(
    s: Seq<char>,
    i: int,
    mid1: int,
    ns1: Seq<Node>,
    mid2: int,
    ns2: Seq<Node>,
)
    requires
        0 <= i,
        html_nodes_parsed(s, i, mid1, ns1),
        html_nodes_parsed(s, i, mid2, ns2),
        spec_parse_closing_tag(s, mid1) is Some,
        spec_parse_closing_tag(s, mid2) is Some,
    ensures
        mid1 == mid2,
    decreases ns1, 1int,
{
    reveal_with_fuel(html_nodes_parsed, 3);
    if ns1.len() == 0 && ns2.len() == 0 {
    } else if ns1.len() == 0 {
        lemma_closing_no_node(s, i, node_span_end(s, i, ns2[0]), ns2[0]);
    } else if ns2.len() == 0 {
        lemma_closing_no_node(s, i, node_span_end(s, i, ns1[0]), ns1[0]);
    } else {
        lemma_node_end_unique(
            s,
            i,
            node_span_end(s, i, ns1[0]),
            ns1[0],
            node_span_end(s, i, ns2[0]),
            ns2[0],
        );
        lemma_chains_agree(
            s,
            node_span_end(s, i, ns1[0]),
            mid1,
            ns1.drop_first(),
            mid2,
            ns2.drop_first(),
        );
    }
}

/// Against a stuck run (no node parses at its end), any other parsed run
/// from the same position either ends at the same place or ends where some
/// node still parses.
proof fn lemma_chain_stops(
    s: Seq<char>,
    i: int,
    mid1: int,
    ns1: Seq<Node>,
    mid2: int,
    ns2: Seq<Node>,
)
    requires
        0 <= i,
        html_nodes_parsed(s, i, mid1, ns1),
        html_nodes_parsed(s, i, mid2, ns2),
        forall|end: int, n: Node| !#[trigger] html_node_parsed(s, mid2, end, n),
    ensures
        mid1 == mid2 || (exists|end: int, n: Node| #[trigger] html_node_parsed(s, mid1, end, n)),
    decreases ns1,
{
    reveal_with_fuel(html_nodes_parsed, 3);
    if ns1.len() == 0 {
        if ns2.len() == 0 {
        } else {
            assert(html_node_parsed(s, mid1, node_span_end(s, i, ns2[0]), ns2[0]));
        }
    } else {
        if ns2.len() == 0 {
            assert(!html_node_parsed(s, mid2, node_span_end(s, i, ns1[0]), ns1[0]));
            assert(false);
        } else {
            lemma_node_end_unique(
                s,
                i,
                node_span_end(s, i, ns1[0]),
                ns1[0],
                node_span_end(s, i, ns2[0]),
                ns2[0],
            );
            lemma_chain_stops(
                s,
                node_span_end(s, i, ns1[0]),
                mid1,
                ns1.drop_first(),
                mid2,
                ns2.drop_first(),
            );
        }
    }
}

/// With no opening tag at `i`, no element parses at `i`.
proof fn lemma_no_element_without_tag(s: Seq<char>, i: int)
    requires
        spec_parse_html_tag(s, i) is None,
    ensures
        forall|end: int, e2: Element| !#[trigger] element_parsed(s, i, end, e2),
{
    assert forall|end: int, e2: Element| !#[trigger] element_parsed(s, i, end, e2) by {
        reveal_with_fuel(element_parsed, 2);
    }
}

/// With a mismatching closing tag straight after a normal opening tag, no
/// element parses at `i`.
proof fn lemma_no_element_immediate_mismatch(s: Seq<char>, i: int)
    requires
        ({
            match spec_parse_html_tag(s, i) {
                Some((p1, name, raw, sc)) => !(sc || spec_is_void_name(name)) && (
                match spec_parse_closing_tag(s, p1) {
                    Some((p2, cn)) => cn != name,
                    None => false,
                }),
                None => false,
            }
        }),
    ensures
        forall|end: int, e2: Element| !#[trigger] element_parsed(s, i, end, e2),
{
    assert forall|end: int, e2: Element| !#[trigger] element_parsed(s, i, end, e2) by {
        reveal_with_fuel(element_parsed, 2);
    }
}

/// With the child run stuck and no closing tag of the right name at the
/// stuck position, no element parses at `i`.
proof fn lemma_no_element_deep(s: Seq<char>, i: int, stuckp: int, ns0: Seq<Node>)
    requires
        0 <= i,
        ({
            match spec_parse_html_tag(s, i) {
                Some((p1, name, raw, sc)) => {
                    &&& !(sc || spec_is_void_name(name))
                    &&& spec_parse_closing_tag(s, p1) is None
                    &&& html_nodes_parsed(s, p1, stuckp, ns0)
                    &&& match spec_parse_closing_tag(s, stuckp) {
                        Some((p3, cn)) => cn != name,
                        None => true,
                    }
                },
                None => false,
            }
        }),
        forall|end: int, n: Node| !#[trigger] html_node_parsed(s, stuckp, end, n),
    ensures
        forall|end: int, e2: Element| !#[trigger] element_parsed(s, i, end, e2),
{
    assert forall|end: int, e2: Element| !#[trigger] element_parsed(s, i, end, e2) by {
        reveal_with_fuel(element_parsed, 2);
        if element_parsed(s, i, end, e2) {
            match spec_parse_html_tag(s, i) {
                Some((p1, name, raw, sc)) => {
                    lemma_html_tag_bounds(s, i);
                    let mid = nodes_span_end(s, p1, e2.children@);
                    assert(html_nodes_parsed(s, p1, mid, e2.children@));
                    lemma_nodes_parsed_lb(s, p1, mid, e2.children@);
                    lemma_chain_stops(s, p1, mid, e2.children@, stuckp, ns0);
                    if mid != stuckp {
                        let (endn, nn) = choose|endn: int, nn: Node|
                            #[trigger] html_node_parsed(s, mid, endn, nn);
                        lemma_closing_no_node(s, mid, endn, nn);
                    }
                },
                None => {},
            }
        }
    }
}

/// That a structural mismatch is visible from `i`: the opening tag
/// parses, is not void, and either its immediate closing tag has the
/// wrong name, or some parsed child run gets stuck — at an opening tag
/// that no node completes, or at a closing tag of the wrong name.
pub open spec fn mismatch_witnessed(s: Seq<char>, i: int) -> bool {
    match spec_parse_html_tag(s, i) {
        Some((p1, name, raw, sc)) => !(sc || spec_is_void_name(name)) && (
        match spec_parse_closing_tag(s, p1) {
            Some((p2, cn)) => cn != name,
            None => exists|p: int, ns0: Seq<Node>|
                #![trigger html_nodes_parsed(s, p1, p, ns0)]
                html_nodes_parsed(s, p1, p, ns0) && (forall|e2: int, n: Node|
                    !#[trigger] html_node_parsed(s, p, e2, n)) && (spec_parse_html_tag(
                    s,
                    p,
                ) is Some || (match spec_parse_closing_tag(s, p) {
                    Some((p3, cn)) => cn != name,
                    None => false,
                })),
        }),
        None => false,
    }
}

/// Where no comment parses, no element parses, and the text run is empty,
/// one candidate node does not parse.
proof fn lemma_no_node_parses_one(s: Seq<char>, i: int, end: int, n2: Node)
    requires
        0 <= i <= s.len(),
        spec_parse_html_comment(s, i) is None,
        forall|end2: int, e2: Element| !#[trigger] element_parsed(s, i, end2, e2),
        spec_html_text_end(s, i) == i,
    ensures
        !html_node_parsed(s, i, end, n2),
{
    reveal_with_fuel(html_node_parsed, 2);
    assert(s.subrange(i, i).len() == 0);
    match n2 {
        Node::Comment(c) => {},
        Node::Element(e2) => {
            assert(!element_parsed(s, i, end, e2));
        },
        Node::Text(t) => {},
    }
}

/// Where no comment parses, no element parses, and the text run is empty,
/// no node parses at all.
proof fn lemma_no_node_parses(s: Seq<char>, i: int)
    requires
        0 <= i <= s.len(),
        spec_parse_html_comment(s, i) is None,
        forall|end: int, e2: Element| !#[trigger] element_parsed(s, i, end, e2),
        spec_html_text_end(s, i) == i,
    ensures
        forall|end: int, n2: Node| !#[trigger] html_node_parsed(s, i, end, n2),
{
    assert forall|end: int, n2: Node| !#[trigger] html_node_parsed(s, i, end, n2) by {
        lemma_no_node_parses_one(s, i, end, n2);
    }
}

impl Element {
    /// Parses one element. A closing tag whose name differs from the
    /// opening tag's is a hard `StructuralMismatch` failure.
    #[verifier::rlimit(100)]
    #[verifier::spinoff_prover]
    pub fn parse(input: &Vec<char>, pos: usize) -> (r: Result<(usize, Self), ParseError>)
        requires
            pos <= input.len(),
        ensures
            r matches Ok((end, e)) ==> element_parsed(input@, pos as int, end as int, e) && pos
                < end <= input.len() && (e.variant is Void ==> e.children@.len() == 0)
                && e.attributes.wf(),
            r matches Err(er) ==> er == ParseError::Lexical || er == ParseError::StructuralMismatch,
            // Success is owed: the parser fails only where no element
            // parses at all, so a failure refutes every candidate parse.
            r matches Err(er) ==> (forall|end: int, e2: Element|
                !#[trigger] element_parsed(input@, pos as int, end, e2)),
            // A structural mismatch arises only under a parsed opening tag.
            r matches Err(er) && er == ParseError::StructuralMismatch ==> spec_parse_html_tag(
                input@,
                pos as int,
            ) is Some,
            // And it always points at a concrete mismatch: immediately
            // after the opening tag, or where the child run got stuck.
            r matches Err(er) && er == ParseError::StructuralMismatch ==> mismatch_witnessed(
                input@,
                pos as int,
            ),
            // A closing tag right after the opening tag whose name differs
            // from the opening tag's name is always a structural mismatch.
            ({
                match spec_parse_html_tag(input@, pos as int) {
                    Some((p1, name, raw, sc)) => (!(sc || spec_is_void_name(name))
                        && (match spec_parse_closing_tag(input@, p1) {
                        Some((p2, cn)) => cn != name,
                        None => false,
                    })) ==> (r matches Err(er) && er == ParseError::StructuralMismatch),
                    None => true,
                }
            }),
        decreases input.len() - pos, 0int,
    {
        let (p1, tag) = match Tag::parse(input, pos) {
            Ok(v) => v,
            Err(e) => {
                proof {
                    lemma_no_element_without_tag(input@, pos as int);
                }
                return Err(e);
            },
        };
        let mut attributes = tag.attributes;
        let id = match attributes.pop("id") {
            Some(v) => v,
            None => None,
        };
        let classes_attr = match attributes.pop("class") {
            Some(v) => v,
            None => None,
        };
        let classes: Vec<Vec<char>> = match classes_attr {
            Some(cv) => split_spaces(&cv),
            None => {
                let empty: Vec<Vec<char>> = Vec::new();
                proof {
                    assert(classes_view(empty@) =~= Seq::<Seq<char>>::empty());
                }
                empty
            },
        };
        let is_void = match tag.variant {
            ElementVariant::Void => true,
            ElementVariant::Normal => false,
        };
        if is_void {
            return Ok(
                (
                    p1,
                    Element {
                        id,
                        name: tag.name,
                        variant: ElementVariant::Void,
                        attributes,
                        classes,
                        children: Vec::new(),
                    },
                ),
            );
        }
        match ClosingTag::parse(input, p1) {
            Ok((p2, ct)) => {
                if vec_eq(&ct.name, &tag.name) {
                    return Ok(
                        (
                            p2,
                            Element {
                                id,
                                name: tag.name,
                                variant: ElementVariant::Normal,
                                attributes,
                                classes,
                                children: Vec::new(),
                            },
                        ),
                    );
                } else {
                    proof {
                        lemma_no_element_immediate_mismatch(input@, pos as int);
                    }
                    return Err(ParseError::StructuralMismatch);
                }
            },
            Err(_) => {},
        }
        let (mid, children) = match parse_child_nodes(input, p1) {
            Ok(v) => v,
            Err(er) => {
                proof {
                    let (p, ns0) = choose|p: int, ns0: Seq<Node>|
                        html_nodes_parsed(input@, p1 as int, p, ns0) && spec_parse_html_tag(
                            input@,
                            p,
                        ) is Some && (forall|end2: int, n: Node|
                            !#[trigger] html_node_parsed(input@, p, end2, n));
                    lemma_tag_closing_exclusive(input@, p);
                    lemma_no_element_deep(input@, pos as int, p, ns0);
                }
                return Err(er);
            },
        };
        let (p3, ct) = match ClosingTag::parse(input, mid) {
            Ok(v) => v,
            Err(e) => {
                proof {
                    lemma_no_element_deep(input@, pos as int, mid as int, children@);
                }
                return Err(e);
            },
        };
        if vec_eq(&ct.name, &tag.name) {
            let e = Element {
                id,
                name: tag.name,
                variant: ElementVariant::Normal,
                attributes,
                classes,
                children,
            };
            proof {
                assert(html_nodes_parsed(input@, p1 as int, mid as int, e.children@));
                lemma_nodes_span_end(input@, p1 as int, mid as int, e.children@);
            }
            Ok((p3, e))
        } else {
            proof {
                lemma_no_element_deep(input@, pos as int, mid as int, children@);
                assert(html_nodes_parsed(input@, p1 as int, mid as int, children@));
            }
            Err(ParseError::StructuralMismatch)
        }
    }
}

impl Node {
    /// Parses one HTML node at `pos`, trying comment, element, then text,
    /// committing only on success. A structural mismatch inside an element
    /// is a hard failure; any other element failure falls through to text.
    pub fn parse(input: &Vec<char>, pos: usize) -> (r: Result<(usize, Self), ParseError>)
        requires
            pos <= input.len(),
        ensures
            r matches Ok((end, n)) ==> html_node_parsed(input@, pos as int, end as int, n) && pos
                < end <= input.len(),
            r matches Err(er) ==> er == ParseError::Lexical || er == ParseError::StructuralMismatch,
            // A non-structural failure means nothing starts here: no
            // comment parses, and the text run is empty.
            r matches Err(er) && er == ParseError::Lexical ==> spec_parse_html_comment(
                input@,
                pos as int,
            ) is None && (pos == input.len() || input@[pos as int] == '<'),
            // Success is owed: a failure refutes every candidate parse.
            r matches Err(er) ==> (forall|end: int, n2: Node|
                !#[trigger] html_node_parsed(input@, pos as int, end, n2)),
            // A structural mismatch arises only under a parsed opening tag,
            // and always points at a concrete mismatch.
            r matches Err(er) && er == ParseError::StructuralMismatch ==> spec_parse_html_tag(
                input@,
                pos as int,
            ) is Some && mismatch_witnessed(input@, pos as int),
        decreases input.len() - pos, 1int,
    {
        match parse_comment(input, pos) {
            Ok((e, c)) => {
                return Ok((e, Node::Comment(c)));
            },
            Err(_) => {},
        }
        match Element::parse(input, pos) {
            Ok((e, el)) => {
                return Ok((e, Node::Element(el)));
            },
            Err(er) => {
                match er {
                    ParseError::StructuralMismatch => {
                        proof {
                            assert(input@[pos as int] == '<');
                            assert(spec_html_text_end(input@, pos as int) == pos as int);
                            lemma_no_node_parses(input@, pos as int);
                        }
                        return Err(er);
                    },
                    ParseError::Lexical => {},
                }
            },
        }
        let e = parse_text(input, pos);
        if pos < e {
            let t = copy_range(input, pos, e);
            Ok((e, Node::Text(t)))
        } else {
            proof {
                lemma_no_node_parses(input@, pos as int);
            }
            Err(ParseError::Lexical)
        }
    }
}

/// Parses consecutive child nodes until none parses any further. A
/// structural mismatch inside a child is a hard failure; stopping on any
/// other failure is normal and leaves the position before it.
pub fn parse_child_nodes(input: &Vec<char>, pos: usize) -> (r: Result<
    (usize, Vec<Node>),
    ParseError,
>)
    requires
        pos <= input.len(),
    ensures
        r matches Ok((end, ns)) ==> html_nodes_parsed(input@, pos as int, end as int, ns@) && pos
            <= end <= input.len(),
        // The run stops exactly where no further node starts: at the end of
        // the input or before a `<` that opens neither a comment nor an
        // element.
        r matches Ok((end, ns)) ==> spec_parse_html_comment(input@, end as int) is None && (end
            == input.len() || input@[end as int] == '<'),
        // More exactly: the run stops only where no node at all parses.
        r matches Ok((end, ns)) ==> (forall|end2: int, n: Node|
            !#[trigger] html_node_parsed(input@, end as int, end2, n)),
        // The run fails only on a hard mismatch: some parsed prefix gets
        // stuck at an opening tag that no node can complete.
        r matches Err(er) ==> er == ParseError::StructuralMismatch && (exists|
            p: int,
            ns0: Seq<Node>,
        |
            html_nodes_parsed(input@, pos as int, p, ns0) && spec_parse_html_tag(
                input@,
                p,
            ) is Some && (forall|end2: int, n: Node|
                !#[trigger] html_node_parsed(input@, p, end2, n))),
    decreases input.len() - pos, 2int,
{
    let mut nodes: Vec<Node> = Vec::new();
    let mut cur: usize = pos;
    loop
        invariant
            pos <= cur <= input.len(),
            html_nodes_parsed(input@, pos as int, cur as int, nodes@),
        decreases input.len() - cur,
    {
        match Node::parse(input, cur) {
            Ok((e, n)) => {
                proof {
                    lemma_nodes_parsed_push(
                        input@,
                        pos as int,
                        cur as int,
                        e as int,
                        nodes@,
                        n,
                    );
                }
                nodes.push(n);
                cur = e;
            },
            Err(er) => {
                match er {
                    ParseError::StructuralMismatch => {
                        proof {
                            assert(html_nodes_parsed(input@, pos as int, cur as int, nodes@));
                        }
                        return Err(er);
                    },
                    ParseError::Lexical => {
                        return Ok((cur, nodes));
                    },
                }
            },
        }
    }
}

// ---------------------------------------------------------------------------
// Rendering
// ---------------------------------------------------------------------------

/// The class names joined with single spaces.
pub open spec fn spec_render_classes(cs: Seq<Vec<char>>) -> Seq<char>
    decreases cs.len(),
{
    if cs.len() == 0 {
        Seq::empty()
    } else if cs.len() == 1 {
        cs[0]@
    } else {
        spec_render_classes(cs.drop_last()) + seq![' '] + cs.last()@
    }
}

/// The canonical opening-tag text of an element, without variant or
/// nesting: `<name`, then ` id="..."` if present, then ` class="..."` if
/// any classes are present, then the remaining attributes in mapping
/// order.
pub open spec fn spec_render_open(e: Element) -> Seq<char> {
    seq!['<'] + e.name@ + (match e.id {
        Some(id) => seq![' ', 'i', 'd', '=', '"'] + id@ + seq!['"'],
        None => Seq::<char>::empty(),
    }) + (if e.classes@.len() > 0 {
        seq![' ', 'c', 'l', 'a', 's', 's', '=', '"'] + spec_render_classes(e.classes@) + seq!['"']
    } else {
        Seq::<char>::empty()
    }) + spec_render_attrs(e.attributes.kvs@)
}

/// The canonical rendering of an element at the indentation `ind`. A
/// `Void` element closes with ` />` and a newline. A `Normal` element
/// with no children closes on the same line with no interior newline;
/// with children, a newline follows the opening tag, each child is
/// rendered one tab deeper, and the closing tag is indented on its own
/// line. A trailing newline always follows.
pub open spec fn spec_render_element(e: Element, ind: Seq<char>) -> Seq<char>
    decreases e,
{
    ind + spec_render_open(e) + (match e.variant {
        ElementVariant::Void => seq![' ', '/', '>', '\n'],
        ElementVariant::Normal => seq!['>'] + (if e.children@.len() == 0 {
            seq!['<', '/'] + e.name@ + seq!['>', '\n']
        } else {
            seq!['\n'] + spec_render_nodes(e.children@, ind.push('\t')) + ind + seq!['<', '/']
                + e.name@ + seq!['>', '\n']
        }),
    })
}

/// The canonical renderings of the nodes, concatenated.
pub open spec fn spec_render_nodes(ns: Seq<Node>, ind: Seq<char>) -> Seq<char>
    decreases ns,
{
    if ns.len() == 0 {
        Seq::empty()
    } else {
        spec_render_nodes(ns.drop_last(), ind) + spec_render_node(ns.last(), ind)
    }
}

/// The canonical rendering of one node at the indentation `ind`: text as
/// the indent, the text and a newline; a comment as the indent,
/// `<!-- body -->` and a newline; an element as its own rendering.
pub open spec fn spec_render_node(n: Node, ind: Seq<char>) -> Seq<char>
    decreases n,
{
    match n {
        Node::Text(t) => ind + t@ + seq!['\n'],
        Node::Comment(c) => ind + seq!['<', '!', '-', '-', ' '] + c@ + seq![' ', '-', '-', '>']
            + seq!['\n'],
        Node::Element(e) => spec_render_element(e, ind),
    }
}

impl Element {
    /// Appends the canonical opening-tag text (without variant or
    /// nesting) to `out`.
    #[verifier::rlimit(50)]
    pub fn render_open_into(&self, out: &mut Vec<char>)
        ensures
            final(out)@ == old(out)@ + spec_render_open(*self),
    {
        out.push('<');
        push_all(out, &self.name);
        match &self.id {
            Some(id) => {
                out.push(' ');
                out.push('i');
                out.push('d');
                out.push('=');
                out.push('"');
                push_all(out, id);
                out.push('"');
            },
            None => {},
        }
        if self.classes.len() > 0 {
            out.push(' ');
            out.push('c');
            out.push('l');
            out.push('a');
            out.push('s');
            out.push('s');
            out.push('=');
            out.push('"');
            let ghost cls_prefix = out@;
            proof {
                assert(out@ =~= cls_prefix + spec_render_classes(self.classes@.take(0)));
            }
            let mut i: usize = 0;
            while i < self.classes.len()
                invariant
                    0 <= i <= self.classes@.len(),
                    out@ == cls_prefix + spec_render_classes(self.classes@.take(i as int)),
                decreases self.classes@.len() - i,
            {
                if i > 0 {
                    out.push(' ');
                }
                push_all(out, &self.classes[i]);
                proof {
                    let taken = self.classes@.take(i + 1 as int);
                    assert(taken.drop_last() =~= self.classes@.take(i as int));
                    assert(taken.last() == self.classes@[i as int]);
                    assert(out@ =~= cls_prefix + spec_render_classes(taken));
                }
                i = i + 1;
            }
            out.push('"');
            proof {
                assert(self.classes@.take(self.classes@.len() as int) =~= self.classes@);
            }
        }
        render_attrs_into(out, &self.attributes.kvs);
        proof {
            assert(out@ =~= old(out)@ + spec_render_open(*self));
        }
    }

    /// Appends the canonical rendering at the indentation `ind` to `out`.
    #[verifier::rlimit(50)]
    pub fn render_into(&self, out: &mut Vec<char>, ind: &Vec<char>)
        ensures
            final(out)@ == old(out)@ + spec_render_element(*self, ind@),
        decreases *self, 0int,
    {
        push_all(out, ind);
        self.render_open_into(out);
        proof {
            assert(out@ =~= old(out)@ + ind@ + spec_render_open(*self));
        }
        let is_void = match self.variant {
            ElementVariant::Void => true,
            ElementVariant::Normal => false,
        };
        if is_void {
            out.push(' ');
            out.push('/');
            out.push('>');
            out.push('\n');
            proof {
                assert(out@ =~= old(out)@ + spec_render_element(*self, ind@));
            }
            return ;
        }
        out.push('>');
        if self.children.len() == 0 {
            out.push('<');
            out.push('/');
            push_all(out, &self.name);
            out.push('>');
            out.push('\n');
            proof {
                assert(out@ =~= old(out)@ + spec_render_element(*self, ind@));
            }
            return ;
        }
        out.push('\n');
        let mut child_ind = copy_range(ind, 0, ind.len());
        child_ind.push('\t');
        proof {
            assert(child_ind@ =~= ind@.push('\t'));
        }
        let ghost kids_prefix = out@;
        proof {
            assert(out@ =~= kids_prefix + spec_render_nodes(self.children@.take(0), child_ind@));
        }
        let mut i: usize = 0;
        while i < self.children.len()
            invariant
                0 <= i <= self.children@.len(),
                child_ind@ == ind@.push('\t'),
                out@ == kids_prefix + spec_render_nodes(self.children@.take(i as int), child_ind@),
            decreases self.children@.len() - i,
        {
            proof {
                assert(self.children@[i as int] == self.children[i as int]);
            }
            self.children[i].render_into(out, &child_ind);
            proof {
                let taken = self.children@.take(i + 1 as int);
                assert(taken.drop_last() =~= self.children@.take(i as int));
                assert(taken.last() == self.children@[i as int]);
                assert(out@ =~= kids_prefix + spec_render_nodes(taken, child_ind@));
            }
            i = i + 1;
        }
        push_all(out, ind);
        out.push('<');
        out.push('/');
        push_all(out, &self.name);
        out.push('>');
        out.push('\n');
        proof {
            assert(self.children@.take(self.children@.len() as int) =~= self.children@);
            assert(out@ =~= old(out)@ + spec_render_element(*self, ind@));
        }
    }

    /// Renders the element canonically at the given nesting depth.
    pub fn to_html(&self, indent_level: usize) -> (r: String)
        ensures
            r@ == spec_render_element(*self, crate::lex::spec_indent(indent_level as nat)),
    {
        let ind = crate::lex::make_indent(indent_level);
        let mut out: Vec<char> = Vec::new();
        self.render_into(&mut out, &ind);
        chars_to_string(&out)
    }
}

impl Node {
    /// Appends the canonical rendering at the indentation `ind` to `out`.
    pub fn render_into(&self, out: &mut Vec<char>, ind: &Vec<char>)
        ensures
            final(out)@ == old(out)@ + spec_render_node(*self, ind@),
        decreases *self, 1int,
    {
        match self {
            Node::Text(t) => {
                push_all(out, ind);
                push_all(out, t);
                out.push('\n');
                proof {
                    assert(out@ =~= old(out)@ + spec_render_node(*self, ind@));
                }
            },
            Node::Comment(c) => {
                push_all(out, ind);
                out.push('<');
                out.push('!');
                out.push('-');
                out.push('-');
                out.push(' ');
                push_all(out, c);
                out.push(' ');
                out.push('-');
                out.push('-');
                out.push('>');
                out.push('\n');
                proof {
                    assert(out@ =~= old(out)@ + spec_render_node(*self, ind@));
                }
            },
            Node::Element(e) => {
                e.render_into(out, ind);
            },
        }
    }

    /// Renders the node canonically at the given nesting depth.
    pub fn to_html(&self, indent_level: usize) -> (r: String)
        ensures
            r@ == spec_render_node(*self, crate::lex::spec_indent(indent_level as nat)),
    {
        let ind = crate::lex::make_indent(indent_level);
        let mut out: Vec<char> = Vec::new();
        self.render_into(&mut out, &ind);
        chars_to_string(&out)
    }
}

} // verus!
