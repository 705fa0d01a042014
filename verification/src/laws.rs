//! The general guarantees of the formatter, each stated as a proof
//! function over the parsing and rendering specs.

use crate::html_parser::attribute::{
    is_attr_char, spec_parse_attr_key, spec_parse_attr_val, spec_parse_attribute, spec_render_attr,
    spec_render_attrs, spec_scan_attr, val_view, Attribute,
};
use crate::html_parser::element::{
    spec_is_void_name, spec_render_classes, spec_render_element, spec_render_open, Element,
};
use crate::lex::{spec_scan_until_char, spec_skip_spaces};
use crate::template_parser::comment::{
    spec_escape_tag, spec_find_endcomment, spec_parse_multi_line_comment,
};
use crate::template_parser::text::{
    is_sl_text_char, spec_parse_sl_string, spec_scan_sl_text, SingleLineTextString,
};
use crate::template_parser::variable::{
    is_ident_char, is_ident_start_char, spec_parse_variable, spec_scan_ident,
};
use vstd::prelude::*;

verus! {

/// In a range that does not hold `stop`, the scan does not stop.
proof fn lemma_scan_until_region(s: Seq<char>, a: int, b: int, stop: char)
    requires
        0 <= a <= b <= s.len(),
        forall|k: int| a <= k < b ==> #[trigger] s[k] != stop,
    ensures
        spec_scan_until_char(s, a, stop) == spec_scan_until_char(s, b, stop),
    decreases b - a,
{
    if a < b {
        lemma_scan_until_region(s, a + 1, b, stop);
    }
}

/// An attribute that has a value always renders it between double quotes,
/// as ` key="value"`.
pub proof fn lemma_attr_value_renders_double_quoted(a: Attribute, v: Seq<char>)
    requires
        val_view(a.value) == Some(v),
    ensures
        spec_render_attr(a) == seq![' '] + a.key@ + seq!['=', '"'] + v + seq!['"'],
{
    match a.value {
        Some(vv) => {
            assert(spec_render_attr(a) =~= seq![' '] + a.key@ + seq!['=', '"'] + v + seq!['"']);
        },
        None => {},
    }
}

/// The quote style of an attribute value is immaterial: a value written
/// between single quotes and the same value written between double quotes
/// parse to the same unquoted value, consuming the whole text either way.
pub proof fn lemma_attr_quote_style_immaterial(v: Seq<char>, s1: Seq<char>, s2: Seq<char>)
    requires
        forall|k: int| 0 <= k < v.len() ==> #[trigger] v[k] != '"' && v[k] != '\'',
        s1 == seq!['"'] + v + seq!['"'],
        s2 == seq!['\''] + v + seq!['\''],
    ensures
        spec_parse_attr_val(s1, 0) == Some((s1.len() as int, v)),
        spec_parse_attr_val(s2, 0) == Some((s2.len() as int, v)),
{
    assert forall|k: int| 1 <= k < (v.len() + 1) as int implies #[trigger] s1[k] != '"' by {
        assert(s1[k] == v[k - 1]);
    }
    lemma_scan_until_region(s1, 1, (v.len() + 1) as int, '"');
    assert(s1[(v.len() + 1) as int] == '"');
    assert(spec_scan_until_char(s1, (v.len() + 1) as int, '"') == (v.len() + 1) as int);
    assert(s1.subrange(1, (v.len() + 1) as int) =~= v);
    assert forall|k: int| 1 <= k < (v.len() + 1) as int implies #[trigger] s2[k] != '\'' by {
        assert(s2[k] == v[k - 1]);
    }
    lemma_scan_until_region(s2, 1, (v.len() + 1) as int, '\'');
    assert(s2[(v.len() + 1) as int] == '\'');
    assert(spec_scan_until_char(s2, (v.len() + 1) as int, '\'') == (v.len() + 1) as int);
    assert(s2.subrange(1, (v.len() + 1) as int) =~= v);
    assert(s2[0] == '\'');
}

/// In a range of attribute-name characters, the attribute scan does not
/// stop.
proof fn lemma_scan_attr_region(s: Seq<char>, a: int, b: int)
    requires
        0 <= a <= b <= s.len(),
        forall|k: int| a <= k < b ==> is_attr_char(#[trigger] s[k]),
    ensures
        spec_scan_attr(s, a) == spec_scan_attr(s, b),
    decreases b - a,
{
    if a < b {
        lemma_scan_attr_region(s, a + 1, b);
    }
}

/// A rendered attribute parses back to itself: for any attribute whose key
/// is a non-empty run of attribute-name characters and whose value, if
/// present, holds no double quote, parsing its canonical rendering (after
/// the leading space) consumes all of it and restores the same key and
/// value.
pub proof fn lemma_attr_render_reparses(a: Attribute, t: Seq<char>)
    requires
        a.key@.len() > 0,
        forall|k: int| 0 <= k < a.key@.len() ==> is_attr_char(#[trigger] a.key@[k]),
        match a.value {
            Some(v) => forall|k: int| 0 <= k < v@.len() ==> #[trigger] v@[k] != '"',
            None => true,
        },
        t == spec_render_attr(a).drop_first(),
    ensures
        spec_parse_attribute(t, 0) == Some((t.len() as int, a.key@, val_view(a.value))),
{
    let klen = a.key@.len() as int;
    match a.value {
        Some(v) => {
            let vlen = v@.len() as int;
            assert(t =~= a.key@ + seq!['=', '"'] + v@ + seq!['"']);
            assert forall|k: int| 0 <= k < klen implies is_attr_char(#[trigger] t[k]) by {
                assert(t[k] == a.key@[k]);
            }
            assert(!is_attr_char(t[klen]));
            lemma_scan_attr_region(t, 1, klen);
            assert(spec_scan_attr(t, klen) == klen);
            assert(t.subrange(0, klen) =~= a.key@);
            assert(spec_parse_attr_key(t, 0) == Some((klen, a.key@)));
            assert(spec_skip_spaces(t, klen) == klen);
            assert(t[klen] == '=');
            assert(spec_skip_spaces(t, klen + 1) == klen + 1);
            assert(t[klen + 1] == '"');
            assert forall|k: int| klen + 2 <= k < klen + 2 + vlen implies #[trigger] t[k]
                != '"' by {
                assert(t[k] == v@[k - klen - 2]);
            }
            lemma_scan_until_region(t, klen + 2, klen + 2 + vlen, '"');
            assert(t[klen + 2 + vlen] == '"');
            assert(spec_scan_until_char(t, klen + 2 + vlen, '"') == klen + 2 + vlen);
            assert(t.subrange(klen + 2, klen + 2 + vlen) =~= v@);
        },
        None => {
            assert(t =~= a.key@);
            assert forall|k: int| 0 <= k < klen implies is_attr_char(#[trigger] t[k]) by {
                assert(t[k] == a.key@[k]);
            }
            lemma_scan_attr_region(t, 1, klen);
            assert(spec_scan_attr(t, klen) == klen);
            assert(t.subrange(0, klen) =~= a.key@);
            assert(spec_parse_attr_key(t, 0) == Some((klen, a.key@)));
            assert(spec_skip_spaces(t, klen) == klen);
            assert(spec_parse_attr_val(t, klen) is None);
        },
    }
}

/// A void element always renders as its opening-tag text closed by a
/// space, `/>` and a newline, with no children and no closing tag.
pub proof fn lemma_void_element_renders_self_closing(e: Element, ind: Seq<char>)
    requires
        e.variant is Void,
    ensures
        spec_render_element(e, ind) == ind + spec_render_open(e) + seq![' ', '/', '>', '\n'],
{
}

/// When an element has an `id` and classes, the opening tag renders the
/// tag name first, then the `id` attribute, then the `class` attribute,
/// then the remaining attributes in mapping order.
pub proof fn lemma_id_class_render_first(e: Element, id: Seq<char>)
    requires
        val_view(e.id) == Some(id),
        e.classes@.len() > 0,
    ensures
        spec_render_open(e) == seq!['<'] + e.name@ + seq![' ', 'i', 'd', '=', '"'] + id + seq!['"']
            + seq![' ', 'c', 'l', 'a', 's', 's', '=', '"'] + spec_render_classes(e.classes@)
            + seq!['"'] + spec_render_attrs(e.attributes.kvs@),
{
    match e.id {
        Some(vv) => {
            assert(spec_render_open(e) =~= seq!['<'] + e.name@ + seq![' ', 'i', 'd', '=', '"'] + id
                + seq!['"'] + seq![' ', 'c', 'l', 'a', 's', 's', '=', '"'] + spec_render_classes(
                e.classes@,
            ) + seq!['"'] + spec_render_attrs(e.attributes.kvs@));
        },
        None => {},
    }
}

/// An empty normal element renders with no interior newline: the opening
/// tag is followed at once by the closing tag, then one newline.
pub proof fn lemma_empty_element_renders_inline(e: Element, ind: Seq<char>)
    requires
        e.variant is Normal,
        e.children@.len() == 0,
    ensures
        spec_render_element(e, ind) == ind + spec_render_open(e) + seq!['>', '<', '/'] + e.name@
            + seq!['>', '\n'],
{
    assert(spec_render_element(e, ind) =~= ind + spec_render_open(e) + seq!['>', '<', '/']
        + e.name@ + seq!['>', '\n']);
}

/// A normal element with children inserts a newline after the opening
/// tag, renders each child one tab deeper, and indents the closing tag on
/// its own line.
pub proof fn lemma_children_render_indented(e: Element, ind: Seq<char>)
    requires
        e.variant is Normal,
        e.children@.len() > 0,
    ensures
        spec_render_element(e, ind) == ind + spec_render_open(e) + seq!['>', '\n']
            + crate::html_parser::element::spec_render_nodes(e.children@, ind.push('\t')) + ind
            + seq!['<', '/'] + e.name@ + seq!['>', '\n'],
{
    assert(spec_render_element(e, ind) =~= ind + spec_render_open(e) + seq!['>', '\n']
        + crate::html_parser::element::spec_render_nodes(e.children@, ind.push('\t')) + ind
        + seq!['<', '/'] + e.name@ + seq!['>', '\n']);
}

/// A `{% w %}` tag that parses ends within the input, past its start.
proof fn lemma_escape_tag_bounds(s: Seq<char>, i: int, w: Seq<char>)
    requires
        0 <= i,
    ensures
        match spec_escape_tag(s, i, w) {
            Some(e2) => i < e2 <= s.len(),
            None => true,
        },
{
    if i + 2 <= s.len() && s[i] == '{' && s[i + 1] == '%' {
        crate::lex::lemma_skip_spaces_bounds(s, i + 2);
        let p = crate::lex::spec_skip_spaces(s, i + 2);
        if p + w.len() <= s.len() && s.subrange(p, p + w.len() as int) == w {
            crate::lex::lemma_skip_spaces_bounds(s, p + w.len() as int);
        }
    }
}

/// In a range of string characters (for the quote `q`), the string scan
/// does not stop.
proof fn lemma_scan_sl_region(s: Seq<char>, a: int, b: int, q: char)
    requires
        0 <= a <= b <= s.len(),
        forall|k: int| a <= k < b ==> is_sl_text_char(#[trigger] s[k], q),
    ensures
        spec_scan_sl_text(s, a, q) == spec_scan_sl_text(s, b, q),
    decreases b - a,
{
    if a < b {
        lemma_scan_sl_region(s, a + 1, b, q);
    }
}

/// A rendered quoted string parses back to itself: whichever quote it
/// keeps, parsing its rendering consumes all of it and restores the same
/// quote character and value.
pub proof fn lemma_sl_string_render_reparses(st: SingleLineTextString, t: Seq<char>)
    requires
        st.startquote_char == '\'' || st.startquote_char == '"',
        forall|k: int|
            0 <= k < st.value@.len() ==> is_sl_text_char(
                #[trigger] st.value@[k],
                st.startquote_char,
            ),
        t == st.spec_render(),
    ensures
        spec_parse_sl_string(t, 0) == Some((t.len() as int, st.startquote_char, st.value@)),
{
    let q = st.startquote_char;
    let vlen = st.value@.len() as int;
    assert(t =~= seq![q] + st.value@ + seq![q]);
    assert forall|k: int| 1 <= k < vlen + 1 implies is_sl_text_char(#[trigger] t[k], q) by {
        assert(t[k] == st.value@[k - 1]);
    }
    lemma_scan_sl_region(t, 1, vlen + 1, q);
    assert(t[vlen + 1] == q);
    assert(!is_sl_text_char(t[vlen + 1], q));
    assert(spec_scan_sl_text(t, vlen + 1, q) == vlen + 1);
    assert(t.subrange(1, vlen + 1) =~= st.value@);
}

/// In a range of path characters, the path scan does not stop.
proof fn lemma_scan_ident_region(s: Seq<char>, a: int, b: int)
    requires
        0 <= a <= b <= s.len(),
        forall|k: int| a <= k < b ==> is_ident_char(#[trigger] s[k]),
    ensures
        spec_scan_ident(s, a) == spec_scan_ident(s, b),
    decreases b - a,
{
    if a < b {
        lemma_scan_ident_region(s, a + 1, b);
    }
}

/// A variable path that stands alone parses back to itself: parsing a
/// well-formed path consumes all of it and restores it.
pub proof fn lemma_variable_path_reparses(path: Seq<char>)
    requires
        path.len() > 0,
        is_ident_start_char(path[0]),
        forall|k: int| 0 <= k < path.len() ==> is_ident_char(#[trigger] path[k]),
    ensures
        spec_parse_variable(path, 0) == Some((path.len() as int, path)),
{
    lemma_scan_ident_region(path, 0, path.len() as int);
    assert(spec_scan_ident(path, path.len() as int) == path.len() as int);
    assert(path.subrange(0, path.len() as int) =~= path);
}

/// Wherever `spec_find_endcomment` answers, its answer is the first
/// position where an `{% endcomment %}` tag parses.
proof fn lemma_find_endcomment_first(s: Seq<char>, i: int)
    ensures
        match spec_find_endcomment(s, i) {
            Some(j) => i <= j && j + 2 <= s.len() && spec_escape_tag(s, j, "endcomment"@) is Some
                && forall|k: int|
                i <= k < j ==> #[trigger] spec_escape_tag(s, k, "endcomment"@) is None,
            None => forall|k: int|
                i <= k ==> #[trigger] spec_escape_tag(s, k, "endcomment"@) is None,
        },
    decreases s.len() - i,
{
    if i + 2 <= s.len() {
        if spec_escape_tag(s, i, "endcomment"@) is Some {
        } else {
            lemma_find_endcomment_first(s, i + 1);
        }
    }
}

/// A multi-line template comment's body runs from the end of the
/// `{% comment %}` tag to the first `{% endcomment %}` tag: the body may
/// hold template-tag-looking text, but no `{% endcomment %}` tag begins
/// anywhere inside it.
pub proof fn lemma_multi_line_comment_ends_at_first_endcomment(
    s: Seq<char>,
    i: int,
    end: int,
    body: Seq<char>,
)
    requires
        0 <= i <= s.len(),
        spec_parse_multi_line_comment(s, i) == Some((end, body)),
    ensures
        ({
            match spec_escape_tag(s, i, "comment"@) {
                Some(b) => {
                    &&& body == s.subrange(b, b + body.len())
                    &&& spec_escape_tag(s, b + body.len(), "endcomment"@) == Some(end)
                    &&& forall|k: int|
                        b <= k < b + body.len() ==> #[trigger] spec_escape_tag(
                            s,
                            k,
                            "endcomment"@,
                        ) is None
                },
                None => false,
            }
        }),
{
    lemma_escape_tag_bounds(s, i, "comment"@);
    match spec_escape_tag(s, i, "comment"@) {
        Some(b) => {
            lemma_find_endcomment_first(s, b);
            match spec_find_endcomment(s, b) {
                Some(j) => {
                    assert(0 <= b <= j <= s.len());
                    assert(body == s.subrange(b, j));
                    assert(body.len() == j - b);
                    assert(s.subrange(b, b + body.len()) == body);
                },
                None => {},
            }
        },
        None => {},
    }
}

/// A parsed element whose tag name is one of the void-element names is a
/// void element: it has no children, whatever the source looked like.
pub proof fn lemma_void_name_parses_void(s: Seq<char>, i: int, end: int, e: Element)
    requires
        crate::html_parser::element::element_parsed(s, i, end, e),
        spec_is_void_name(e.name@),
    ensures
        e.variant is Void,
        e.children@.len() == 0,
{
}

} // verus!
