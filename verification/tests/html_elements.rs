use djfmt::html_parser::attribute::{Attribute, Attributes};
use djfmt::html_parser::comment::parse_comment;
use djfmt::html_parser::element::{parse_child_nodes, Element, ElementVariant, Node};
use djfmt::html_parser::text::parse_text;
use djfmt::ParseError;

fn chars(s: &str) -> Vec<char> {
    s.chars().collect()
}

fn attr(key: &str, value: Option<&str>) -> Attribute {
    Attribute { key: chars(key), value: value.map(chars) }
}

fn empty_element(name: &str) -> Element {
    Element {
        id: None,
        name: chars(name),
        variant: ElementVariant::Normal,
        attributes: Attributes::default(),
        classes: vec![],
        children: vec![],
    }
}

#[test]
fn test_simple_element() {
    let input = chars("<div></div>");
    let (end, actual) = Element::parse(&input, 0).unwrap();
    assert_eq!(end, input.len());
    assert_eq!(actual, empty_element("div"));
}

#[test]
fn test_nested_element() {
    let input = chars(r#"<div><div height="30"></div></div>"#);
    let (end, actual) = Element::parse(&input, 0).unwrap();
    assert_eq!(end, input.len());
    let mut inner = empty_element("div");
    inner.attributes.insert(chars("height"), Some(chars("30")));
    let mut outer = empty_element("div");
    outer.children = vec![Node::Element(inner)];
    assert_eq!(actual, outer);
}

#[test]
fn test_nested_element_format() {
    let mut child = empty_element("div");
    child.attributes.insert(chars("height"), Some(chars("30")));
    let mut child2 = empty_element("div");
    child2.attributes.insert(chars("height"), Some(chars("30")));
    let mut input = empty_element("div");
    input.children = vec![Node::Element(child), Node::Element(child2)];

    let expected = "<div>\n\t<div height=\"30\"></div>\n\t<div height=\"30\"></div>\n</div>\n";
    let actual = input.to_html(0);
    assert_eq!(actual, expected);
}

#[test]
fn test_element_extracts_id() {
    let input = chars("<div id=\"my-id\"></div>");
    let (_, actual) = Element::parse(&input, 0).unwrap();
    assert_eq!(actual.id, Some(chars("my-id")));
    assert!(actual.attributes.kvs.is_empty());
}

#[test]
fn test_element_extracts_classes() {
    let input = chars("<div class=\"a b\"></div>");
    let (_, actual) = Element::parse(&input, 0).unwrap();
    assert_eq!(actual.classes, vec![chars("a"), chars("b")]);
    assert!(actual.attributes.kvs.is_empty());
}

#[test]
fn test_duplicate_id_attribute_last_write_wins() {
    let input = chars("<div id='a' id='b'></div>");
    let (_, element) = Element::parse(&input, 0).unwrap();
    assert_eq!(element.id, Some(chars("b")));
    assert!(element.attributes.kvs.is_empty());
}

#[test]
fn test_consecutive_spaces_in_class_survive_the_round_trip() {
    let input = chars("<div class=\"a  b\"></div>");
    let (_, element) = Element::parse(&input, 0).unwrap();
    assert_eq!(element.classes, vec![chars("a"), chars(""), chars("b")]);
    assert_eq!(element.to_html(0), "<div class=\"a  b\"></div>\n");
}

#[test]
fn test_mismatched_closing_tag_fails_structurally() {
    let input = chars("<div></span>");
    assert_eq!(Element::parse(&input, 0).unwrap_err(), ParseError::StructuralMismatch);
    assert_eq!(Node::parse(&input, 0).unwrap_err(), ParseError::StructuralMismatch);
}

#[test]
fn test_empty_element_renders_without_interior_newline() {
    let input = chars("<div></div>");
    let (_, element) = Element::parse(&input, 0).unwrap();
    assert_eq!(element.to_html(0), "<div></div>\n");
}

#[test]
fn test_element_with_children_indents_them() {
    let input = chars("<div>hello there</div>");
    let (_, node) = Node::parse(&input, 0).unwrap();
    assert_eq!(node.to_html(0), "<div>\n\thello there\n</div>\n");
}

#[test]
fn test_void_elements_self_close_with_space() {
    let input = chars("<img>");
    let (_, node) = Node::parse(&input, 0).unwrap();
    assert_eq!(node.to_html(0), "<img />\n");

    let input = chars("<div/>");
    let (_, node) = Node::parse(&input, 0).unwrap();
    assert_eq!(node.to_html(0), "<div />\n");
}

#[test]
fn test_id_and_class_render_before_other_attributes() {
    let input = chars("<div width=\"40\" id=\"my-id\" class=\"c\"></div>");
    let (_, element) = Element::parse(&input, 0).unwrap();
    assert_eq!(element.to_html(0), "<div id=\"my-id\" class=\"c\" width=\"40\"></div>\n");
}

#[test]
fn test_attribute_quote_style_normalizes_to_double() {
    let input = chars("<div a='x'></div>");
    let (_, element) = Element::parse(&input, 0).unwrap();
    assert_eq!(element.to_html(0), "<div a=\"x\"></div>\n");
}

#[test]
fn test_element_format_kitchen_sink() {
    let mut attributes = Attributes::default();
    attributes.insert(chars("width"), Some(chars("40")));
    let element = Element {
        id: Some(chars("my-id")),
        name: chars("div"),
        variant: ElementVariant::Normal,
        attributes,
        classes: vec![chars("my-class")],
        children: vec![Node::Element(empty_element("div")), Node::Comment(chars("my comment"))],
    };
    let expected =
        "<div id=\"my-id\" class=\"my-class\" width=\"40\">\n\t<div></div>\n\t<!-- my comment -->\n</div>\n";
    assert_eq!(element.to_html(0), expected);
}

#[test]
fn test_html_comment_trims_body() {
    for (input, expected) in [
        ("<!-- -->", ""),
        ("<!--     -->", ""),
        ("<!---->", ""),
        ("<!-- my comment -->", "my comment"),
        ("<!--my-comment-->", "my-comment"),
        ("<!--     my-comment       -->", "my-comment"),
    ] {
        let input = chars(input);
        let (end, body) = parse_comment(&input, 0).unwrap();
        assert_eq!(body, chars(expected));
        assert_eq!(end, input.len());
    }
}

#[test]
fn test_node_dispatch() {
    let input = chars("<!-- my comment -->");
    let (_, node) = Node::parse(&input, 0).unwrap();
    assert_eq!(node, Node::Comment(chars("my comment")));

    let input = chars("hello there");
    let (_, node) = Node::parse(&input, 0).unwrap();
    assert_eq!(node, Node::Text(chars("hello there")));

    let input = chars("<div><img /></div>");
    let (_, node) = Node::parse(&input, 0).unwrap();
    let mut img = empty_element("img");
    img.variant = ElementVariant::Void;
    let mut outer = empty_element("div");
    outer.children = vec![Node::Element(img)];
    assert_eq!(node, Node::Element(outer));
}

#[test]
fn test_parse_child_nodes_sequences() {
    let input = chars("<!---->test<!---->");
    let (end, nodes) = parse_child_nodes(&input, 0).unwrap();
    assert_eq!(end, input.len());
    assert_eq!(
        nodes,
        vec![Node::Comment(chars("")), Node::Text(chars("test")), Node::Comment(chars(""))]
    );
}

#[test]
fn test_parse_child_nodes_stops_at_closing_tag() {
    let input = chars("</div>");
    let (end, nodes) = parse_child_nodes(&input, 0).unwrap();
    assert_eq!(end, 0);
    assert_eq!(nodes, vec![]);
}

#[test]
fn test_parse_child_nodes_two_siblings() {
    let input = chars("<div></div><div></div>");
    let (end, nodes) = parse_child_nodes(&input, 0).unwrap();
    assert_eq!(end, input.len());
    assert_eq!(
        nodes,
        vec![Node::Element(empty_element("div")), Node::Element(empty_element("div"))]
    );
}

#[test]
fn test_html_text_stops_at_tag() {
    let input = chars("thing<div>");
    let end = parse_text(&input, 0);
    assert_eq!(end, 5);
}
