use djfmt::html_parser::attribute::{Attribute, Attributes};
use djfmt::html_parser::element::ElementVariant;
use djfmt::html_parser::tag::{parse_tag_name, ClosingTag, Tag};

fn chars(s: &str) -> Vec<char> {
    s.chars().collect()
}

fn attr(key: &str, value: Option<&str>) -> Attribute {
    Attribute { key: chars(key), value: value.map(chars) }
}

#[test]
fn test_link_tag() {
    let input = chars(r#"<a href="https://google.com">"#);
    let (end, actual) = Tag::parse(&input, 0).unwrap();
    assert_eq!(end, input.len());
    assert_eq!(actual.name, chars("a"));
    assert_eq!(actual.variant, ElementVariant::Normal);
    assert_eq!(actual.attributes.kvs, vec![attr("href", Some("https://google.com"))]);
}

#[test]
fn test_tag() {
    let input = chars(r#"<div width="40" height="30">"#);
    let (end, actual) = Tag::parse(&input, 0).unwrap();
    assert_eq!(end, input.len());
    assert_eq!(actual.name, chars("div"));
    assert_eq!(actual.variant, ElementVariant::Normal);
    assert_eq!(actual.attributes.kvs, vec![attr("width", Some("40")), attr("height", Some("30"))]);
}

#[test]
fn test_self_closing_tag() {
    let input = chars(r#"<div width="40" height="30"/>"#);
    let (end, actual) = Tag::parse(&input, 0).unwrap();
    assert_eq!(end, input.len());
    assert_eq!(actual.name, chars("div"));
    assert_eq!(actual.variant, ElementVariant::Void);
    assert_eq!(actual.attributes.kvs, vec![attr("width", Some("40")), attr("height", Some("30"))]);
}

#[test]
fn test_self_closing_tag_with_spaces() {
    let input = chars(r#"<div width="40" height="30" />"#);
    let (end, actual) = Tag::parse(&input, 0).unwrap();
    assert_eq!(end, input.len());
    assert_eq!(actual.name, chars("div"));
    assert_eq!(actual.variant, ElementVariant::Void);
    assert_eq!(actual.attributes.kvs, vec![attr("width", Some("40")), attr("height", Some("30"))]);
}

#[test]
fn test_closing_tag() {
    let input = chars(r#"</div>"#);
    let (end, actual) = ClosingTag::parse(&input, 0).unwrap();
    assert_eq!(end, input.len());
    assert_eq!(actual, ClosingTag { name: chars("div") });
}

#[test]
fn test_closing_tag_whitespace_variants() {
    for case in ["</div>", "</ div>", "</div >", "</ div >"] {
        let input = chars(case);
        let (end, actual) = ClosingTag::parse(&input, 0).unwrap();
        assert_eq!(end, input.len());
        assert_eq!(actual, ClosingTag { name: chars("div") });
    }
}

#[test]
fn test_tag_rejects_closing_tag() {
    let input = chars("</div>");
    assert!(Tag::parse(&input, 0).is_err());
}

#[test]
fn test_parse_tag_name() {
    for case in ["div", "my-div"] {
        let input = chars(case);
        let (end, actual) = parse_tag_name(&input, 0).unwrap();
        assert_eq!(actual, chars(case));
        assert_eq!(end, input.len());
    }
}

#[test]
fn test_void_name_makes_tag_void() {
    let input = chars("<img>");
    let (_, actual) = Tag::parse(&input, 0).unwrap();
    assert_eq!(actual.variant, ElementVariant::Void);

    let input = chars("<br>");
    let (_, actual) = Tag::parse(&input, 0).unwrap();
    assert_eq!(actual.variant, ElementVariant::Void);
}

#[test]
fn test_tag_to_html_requotes_double() {
    let input = chars("<div a='x'>");
    let (_, tag) = Tag::parse(&input, 0).unwrap();
    assert_eq!(tag.to_html(), "<div a=\"x\">");
}

#[test]
fn test_closing_tag_to_html() {
    let tag = ClosingTag { name: chars("div") };
    assert_eq!(tag.to_html(), "</div>");
}

#[test]
fn test_tag_to_html_boolean_attribute() {
    let mut attributes = Attributes::default();
    attributes.insert(chars("hidden"), None);
    let tag = Tag { name: chars("div"), attributes, variant: ElementVariant::Normal };
    assert_eq!(tag.to_html(), "<div hidden>");
}
