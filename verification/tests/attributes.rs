use djfmt::html_parser::attribute::{
    parse_attribute, parse_double_quoted_val, parse_key, parse_single_quoted_val, parse_val,
    Attribute, Attributes,
};

fn chars(s: &str) -> Vec<char> {
    s.chars().collect()
}

fn attr(key: &str, value: Option<&str>) -> Attribute {
    Attribute { key: chars(key), value: value.map(chars) }
}

#[test]
fn test_key() {
    let input = chars("width");
    let (end, actual) = parse_key(&input, 0).unwrap();
    let expected = chars("width");
    assert_eq!(actual, expected);
    assert_eq!(end, input.len());
}

#[test]
fn test_val() {
    let input = chars(r#""40""#);
    let (end, actual) = parse_val(&input, 0).unwrap();
    let expected = chars("40");
    assert_eq!(actual, expected);
    assert_eq!(end, input.len());
}

#[test]
fn test_attributes() {
    let input = chars(r#"width="40" height = "30""#);
    let (end, actual) = Attributes::parse(&input, 0);
    assert_eq!(end, input.len());
    assert_eq!(actual.kvs, vec![attr("width", Some("40")), attr("height", Some("30"))]);
}

#[test]
fn test_key_with_hyphen() {
    let input = chars("my-class");
    let (end, actual) = parse_key(&input, 0).unwrap();
    assert_eq!(actual, chars("my-class"));
    assert_eq!(end, input.len());
}

#[test]
fn test_single_quoted_vals() {
    for (input, expected) in [("''", ""), ("'40'", "40"), ("'hello world'", "hello world")] {
        let input = chars(input);
        let (end, actual) = parse_single_quoted_val(&input, 0).unwrap();
        assert_eq!(actual, chars(expected));
        assert_eq!(end, input.len());
    }
}

#[test]
fn test_double_quoted_vals() {
    for (input, expected) in [("\"\"", ""), ("\"40\"", "40"), ("\"hello world\"", "hello world")] {
        let input = chars(input);
        let (end, actual) = parse_double_quoted_val(&input, 0).unwrap();
        assert_eq!(actual, chars(expected));
        assert_eq!(end, input.len());
    }
}

#[test]
fn test_unterminated_quoted_val_is_lexical_error() {
    let input = chars("\"40");
    assert_eq!(parse_double_quoted_val(&input, 0).unwrap_err(), djfmt::ParseError::Lexical);
}

#[test]
fn test_boolean_attribute() {
    let input = chars("width");
    let (end, key, val) = parse_attribute(&input, 0).unwrap();
    assert_eq!(key, chars("width"));
    assert_eq!(val, None);
    assert_eq!(end, input.len());
}

#[test]
fn test_unquoted_value_attribute() {
    let input = chars("value=yes");
    let (end, key, val) = parse_attribute(&input, 0).unwrap();
    assert_eq!(key, chars("value"));
    assert_eq!(val, Some(chars("yes")));
    assert_eq!(end, input.len());
}

#[test]
fn test_numeric_leading_keys() {
    for case in ["-1width", "1width", "1-width"] {
        let input = chars(case);
        let (end, actual) = Attributes::parse(&input, 0);
        assert_eq!(end, input.len());
        assert_eq!(actual.kvs, vec![attr(case, None)]);
    }
}

#[test]
fn test_many_attributes_mixed_quoting() {
    let input = chars(
        "key  =    value key-here1  =    value123   width=\"40\" length='40' height=\"30\" class=\"my-class\"",
    );
    let (end, actual) = Attributes::parse(&input, 0);
    assert_eq!(end, input.len());
    assert_eq!(
        actual.kvs,
        vec![
            attr("key", Some("value")),
            attr("key-here1", Some("value123")),
            attr("width", Some("40")),
            attr("length", Some("40")),
            attr("height", Some("30")),
            attr("class", Some("my-class")),
        ]
    );
}

#[test]
fn test_space_detaches_value_from_key() {
    // Without `=`, a following quoted string is not this attribute's
    // value, and the list stops before it.
    let input = chars("width \"40\"");
    let (end, actual) = Attributes::parse(&input, 0);
    assert_eq!(end, 5);
    assert_eq!(actual.kvs, vec![attr("width", None)]);
}

#[test]
fn test_duplicate_key_last_write_wins() {
    let input = chars("a=\"1\" b=\"2\" a=\"3\"");
    let (end, actual) = Attributes::parse(&input, 0);
    assert_eq!(end, input.len());
    assert_eq!(actual.kvs, vec![attr("a", Some("3")), attr("b", Some("2"))]);
}

#[test]
fn test_insert_updates_in_place() {
    let mut attrs = Attributes::default();
    attrs.insert(chars("a"), Some(chars("1")));
    attrs.insert(chars("b"), None);
    attrs.insert(chars("a"), Some(chars("9")));
    assert_eq!(attrs.kvs, vec![attr("a", Some("9")), attr("b", None)]);
    assert_eq!(attrs.iter().len(), 2);
}

#[test]
fn test_pop_removes_and_returns() {
    let mut attrs = Attributes::default();
    attrs.insert(chars("id"), Some(chars("x")));
    attrs.insert(chars("width"), Some(chars("40")));
    assert_eq!(attrs.pop("id"), Some(Some(chars("x"))));
    assert_eq!(attrs.pop("id"), None);
    assert_eq!(attrs.kvs, vec![attr("width", Some("40"))]);
}
