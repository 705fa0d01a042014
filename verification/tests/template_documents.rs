use djfmt::template_parser::{Node, Template};

fn chars(s: &str) -> Vec<char> {
    s.chars().collect()
}

#[test]
fn test_empty_template() {
    let input = chars("");
    let (end, actual) = Template::parse(&input, 0);
    assert_eq!(end, 0);
    assert!(actual.nodes.is_empty());
}

#[test]
fn test_text_only_template() {
    let input = chars("text");
    let (end, actual) = Template::parse(&input, 0);
    assert_eq!(end, input.len());
    assert_eq!(actual.nodes, vec![Node::Text(chars("text"))]);
}

#[test]
fn test_variable_only_template() {
    let input = chars("{{text}}");
    let (end, actual) = Template::parse(&input, 0);
    assert_eq!(end, input.len());
    assert_eq!(actual.nodes.len(), 1);
    match &actual.nodes[0] {
        Node::Variable(vt) => {
            assert_eq!(vt.tag_type, chars("text"));
            assert!(vt.filters.is_empty());
        },
        other => panic!("expected a variable node, got {:?}", other),
    }
}

#[test]
fn test_mixed_template() {
    let input = chars("hello{{text}}there{# comment #}again{% thing %}world");
    let (end, actual) = Template::parse(&input, 0);
    assert_eq!(end, input.len());
    assert_eq!(actual.nodes.len(), 7);
    assert_eq!(actual.nodes[0], Node::Text(chars("hello")));
    match &actual.nodes[1] {
        Node::Variable(vt) => assert_eq!(vt.tag_type, chars("text")),
        other => panic!("expected a variable node, got {:?}", other),
    }
    assert_eq!(actual.nodes[2], Node::Text(chars("there")));
    assert_eq!(actual.nodes[3], Node::Comment(chars("comment")));
    assert_eq!(actual.nodes[4], Node::Text(chars("again")));
    match &actual.nodes[5] {
        Node::Tag(t) => assert_eq!(t.tag_type, chars("thing")),
        other => panic!("expected a tag node, got {:?}", other),
    }
    assert_eq!(actual.nodes[6], Node::Text(chars("world")));
}

#[test]
fn test_template_formatting_canonicalizes_spacing() {
    let input = chars("hello{{text}}world");
    let (_, template) = Template::parse(&input, 0);
    assert_eq!(template.formatted(0), "hello{{ text }}world");
}

#[test]
fn test_formatting_multiple_times_doesnt_change_output() {
    let expected = "<div></div>";
    let input = chars(expected);
    let (_, parsed) = Template::parse(&input, 0);

    let first_format = parsed.formatted(0);
    assert_eq!(expected, first_format);

    let second_input = chars(&first_format);
    let (_, second_parse) = Template::parse(&second_input, 0);

    let second_format = second_parse.formatted(0);
    assert_eq!(expected, second_format);
}

#[test]
fn test_filter_chain_round_trips_literally() {
    let text = "{{ my_var|my_filter:\"arg1\"|my_filter2:\"arg2\" }}";
    let input = chars(text);
    let (end, template) = Template::parse(&input, 0);
    assert_eq!(end, input.len());
    assert_eq!(template.formatted(0), text);
}

#[test]
fn test_unterminated_variable_is_dropped() {
    // The node-sequence parse stops silently before trailing input that no
    // alternative can parse.
    let input = chars("{{x");
    let (end, template) = Template::parse(&input, 0);
    assert_eq!(end, 0);
    assert!(template.nodes.is_empty());
}

#[test]
fn test_multi_line_comment_in_template() {
    let input = chars("a{% comment %}b{% c %}{% endcomment %}d");
    let (end, template) = Template::parse(&input, 0);
    assert_eq!(end, input.len());
    assert_eq!(
        template.nodes,
        vec![
            Node::Text(chars("a")),
            Node::Comment(chars("b{% c %}")),
            Node::Text(chars("d")),
        ]
    );
}
