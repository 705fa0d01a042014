use djfmt::template_parser::argument::{TagArgument, TagArgumentValue};
use djfmt::template_parser::comment::{
    parse_multi_line_comment, parse_single_line_comment, Comment,
};
use djfmt::template_parser::filter::{parse_filter_chain, Filter};
use djfmt::template_parser::tag::{parse_individual_tag, parse_specific_tag, Tag};
use djfmt::template_parser::text::{parse_text, SingleLineTextString};
use djfmt::template_parser::variable::{parse_variable, VariableTag};

fn chars(s: &str) -> Vec<char> {
    s.chars().collect()
}

fn filter(name: &str, argument: Option<TagArgumentValue>) -> Filter {
    Filter { filter_type: chars(name), argument }
}

fn text_arg(value: &str, quote: char) -> TagArgumentValue {
    TagArgumentValue::Text(SingleLineTextString { value: chars(value), startquote_char: quote })
}

#[test]
fn test_template_text_stops_at_markers() {
    for (input, expected_end) in [
        ("\n", 1),
        ("my_text", 7),
        ("{% my_filter %}", 0),
        ("thing{% my_filter %}", 5),
        ("thing{%", 5),
        ("thing{{", 5),
        ("thing{#", 5),
    ] {
        let input = chars(input);
        let end = parse_text(&input, 0);
        assert_eq!(end, expected_end);
    }
}

#[test]
fn test_single_line_text_string() {
    let input = chars("\"my_text\"");
    let (end, actual) = SingleLineTextString::parse(&input, 0).unwrap();
    assert_eq!(end, input.len());
    assert_eq!(actual, SingleLineTextString { value: chars("my_text"), startquote_char: '"' });

    let input = chars("'my_text'");
    let (_, actual) = SingleLineTextString::parse(&input, 0).unwrap();
    assert_eq!(actual.startquote_char, '\'');

    let input = chars("\"my_text's\"thing");
    let (end, actual) = SingleLineTextString::parse(&input, 0).unwrap();
    assert_eq!(actual.value, chars("my_text's"));
    assert_eq!(end, input.len() - "thing".len());
}

#[test]
fn test_single_line_text_string_round_trips() {
    for case in ["\"my_text\"", "'my_text'", "\"my_text's\""] {
        let input = chars(case);
        let (_, parsed) = SingleLineTextString::parse(&input, 0).unwrap();
        assert_eq!(parsed.formatted(0), case);
    }
}

#[test]
fn test_single_line_text_string_rejects_newline_and_unterminated() {
    assert!(SingleLineTextString::parse(&chars("\"my\ntext\""), 0).is_err());
    assert!(SingleLineTextString::parse(&chars("\"my_text"), 0).is_err());
    assert!(SingleLineTextString::parse(&chars("my_text"), 0).is_err());
}

#[test]
fn test_parse_variable_accepts_paths() {
    for case in ["my_var", "myvar", "myvar0", "_myvar0", "_MY0VAR0", "_MY0V_AR0__"] {
        let input = chars(case);
        let (end, actual) = parse_variable(&input, 0).unwrap();
        assert_eq!(actual, chars(case));
        assert_eq!(end, input.len());
    }
}

#[test]
fn test_parse_variable_rejects_bad_starts() {
    for case in ["", "0myvar", "-my-var"] {
        let input = chars(case);
        assert!(parse_variable(&input, 0).is_err());
    }
}

#[test]
fn test_parse_variable_stops_at_hyphen() {
    let input = chars("my-var");
    let (end, actual) = parse_variable(&input, 0).unwrap();
    assert_eq!(actual, chars("my"));
    assert_eq!(end, 2);
}

#[test]
fn test_filter_parsing() {
    let input = chars("my_filter");
    let (_, actual) = Filter::parse(&input, 0).unwrap();
    assert_eq!(actual, filter("my_filter", None));

    let input = chars("my_filter:\"my_arg\"");
    let (_, actual) = Filter::parse(&input, 0).unwrap();
    assert_eq!(actual, filter("my_filter", Some(text_arg("my_arg", '"'))));

    let input = chars("my_filter:'my_arg'");
    let (_, actual) = Filter::parse(&input, 0).unwrap();
    assert_eq!(actual, filter("my_filter", Some(text_arg("my_arg", '\''))));
}

#[test]
fn test_filter_colon_without_argument_fails() {
    for case in ["my_filter:", "my_filter:\"", "my_filter:'", "my_filter:\"my_arg"] {
        let input = chars(case);
        assert!(Filter::parse(&input, 0).is_err());
    }
}

#[test]
fn test_filter_chain_parsing() {
    let input = chars("");
    let (_, actual) = parse_filter_chain(&input, 0);
    assert_eq!(actual, vec![]);

    let input = chars("my_filter|my_filter2");
    let (_, actual) = parse_filter_chain(&input, 0);
    assert_eq!(actual, vec![filter("my_filter", None), filter("my_filter2", None)]);

    let input = chars("|my_filter");
    let (_, actual) = parse_filter_chain(&input, 0);
    assert_eq!(actual, vec![filter("my_filter", None)]);

    let input = chars("my_filter | my_filter2");
    let (_, actual) = parse_filter_chain(&input, 0);
    assert_eq!(actual, vec![filter("my_filter", None), filter("my_filter2", None)]);
}

#[test]
fn test_filter_formatting() {
    assert_eq!(filter("my_filter", None).formatted(0), "|my_filter");
    assert_eq!(
        filter("my_filter", Some(text_arg("my_arg", '"'))).formatted(0),
        "|my_filter:\"my_arg\""
    );
    // A single-quoted source argument still renders double-quoted in a
    // filter position.
    assert_eq!(
        filter("my_filter", Some(text_arg("my_arg", '\''))).formatted(0),
        "|my_filter:\"my_arg\""
    );
}

#[test]
fn test_tag_argument_parsing() {
    let input = chars("argument");
    let (_, actual) = TagArgument::parse(&input, 0).unwrap();
    assert_eq!(
        actual,
        TagArgument { value: TagArgumentValue::Variable(chars("argument")), filters: vec![] }
    );

    let input = chars("'argument'");
    let (_, actual) = TagArgument::parse(&input, 0).unwrap();
    assert_eq!(actual, TagArgument { value: text_arg("argument", '\''), filters: vec![] });

    let input = chars("\"argument\"|my_filter:\"arg\"");
    let (_, actual) = TagArgument::parse(&input, 0).unwrap();
    assert_eq!(
        actual,
        TagArgument {
            value: text_arg("argument", '"'),
            filters: vec![filter("my_filter", Some(text_arg("arg", '"')))],
        }
    );
}

#[test]
fn test_tag_argument_formatting() {
    let arg = TagArgument {
        value: text_arg("argument", '\''),
        filters: vec![filter("f", None), filter("g", None)],
    };
    assert_eq!(arg.formatted(0), "'argument' | |f | |g");

    let arg = TagArgument { value: TagArgumentValue::Variable(chars("my_var")), filters: vec![] };
    assert_eq!(arg.formatted(0), "my_var");
}

#[test]
fn test_template_tag_parsing() {
    let input = chars("{%my_tag%}");
    let (end, actual) = Tag::parse(&input, 0).unwrap();
    assert_eq!(end, input.len());
    assert_eq!(actual.tag_type, chars("my_tag"));
    assert!(actual.arguments.is_empty());

    let input = chars("{% my_tag \"my_arg\" %}");
    let (end, actual) = Tag::parse(&input, 0).unwrap();
    assert_eq!(end, input.len());
    assert_eq!(actual.tag_type, chars("my_tag"));
    assert_eq!(
        actual.arguments,
        vec![TagArgument { value: text_arg("my_arg", '"'), filters: vec![] }]
    );
}

#[test]
fn test_template_tag_formatting() {
    let input = chars("{%my_tag%}");
    let (_, tag) = Tag::parse(&input, 0).unwrap();
    assert_eq!(tag.formatted(0), "{% my_tag %}");

    let input = chars("{% my_tag 'my_arg' %}");
    let (_, tag) = Tag::parse(&input, 0).unwrap();
    assert_eq!(tag.formatted(0), "{% my_tag 'my_arg' %}");
}

#[test]
fn test_variable_tag_parsing() {
    let input = chars("{{ my_var }}");
    let (_, actual) = VariableTag::parse(&input, 0).unwrap();
    assert_eq!(actual.tag_type, chars("my_var"));
    assert!(actual.filters.is_empty());

    let input = chars("{{my_var.property.nested}}");
    let (_, actual) = VariableTag::parse(&input, 0).unwrap();
    assert_eq!(actual.tag_type, chars("my_var.property.nested"));

    let input = chars("{{my_var.0.1}}");
    let (_, actual) = VariableTag::parse(&input, 0).unwrap();
    assert_eq!(actual.tag_type, chars("my_var.0.1"));

    let input = chars("{{ my_var | my_filter : \"arg1\" | my_filter2:\"arg2\" }}");
    let (_, actual) = VariableTag::parse(&input, 0).unwrap();
    assert_eq!(actual.tag_type, chars("my_var"));
    assert_eq!(
        actual.filters,
        vec![
            filter("my_filter", Some(text_arg("arg1", '"'))),
            filter("my_filter2", Some(text_arg("arg2", '"'))),
        ]
    );
}

#[test]
fn test_variable_tag_space_before_bare_word_reads_as_filter() {
    // Inside `{{ }}` the separator before the chain is flexible, so a bare
    // word after the path is taken as a filter even without `|`.
    let input = chars("{{ a b }}");
    let (end, actual) = VariableTag::parse(&input, 0).unwrap();
    assert_eq!(end, input.len());
    assert_eq!(actual.tag_type, chars("a"));
    assert_eq!(actual.filters, vec![filter("b", None)]);
}

#[test]
fn test_template_tag_two_arguments() {
    let input = chars("{% t a b %}");
    let (end, actual) = Tag::parse(&input, 0).unwrap();
    assert_eq!(end, input.len());
    assert_eq!(actual.arguments.len(), 2);
    assert_eq!(actual.formatted(0), "{% t a b %}");
}

#[test]
fn test_template_tag_arguments_need_whitespace_between() {
    // Consecutive arguments must be whitespace-separated.
    let input = chars("{% t a\"x\" %}");
    assert!(Tag::parse(&input, 0).is_err());
}

#[test]
fn test_parse_individual_tag() {
    for case in ["{%my_tag%}", "{% my_tag %}"] {
        let input = chars(case);
        let (end, actual) = parse_individual_tag(&input, 0).unwrap();
        assert_eq!(end, input.len());
        assert_eq!(actual.tag_type, chars("my_tag"));
        assert!(actual.arguments.is_empty());
    }
}

#[test]
fn test_parse_specific_tag() {
    let input = chars("{%my_tag%}");
    let (end, actual) = parse_specific_tag(&input, 0, "my_tag").unwrap();
    assert_eq!(end, input.len());
    assert_eq!(actual.tag_type, chars("my_tag"));
    assert!(actual.arguments.is_empty());

    // The filter chain is consumed but not kept; one trailing argument is
    // taken from the input after the closing delimiter.
    let input = chars("{% if |upper %} x");
    let (end, actual) = parse_specific_tag(&input, 0, "if").unwrap();
    assert_eq!(end, input.len());
    assert_eq!(actual.tag_type, chars("if"));
    assert_eq!(actual.arguments.len(), 1);

    let input = chars("{% if %}");
    assert!(parse_specific_tag(&input, 0, "for").is_err());
}

#[test]
fn test_variable_tag_rejects_bad_paths() {
    for case in ["{{1myvar}}", "{{my-var}}"] {
        let input = chars(case);
        assert!(VariableTag::parse(&input, 0).is_err());
    }
}

#[test]
fn test_single_line_comment_parsing() {
    for (input, expected) in [
        ("{#comment#}", "comment"),
        ("{# comment #}", "comment"),
        ("{#  comment  #}", "comment"),
        ("{#  #comment#  #}", "#comment#"),
        ("{# {% if foo %}bar{% else %} #}", "{% if foo %}bar{% else %}"),
    ] {
        let input = chars(input);
        let (end, actual) = parse_single_line_comment(&input, 0).unwrap();
        assert_eq!(actual, Comment(chars(expected)));
        assert_eq!(end, input.len());
    }
}

#[test]
fn test_single_line_comment_stops_at_first_close() {
    let input = chars("{#myva#}r#}");
    let (end, actual) = parse_single_line_comment(&input, 0).unwrap();
    // The body runs to the first `#}`; the rest of the input is left.
    assert_eq!(actual, Comment(chars("myva")));
    assert_eq!(end, 8);
}

#[test]
fn test_multi_line_comment_parsing() {
    for (input, expected) in [
        ("{%comment%}{%endcomment%}", ""),
        ("{% comment %}{% endcomment %}", ""),
        ("{% comment %}this is a comment{% endcomment %}", "this is a comment"),
        ("{% comment %}this is a comment\n{% endcomment %}", "this is a comment\n"),
        (
            "{% comment %}this is a comment\n{{variable}}{% endcomment %}",
            "this is a comment\n{{variable}}",
        ),
    ] {
        let input = chars(input);
        let (end, actual) = parse_multi_line_comment(&input, 0).unwrap();
        assert_eq!(actual, Comment(chars(expected)));
        assert_eq!(end, input.len());
    }
}

#[test]
fn test_multi_line_comment_may_contain_tag_syntax() {
    let input = chars("{% comment %}before{% block %}after{% endcomment %}");
    let (end, actual) = parse_multi_line_comment(&input, 0).unwrap();
    assert_eq!(actual, Comment(chars("before{% block %}after")));
    assert_eq!(end, input.len());
}

#[test]
fn test_multi_line_comment_unterminated_fails() {
    let input = chars("{% comment %}no end");
    assert!(parse_multi_line_comment(&input, 0).is_err());
}

#[test]
fn test_comment_dispatch() {
    let input = chars("{# short #}");
    let (_, actual) = Comment::parse(&input, 0).unwrap();
    assert_eq!(actual, Comment(chars("short")));

    let input = chars("{% comment %}long{% endcomment %}");
    let (_, actual) = Comment::parse(&input, 0).unwrap();
    assert_eq!(actual, Comment(chars("long")));
}
