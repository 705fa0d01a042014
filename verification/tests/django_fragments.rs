use djfmt::parser::{
    parse_comment_contents, parse_django_single_line_comment, parse_django_variable,
};

fn chars(s: &str) -> Vec<char> {
    s.chars().collect()
}

#[test]
fn test_valid_parse_django_variable() {
    for (input, expected) in [
        (r#"{{myvar}}"#, "myvar"),
        (r#"{{ myvar }}"#, "myvar"),
        (r#"{{ my_var }}"#, "my_var"),
        (r#"{{ my_var.sub }}"#, "my_var.sub"),
        (r#"{{ my_var.objects.all }}"#, "my_var.objects.all"),
    ] {
        let input = chars(input);
        let (end, actual) = parse_django_variable(&input, 0).unwrap();
        assert_eq!(actual, chars(expected));
        assert_eq!(end, input.len());
    }
}

#[test]
fn test_invalid_parse_django_variable() {
    for input in [r#"{{_myvar}}"#, r#"{{1myvar}}"#, r#"{{my-var}}"#] {
        let input = chars(input);
        assert!(parse_django_variable(&input, 0).is_err());
    }
}

#[test]
fn test_valid_parse_django_single_line_comment() {
    for (input, expected) in [
        (r#"{#myvar#}"#, "myvar"),
        (r#"{# myvar #}"#, "myvar"),
        (r#"{# Hello #Gamers #}"#, "Hello #Gamers"),
        (r#"{#    Hello #Gamers     #}"#, "Hello #Gamers"),
        (r#"{# {% if foo %}bar{% else %} #}"#, r#"{% if foo %}bar{% else %}"#),
    ] {
        let input = chars(input);
        let (end, actual) = parse_django_single_line_comment(&input, 0).unwrap();
        assert_eq!(actual, chars(expected));
        assert_eq!(end, input.len());
    }
}

#[test]
fn test_django_comment_stops_at_first_close() {
    let input = chars(r#"{#myva#}r#}"#);
    let (end, actual) = parse_django_single_line_comment(&input, 0).unwrap();
    assert_eq!(actual, chars("myva"));
    assert_eq!(end, 8);
}

#[test]
fn test_comment_contents_leaves_close_unconsumed() {
    let input = chars("  body  #}");
    let (end, actual) = parse_comment_contents(&input, 0).unwrap();
    assert_eq!(actual, chars("body"));
    assert_eq!(end, 8);
}
