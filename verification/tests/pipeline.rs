use djfmt::{format_document, ParseError};

fn chars(s: &str) -> Vec<char> {
    s.chars().collect()
}

fn format(s: &str) -> String {
    format_document(&chars(s)).unwrap()
}

#[test]
fn test_pipeline_flat_element() {
    assert_eq!(format("<div width='40'></div>"), "<div width=\"40\"></div>\n");
}

#[test]
fn test_pipeline_void_element() {
    assert_eq!(format("<img>"), "<img />\n");
}

#[test]
fn test_pipeline_template_then_html() {
    assert_eq!(format("hello {{my_var}}"), "hello {{ my_var }}\n");
}

#[test]
fn test_pipeline_nested_document() {
    assert_eq!(
        format("<div id='a'><span>hi</span></div>"),
        "<div id=\"a\">\n\t<span>\n\t\thi\n\t</span>\n</div>\n"
    );
}

#[test]
fn test_pipeline_structural_mismatch() {
    assert_eq!(format_document(&chars("<div></span>")).unwrap_err(), ParseError::StructuralMismatch);
}

#[test]
fn test_pipeline_lexical_failure() {
    // An unterminated opening tag parses as neither an element nor text.
    assert_eq!(format_document(&chars("<div")).unwrap_err(), ParseError::Lexical);
}

#[test]
fn test_round_trip_fixed_point() {
    // Formatting a formatted document changes nothing further.
    for fixture in [
        "<div width='40'></div>",
        "<img>",
        "<div id='a' class='b c' width='40'></div>",
        "{{ my_var|my_filter:\"arg1\" }}",
        "hello {{x}}",
        "<input type='text' value='y'>",
    ] {
        let once = format(fixture);
        let twice = format(&once);
        assert_eq!(once, twice, "fixture {:?} did not reach a fixed point", fixture);
    }
}
