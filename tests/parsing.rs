use glyph_parser::ast::{Element, Value};
use glyph_parser::error::{ErrorKind, Expected, ParseError};
use glyph_parser::parser::{parse_document, parse_element, parse_value, parser};

fn text(v: &Value) -> (&'static str, String) {
    match v {
        Value::String(t) => ("string", t.clone()),
        Value::Number(t) => ("number", t.clone()),
        Value::Percentage(t) => ("percentage", t.clone()),
        Value::Identifier(t) => ("identifier", t.clone()),
        Value::DString(t) => ("dstring", t.clone()),
    }
}

fn err(kind: ErrorKind, offset: usize, expected: Expected) -> ParseError {
    ParseError { kind, offset, expected }
}

fn names(e: &Element) -> (Vec<String>, Vec<String>) {
    (
        e.properties.iter().map(|p| p.name.clone()).collect(),
        e.children.iter().map(|c| c.name.clone()).collect(),
    )
}

#[test]
fn integer_is_number() {
    let (v, end) = parse_value("42").unwrap();
    assert_eq!(text(&v), ("number", "42".to_string()));
    assert_eq!(end, 2);
}

#[test]
fn decimal_is_number_with_exact_float() {
    let (v, end) = parse_value("3.25").unwrap();
    assert_eq!(text(&v), ("number", "3.25".to_string()));
    assert_eq!(end, 4);
    let (_, t) = text(&v);
    assert_eq!(t.parse::<f64>().unwrap(), "3.25".parse::<f64>().unwrap());
    assert_eq!(t.parse::<f64>().unwrap(), 3.25);
}

#[test]
fn percent_suffix_is_percentage() {
    let (v, end) = parse_value("50%").unwrap();
    assert_eq!(text(&v), ("percentage", "50".to_string()));
    assert_eq!(end, 3);
    let (v, _) = parse_value("0.5%").unwrap();
    assert_eq!(text(&v), ("percentage", "0.5".to_string()));
}

#[test]
fn percent_after_space_is_not_part_of_number() {
    let (v, end) = parse_value("50 %").unwrap();
    assert_eq!(text(&v), ("number", "50".to_string()));
    assert_eq!(end, 3);
}

#[test]
fn leading_zero_ends_numeral() {
    let (v, end) = parse_value("05").unwrap();
    assert_eq!(text(&v), ("number", "0".to_string()));
    assert_eq!(end, 1);
}

#[test]
fn dot_without_digits_is_not_fraction() {
    let (v, end) = parse_value("7.x").unwrap();
    assert_eq!(text(&v), ("number", "7".to_string()));
    assert_eq!(end, 1);
}

#[test]
fn hyphenated_identifier_round_trips() {
    let (v, end) = parse_value("left-to-right").unwrap();
    assert_eq!(text(&v), ("identifier", "left-to-right".to_string()));
    assert_eq!(end, 13);
    let (v, _) = parse_value("true").unwrap();
    assert_eq!(text(&v), ("identifier", "true".to_string()));
}

#[test]
fn trailing_hyphen_is_not_joined() {
    let (v, end) = parse_value("free- form").unwrap();
    assert_eq!(text(&v), ("identifier", "free".to_string()));
    assert_eq!(end, 4);
}

#[test]
fn quoted_string_keeps_text() {
    let (v, end) = parse_value("  \"Hello, world\"  ").unwrap();
    assert_eq!(text(&v), ("string", "Hello, world".to_string()));
    assert_eq!(end, 18);
}

#[test]
fn d_string_keeps_raw_text() {
    let (v, _) = parse_value("d\"Hi {name}\nthere\"").unwrap();
    assert_eq!(text(&v), ("dstring", "Hi {name}\nthere".to_string()));
    let (v, _) = parse_value("d").unwrap();
    assert_eq!(text(&v), ("identifier", "d".to_string()));
}

#[test]
fn unterminated_string_is_lexical() {
    let e = parse_value("\"abc").err().unwrap();
    assert_eq!(e, err(ErrorKind::Lexical, 4, Expected::Quote));
}

#[test]
fn missing_value_is_lexical() {
    let e = parse_value("  = 1").err().unwrap();
    assert_eq!(e, err(ErrorKind::Lexical, 2, Expected::Value));
}

#[test]
fn partition_keeps_relative_order() {
    let src = "@Panel p { a = 1 @C c1 { } b = x @C c2 ( ) c = \"s\" }";
    let (e, end) = parse_element(src).unwrap();
    assert_eq!(end, src.chars().count());
    let (props, children) = names(&e);
    assert_eq!(props, vec!["a", "b", "c"]);
    assert_eq!(children, vec!["c1", "c2"]);
    assert_eq!(props.len() + children.len(), 5);
}

#[test]
fn matching_braces_parse() {
    let (e, _) = parse_element("@Kind n { a=1 }").unwrap();
    assert_eq!(e.kind, "Kind");
    assert_eq!(e.name, "n");
    assert_eq!(e.properties.len(), 1);
    assert_eq!(text(&e.properties[0].value), ("number", "1".to_string()));
}

#[test]
fn mismatched_closer_is_structural() {
    let e = parse_element("@Kind n { a=1 )").err().unwrap();
    assert_eq!(e, err(ErrorKind::Structure, 14, Expected::CloseDelimiter));
}

#[test]
fn end_to_end_ratatui_form() {
    let src = "@language ratatui @Form main_form { title = \"Hello\" @Panel left_panel { layout = top-to-bottom width = 50% } }";
    let d = parser(src).unwrap();
    assert_eq!(d.language.name, "language");
    assert_eq!(d.language.value, "ratatui");
    assert!(d.language.url.is_none());
    let root = &d.root;
    assert_eq!(root.kind, "Form");
    assert_eq!(root.name, "main_form");
    assert_eq!(root.properties.len(), 1);
    assert_eq!(root.properties[0].name, "title");
    assert_eq!(text(&root.properties[0].value), ("string", "Hello".to_string()));
    assert_eq!(root.children.len(), 1);
    let panel = &root.children[0];
    assert_eq!(panel.kind, "Panel");
    assert_eq!(panel.name, "left_panel");
    assert_eq!(panel.properties.len(), 2);
    assert_eq!(panel.properties[0].name, "layout");
    assert_eq!(text(&panel.properties[0].value), ("identifier", "top-to-bottom".to_string()));
    assert_eq!(panel.properties[1].name, "width");
    assert_eq!(text(&panel.properties[1].value), ("percentage", "50".to_string()));
    assert_eq!(text(&panel.properties[1].value).1.parse::<f64>().unwrap(), 50.0);
    assert!(panel.children.is_empty());
}

#[test]
fn end_to_end_url_directive() {
    let d = parser("@language custom(\"https://example.com/schema\") @Panel p ( )").unwrap();
    assert_eq!(d.language.name, "language");
    assert_eq!(d.language.value, "custom");
    assert_eq!(d.language.url.as_deref(), Some("https://example.com/schema"));
    assert_eq!(d.root.kind, "Panel");
    assert_eq!(d.root.name, "p");
    assert!(d.root.properties.is_empty());
    assert!(d.root.children.is_empty());
}

#[test]
fn missing_value_after_equals() {
    let e = parse_element("@Form f { title = }").err().unwrap();
    assert_eq!(e, err(ErrorKind::Composition, 18, Expected::Value));
    // Read as a whole document, `@Form f` is the directive and no element follows.
    let e = parser("@Form f { title = }").err().unwrap();
    assert_eq!(e, err(ErrorKind::Structure, 8, Expected::At));
}

#[test]
fn empty_input_needs_directive() {
    assert_eq!(parser("").err().unwrap(), err(ErrorKind::Structure, 0, Expected::At));
    assert_eq!(parser("   ").err().unwrap(), err(ErrorKind::Structure, 3, Expected::At));
}

#[test]
fn directive_needs_two_identifiers() {
    let e = parser("@language @Form f {}").err().unwrap();
    assert_eq!(e, err(ErrorKind::Structure, 10, Expected::Identifier));
}

#[test]
fn url_must_be_quoted_and_closed() {
    let e = parser("@l c(x) @P p {}").err().unwrap();
    assert_eq!(e, err(ErrorKind::Lexical, 5, Expected::Quote));
    let e = parser("@l c(\"u\" @P p {}").err().unwrap();
    assert_eq!(e, err(ErrorKind::Structure, 8, Expected::CloseDelimiter));
    let e = parser("@l c(\"u").err().unwrap();
    assert_eq!(e, err(ErrorKind::Lexical, 7, Expected::Quote));
}

#[test]
fn element_needs_delimiter() {
    let e = parser("@l r @P p x").err().unwrap();
    assert_eq!(e, err(ErrorKind::Structure, 10, Expected::OpenDelimiter));
}

#[test]
fn unterminated_body() {
    let e = parser("@l r @P p {").err().unwrap();
    assert_eq!(e, err(ErrorKind::Structure, 11, Expected::CloseDelimiter));
}

#[test]
fn property_needs_equals() {
    let e = parser("@l r @P p { a 1 }").err().unwrap();
    assert_eq!(e, err(ErrorKind::Composition, 14, Expected::Equals));
}

#[test]
fn nested_failure_keeps_innermost_offset() {
    let e = parser("@l r @P p { @Q q { x = \"open } }").err().unwrap();
    assert_eq!(e, err(ErrorKind::Composition, 32, Expected::Quote));
}

#[test]
fn trailing_content_is_rejected_by_whole_parse() {
    let src = "@l r @P p { } extra";
    let e = parser(src).err().unwrap();
    assert_eq!(e, err(ErrorKind::Structure, 14, Expected::EndOfInput));
    let (d, end) = parse_document(src).unwrap();
    assert_eq!(end, 14);
    assert_eq!(d.root.name, "p");
}

#[test]
fn unicode_identifiers_and_whitespace() {
    let d = parser("@language ratatui\n\t@Form größe {\r\n  titel = \"Grüße\"\n}\n").unwrap();
    assert_eq!(d.root.name, "größe");
    assert_eq!(d.root.properties[0].name, "titel");
    assert_eq!(text(&d.root.properties[0].value), ("string", "Grüße".to_string()));
}

#[test]
fn expectation_is_described() {
    assert_eq!(Expected::Equals.describe(), "`=`");
    assert_eq!(Expected::EndOfInput.describe(), "end of input");
}
