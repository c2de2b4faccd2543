use xml_parser::{parse_xml, ParseError, XmlNode};

fn parse_ok(input: &str) -> XmlNode {
    parse_xml(input).expect("expected valid XML")
}

fn parse_err(input: &str) -> ParseError {
    parse_xml(input).unwrap_err()
}

#[test]
fn parses_empty_element() {
    let xml = "<root></root>";
    let result = parse_ok(xml);

    assert_eq!(result.name, "root");
    assert_eq!(result.content, "");
    assert!(result.children.is_empty());
}

#[test]
fn parses_simple_element() {
    let xml = "<root>hello</root>";
    let result = parse_ok(xml);

    assert_eq!(result.name, "root");
    assert_eq!(result.content, "hello");
    assert!(result.children.is_empty());
}

#[test]
fn ignores_whitespace_in_content() {
    let xml = "<root>   s p a c e d   </root>";
    let result = parse_ok(xml);

    assert_eq!(result.content, "s p a c e d");
}

#[test]
fn parses_nested_elements() {
    let xml = "<root><a>1</a><b>2</b></root>";
    let result = parse_ok(xml);

    assert_eq!(result.name, "root");
    assert_eq!(result.children.len(), 2);
    assert_eq!(result.children[0].name, "a");
    assert_eq!(result.children[0].content, "1");
    assert_eq!(result.children[1].name, "b");
    assert_eq!(result.children[1].content, "2");
}

#[test]
fn parses_nested_elements_with_content() {
    let xml = "<root>Content<a>1</a><b>2</b></root>";
    let result = parse_ok(xml);
    assert_eq!(result.name, "root");
    assert_eq!(result.children.len(), 2);
    assert_eq!(result.content, "Content");
    assert_eq!(result.children[0].name, "a");
    assert_eq!(result.children[0].content, "1");
    assert_eq!(result.children[1].name, "b");
    assert_eq!(result.children[1].content, "2");
}

#[test]
fn detects_empty_input() {
    let xml = "";
    match parse_err(xml) {
        ParseError::SyntaxError => {}
        _ => panic!("expected SyntaxError"),
    }
}

#[test]
fn detects_tag_mismatch() {
    let xml = "<root><a>1</b></root>";
    match parse_err(xml) {
        ParseError::TagMismatch { opening, ending } => {
            assert_eq!(opening, "a");
            assert_eq!(ending, "b");
        }
        _ => panic!("expected TagMismatch error"),
    }
}

#[test]
fn detects_unexpected_structure() {
    let xml = "<root><a></root>";
    match parse_err(xml) {
        ParseError::SyntaxError => {}
        _ => panic!("expected SyntaxError"),
    }
}

#[test]
fn parses_comment() {
    let xml = "<root><!-- this is a comment --></root>";
    let node = parse_ok(xml);

    assert_eq!(node.name, "root");
    assert_eq!(node.children[0].content, "<!-- this is a comment -->");
    assert_eq!(node.content, "");
}

#[test]
fn parses_declaration() {
    let xml = r#"<?xml ?><root></root>"#;
    let node = parse_ok(xml);

    assert_eq!(node.name, "root");
    assert!(node.children.is_empty());
}

#[test]
fn parses_empty_element_tag() {
    let xml = "<root><empty /></root>";
    let node = parse_ok(xml);

    assert_eq!(node.name, "root");
    assert_eq!(node.children.len(), 1);
    assert_eq!(node.children[0].name, "empty");
    assert!(node.children[0].children.is_empty());
    assert_eq!(node.children[0].content, "");
}

#[test]
fn parses_element_with_attribute() {
    let xml = r#"<root><a attr="value"></a></root>"#;
    let node = parse_ok(xml);

    assert_eq!(node.name, "root");
    assert_eq!(node.children[0].attributes[0].0, "attr");
    assert_eq!(node.content, "");
}

#[test]
fn parses_element_with_attributes() {
    let xml = r#"<root><a attr="value" id="2"></a></root>"#;
    let node = parse_ok(xml);

    assert_eq!(node.name, "root");
    assert_eq!(node.children[0].attributes[0].0, "attr");
    assert_eq!(node.children[0].attributes[1].1, "2");
    assert_eq!(node.content, "");
}
