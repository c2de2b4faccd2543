use xml_parser::{parse_xml, Grammar, ParseError};

const FIVE_NAMES: &str = "<?xml version=\"1.0\"?>\n<catalog>\n  <part id=\"1\">\n    <name>rubber</name>\n    <name>metal</name>\n  </part>\n  <part>\n    <name>plastic</name>\n    <meta><name>timestamp</name></meta>\n  </part>\n  <name>timestamp</name>\n</catalog>\n";

#[test]
fn all_nodes_by_tag_keep_document_order() {
    let tree = parse_xml(FIVE_NAMES).unwrap();
    let names: Vec<String> = tree
        .get_nodes("name")
        .iter()
        .map(|n| n.content.clone())
        .collect();
    assert_eq!(names, vec!["rubber", "metal", "plastic", "timestamp", "timestamp"]);
}

#[test]
fn all_nodes_by_tag_include_the_root_and_empty_nodes() {
    let tree = parse_xml("<name><name/><x><name>bio</name></x></name>").unwrap();
    let names: Vec<String> = tree
        .get_nodes("name")
        .iter()
        .map(|n| n.content.clone())
        .collect();
    assert_eq!(names, vec!["", "", "bio"]);
    assert!(tree.get_nodes("missing").is_empty());
}

#[test]
fn first_content_skips_empty_matches() {
    let tree = parse_xml("<r><item/><a><item>Hello there</item></a><item>later</item></r>").unwrap();
    assert_eq!(tree.get_contents_of("item"), Some("Hello there"));
    assert_eq!(tree.get_contents_of("r"), None);
    assert_eq!(tree.get_contents_of("nothing"), None);
}

#[test]
fn first_content_prefers_the_node_itself() {
    let tree = parse_xml("<a>top<a>inner</a></a>").unwrap();
    assert_eq!(tree.get_contents_of("a"), Some("top"));
}

#[test]
fn renders_canonical_tree() {
    let tree = parse_xml("<root k=\"v\" n=\"2\">text<child>in</child><leaf/></root>").unwrap();
    let expected = "<root k=\"v\" n=\"2\">\n  text\n      <child>\n        in\n      </child>\n      <leaf>\n      </leaf>\n</root>\n";
    assert_eq!(tree.render(), expected);
    let again = parse_xml("<root k=\"v\"  n=\"2\" >  text <child> in </child><leaf /></root>").unwrap();
    assert_eq!(again.render(), expected);
}

#[test]
fn display_node_appends_at_indent() {
    let tree = parse_xml("<a>x</a>").unwrap();
    let mut out = String::from(">");
    tree.display_node(&mut out, 1);
    assert_eq!(out, ">  <a>\n    x\n  </a>\n");
}

#[test]
fn comment_node_has_reserved_name() {
    let tree = parse_xml("<root><!-- note --></root>").unwrap();
    assert_eq!(tree.children.len(), 1);
    assert_eq!(tree.children[0].content, "<!-- note -->");
    assert_eq!(tree.children[0].name, "#comment");
    assert!(tree.children[0].attributes.is_empty());
    assert!(tree.children[0].children.is_empty());
}

#[test]
fn mixed_content_is_concatenated() {
    let tree = parse_xml("<r> a <x/> b <!--c--> c </r>").unwrap();
    assert_eq!(tree.content, "abc");
    assert_eq!(tree.children.len(), 2);
}

#[test]
fn content_trims_unicode_whitespace() {
    let tree = parse_xml("<r>\u{a0}\u{3000} mid dle \u{2003}</r>").unwrap();
    assert_eq!(tree.content, "mid dle");
}

#[test]
fn attributes_keep_order_and_duplicates() {
    let tree = parse_xml("<r a=\"1\" a = \"2\" b=\"\"/>").unwrap();
    assert_eq!(tree.attributes.len(), 3);
    assert_eq!(tree.attributes[0], ("a".to_string(), "1".to_string()));
    assert_eq!(tree.attributes[1], ("a".to_string(), "2".to_string()));
    assert_eq!(tree.attributes[2], ("b".to_string(), "".to_string()));
}

#[test]
fn mismatch_is_reported_for_the_first_closing_tag() {
    match parse_xml("<x><a>1</b><c></d></y>").unwrap_err() {
        ParseError::TagMismatch { opening, ending } => {
            assert_eq!(opening, "a");
            assert_eq!(ending, "b");
        }
        _ => panic!("expected TagMismatch"),
    }
    match parse_xml("<x>text</y>").unwrap_err() {
        ParseError::TagMismatch { opening, ending } => {
            assert_eq!(opening, "x");
            assert_eq!(ending, "y");
        }
        _ => panic!("expected TagMismatch"),
    }
}

#[test]
fn syntax_errors_win_over_mismatches() {
    assert!(matches!(parse_xml("<a>1</b> trailing").unwrap_err(), ParseError::SyntaxError));
    assert!(matches!(parse_xml("<a><b></a>").unwrap_err(), ParseError::SyntaxError));
}

#[test]
fn rejects_malformed_documents() {
    for bad in [
        "   ",
        "text",
        "<a>",
        "<a></a><b></b>",
        "<?xml <a></a>",
        "<a x=\"1\"y=\"2\"></a>",
        "<a x=1></a>",
        "<!-- open <a></a>",
        "< a></a>",
        "<a></ >",
    ] {
        assert!(matches!(parse_xml(bad).unwrap_err(), ParseError::SyntaxError), "{}", bad);
        assert!(!Grammar::matches(bad), "{}", bad);
    }
}

#[test]
fn accepts_surrounding_whitespace_and_declaration() {
    let tree = parse_xml("  <?xml version=\"1.0\"?>\n <a></a >\n").unwrap();
    assert_eq!(tree.name, "a");
    assert!(Grammar::matches("<?xml?><a/>"));
    assert!(Grammar::matches("<a>1</b>"));
}

#[test]
fn top_level_comment_is_the_root() {
    let tree = parse_xml("<!--only-->").unwrap();
    assert_eq!(tree.name, "#comment");
    assert_eq!(tree.content, "<!--only-->");
}

#[test]
fn non_ascii_text_is_kept() {
    let tree = parse_xml("<t>héllo → wörld</t>").unwrap();
    assert_eq!(tree.content, "héllo → wörld");
}
