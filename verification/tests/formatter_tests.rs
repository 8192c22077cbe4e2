use rdf::namespace::{Namespace, NamespaceStore};
use rdf::node::Node;
use rdf::specs::turtle_specs::TurtleSpecs;
use rdf::specs::xml_specs::XmlDataTypes;
use rdf::uri::Uri;
use rdf::writer::n_triples_formatter::NTriplesFormatter;
use rdf::writer::turtle_formatter::TurtleFormatter;

#[test]
fn test_n_triples_blank_node_formatting() {
    let formatter = NTriplesFormatter::new();
    let node = Node::BlankNode {
        id: "auto0".to_string(),
    };

    assert_eq!(formatter.format_node(&node), "_:auto0".to_string());
}

#[test]
fn test_n_triples_uri_node_formatting() {
    let formatter = NTriplesFormatter::new();
    let node = Node::UriNode {
        uri: Uri::new("http://example.org/show/localName".to_string()),
    };

    assert_eq!(
        formatter.format_node(&node),
        "<http://example.org/show/localName>".to_string()
    );
}

#[test]
fn test_n_triples_plain_literal_node_formatting() {
    let formatter = NTriplesFormatter::new();
    let node = Node::LiteralNode {
        literal: "literal".to_string(),
        data_type: None,
        language: None,
    };

    assert_eq!(formatter.format_node(&node), "\"literal\"".to_string());
}

#[test]
fn test_n_triples_literal_node_with_datatype_formatting() {
    let formatter = NTriplesFormatter::new();
    let node = Node::LiteralNode {
        literal: "literal".to_string(),
        data_type: Some(Uri::new("http://example.org/show/localName".to_string())),
        language: None,
    };

    assert_eq!(
        formatter.format_node(&node),
        "\"literal\"^^<http://example.org/show/localName>".to_string()
    );
}

#[test]
fn test_n_triples_escaped_literal_node_formatting() {
    let formatter = NTriplesFormatter::new();
    let node = Node::LiteralNode {
        literal: "literal ' \\ \" ".to_string(),
        data_type: None,
        language: None,
    };

    assert_eq!(
        formatter.format_node(&node),
        "\"literal \\' \\\\ \\\" \"".to_string()
    );
}

#[test]
fn test_n_triples_literal_node_with_language_formatting() {
    let formatter = NTriplesFormatter::new();
    let node = Node::LiteralNode {
        literal: "literal".to_string(),
        data_type: None,
        language: Some("en".to_string()),
    };

    assert_eq!(formatter.format_node(&node), "\"literal\"@en".to_string());
}

#[test]
fn test_turtle_blank_node_formatting() {
    let nss = NamespaceStore::new();
    let formatter = TurtleFormatter::new(&nss);
    let node = Node::BlankNode {
        id: "auto0".to_string(),
    };

    assert_eq!(formatter.format_node(&node), "_:auto0".to_string());
}

#[test]
fn test_turtle_uri_node_formatting() {
    let nss = NamespaceStore::new();
    let formatter = TurtleFormatter::new(&nss);
    let node = Node::UriNode {
        uri: Uri::new("http://example.org/show/localName".to_string()),
    };

    assert_eq!(
        formatter.format_node(&node),
        "<http://example.org/show/localName>".to_string()
    );
}

#[test]
fn test_turtle_qname_node_formatting() {
    let mut nss = NamespaceStore::new();
    nss.add(&Namespace::new(
        "example".to_string(),
        Uri::new("http://example.org/".to_string()),
    ));

    let formatter = TurtleFormatter::new(&nss);
    let node = Node::UriNode {
        uri: Uri::new("http://example.org/show/localName".to_string()),
    };

    assert_eq!(
        formatter.format_node(&node),
        "example:show:localName".to_string()
    );
}

#[test]
fn test_turtle_plain_literal_node_formatting() {
    let nss = NamespaceStore::new();
    let formatter = TurtleFormatter::new(&nss);
    let node = Node::LiteralNode {
        literal: "literal".to_string(),
        data_type: None,
        language: None,
    };

    assert_eq!(formatter.format_node(&node), "\"literal\"".to_string());
}

#[test]
fn test_turtle_escaped_literal_node_formatting() {
    let nss = NamespaceStore::new();
    let formatter = TurtleFormatter::new(&nss);
    let node = Node::LiteralNode {
        literal: "literal ' \" ".to_string(),
        data_type: None,
        language: None,
    };

    assert_eq!(
        formatter.format_node(&node),
        "\"literal \' \" \"".to_string()
    );
}

#[test]
fn test_turtle_literal_node_with_datatype_formatting() {
    let nss = NamespaceStore::new();
    let formatter = TurtleFormatter::new(&nss);
    let node = Node::LiteralNode {
        literal: "literal".to_string(),
        data_type: Some(Uri::new("http://example.org/show/localName".to_string())),
        language: None,
    };

    assert_eq!(
        formatter.format_node(&node),
        "\"literal\"^^<http://example.org/show/localName>".to_string()
    );
}

#[test]
fn test_turtle_literal_node_with_language_formatting() {
    let nss = NamespaceStore::new();
    let formatter = TurtleFormatter::new(&nss);
    let node = Node::LiteralNode {
        literal: "literal".to_string(),
        data_type: None,
        language: Some("en".to_string()),
    };

    assert_eq!(formatter.format_node(&node), "\"literal\"@en".to_string());
}

#[test]
fn test_turtle_boolean_literal_node_formatting() {
    let nss = NamespaceStore::new();
    let formatter = TurtleFormatter::new(&nss);
    let node = Node::LiteralNode {
        literal: "true".to_string(),
        data_type: Some(XmlDataTypes::Boolean.to_uri()),
        language: None,
    };

    assert_eq!(
        formatter.format_node(&node),
        "true^^<http://www.w3.org/2001/XMLSchema#boolean>".to_string()
    );
}

#[test]
fn test_turtle_integer_literal_node_formatting() {
    let nss = NamespaceStore::new();
    let formatter = TurtleFormatter::new(&nss);
    let node = Node::LiteralNode {
        literal: "123".to_string(),
        data_type: Some(XmlDataTypes::Integer.to_uri()),
        language: None,
    };

    assert_eq!(
        formatter.format_node(&node),
        "123^^<http://www.w3.org/2001/XMLSchema#integer>".to_string()
    );
}

#[test]
fn test_turtle_decimal_literal_node_formatting() {
    let nss = NamespaceStore::new();
    let formatter = TurtleFormatter::new(&nss);
    let node = Node::LiteralNode {
        literal: "123.123".to_string(),
        data_type: Some(XmlDataTypes::Decimal.to_uri()),
        language: None,
    };

    assert_eq!(
        formatter.format_node(&node),
        "123.123^^<http://www.w3.org/2001/XMLSchema#decimal>".to_string()
    );
}

#[test]
fn integer_literal_grammar() {
    assert!(TurtleSpecs::is_integer_literal("3"));
    assert!(TurtleSpecs::is_integer_literal("+42"));
    assert!(TurtleSpecs::is_integer_literal("-42"));
    assert!(TurtleSpecs::is_integer_literal("9223372036854775807"));
    assert!(!TurtleSpecs::is_integer_literal("9223372036854775808"));
    assert!(TurtleSpecs::is_integer_literal("-9223372036854775808"));
    assert!(!TurtleSpecs::is_integer_literal("3.0"));
    assert!(!TurtleSpecs::is_integer_literal(""));
    assert!(!TurtleSpecs::is_integer_literal("a"));
}

#[test]
fn double_literal_grammar() {
    assert!(TurtleSpecs::is_double_literal("3.0"));
    assert!(TurtleSpecs::is_double_literal("3e10"));
    assert!(TurtleSpecs::is_double_literal("-.123"));
    assert!(TurtleSpecs::is_double_literal(".123"));
    assert!(TurtleSpecs::is_double_literal("4"));
    assert!(TurtleSpecs::is_double_literal("1.2E+3"));
    assert!(!TurtleSpecs::is_double_literal("a"));
    assert!(!TurtleSpecs::is_double_literal("."));
    assert!(!TurtleSpecs::is_double_literal("1.2e"));
    assert!(!TurtleSpecs::is_double_literal(""));
}

#[test]
fn boolean_literal_grammar() {
    assert!(TurtleSpecs::is_boolean_literal("true"));
    assert!(TurtleSpecs::is_boolean_literal("false"));
    assert!(!TurtleSpecs::is_boolean_literal("1"));
    assert!(!TurtleSpecs::is_boolean_literal("True"));
}

#[test]
fn plain_literal_check() {
    assert!(TurtleSpecs::is_plain_literal(
        "3.0",
        &Some(XmlDataTypes::Decimal.to_uri())
    ));
    assert!(TurtleSpecs::is_plain_literal(
        "true",
        &Some(XmlDataTypes::Boolean.to_uri())
    ));
    assert!(TurtleSpecs::is_plain_literal(
        "3e10",
        &Some(XmlDataTypes::Decimal.to_uri())
    ));
    assert_eq!(
        TurtleSpecs::is_plain_literal("a", &Some(XmlDataTypes::Decimal.to_uri())),
        false
    );
    assert_eq!(TurtleSpecs::is_plain_literal("3", &None), false);
}
