use rdf::error::ErrorType;
use rdf::graph::Graph;
use rdf::namespace::Namespace;
use rdf::node::Node;
use rdf::triple::{Triple, TripleSegment};
use rdf::uri::Uri;
use rdf::writer::n_triples_writer::NTriplesWriter;
use rdf::writer::turtle_writer::TurtleWriter;

#[test]
fn test_turtle_writer() {
    let mut graph = Graph::new(None);

    let subject = graph.create_blank_node();
    let object = graph.create_blank_node();
    let predicate =
        graph.create_uri_node(&Uri::new("http://example.org/show/localName".to_string()));

    let trip = Triple::new(&subject, &predicate, &object);
    graph.add_triple(&trip);

    let result = "_:auto0 <http://example.org/show/localName> _:auto1 .".to_string();

    let writer = TurtleWriter::new(graph.namespaces());
    match writer.write_to_string(&graph) {
        Ok(s) => assert_eq!(result, s),
        Err(_) => assert!(false),
    }
}

#[test]
fn test_turtle_writer_predicate_grouping() {
    let mut graph = Graph::new(None);

    let subject1 = graph.create_blank_node();
    let object1 = graph.create_blank_node();
    let predicate1 =
        graph.create_uri_node(&Uri::new("http://example.org/show/localName".to_string()));

    let subject2 = graph.create_blank_node();
    let object2 = graph.create_blank_node();
    let predicate2 = graph.create_uri_node(&Uri::new("http://example.org/test".to_string()));

    graph.add_triple(&Triple::new(&subject1, &predicate1, &object1));
    graph.add_triple(&Triple::new(&subject2, &predicate1, &object1));
    graph.add_triple(&Triple::new(&subject1, &predicate2, &object2));
    graph.add_triple(&Triple::new(&subject2, &predicate2, &object2));

    let result = "_:auto0 <http://example.org/show/localName> _:auto1 ;
        <http://example.org/test> _:auto3 .
_:auto2 <http://example.org/show/localName> _:auto1 ;
        <http://example.org/test> _:auto3 ."
        .to_string();

    let writer = TurtleWriter::new(graph.namespaces());
    match writer.write_to_string(&graph) {
        Ok(s) => assert_eq!(result, s),
        Err(_) => assert!(false),
    }
}

#[test]
fn test_turtle_writer_object_grouping() {
    let mut graph = Graph::new(None);

    let subject1 = graph.create_blank_node();
    let object1 = graph.create_blank_node();
    let predicate1 =
        graph.create_uri_node(&Uri::new("http://example.org/show/localName".to_string()));

    let subject2 = graph.create_blank_node();
    let object2 = graph.create_blank_node();

    graph.add_triple(&Triple::new(&subject2, &predicate1, &object2));
    graph.add_triple(&Triple::new(&subject1, &predicate1, &object1));
    graph.add_triple(&Triple::new(&subject1, &predicate1, &object2));
    graph.add_triple(&Triple::new(&subject2, &predicate1, &object1));

    let result = "_:auto0 <http://example.org/show/localName> _:auto1 ,
                                            _:auto3 .
_:auto2 <http://example.org/show/localName> _:auto1 ,
                                            _:auto3 ."
        .to_string();

    let writer = TurtleWriter::new(graph.namespaces());
    match writer.write_to_string(&graph) {
        Ok(s) => assert_eq!(result, s),
        Err(_) => assert!(false),
    }
}

#[test]
fn test_turtle_writer_base_uri() {
    let graph = Graph::new(Some(&Uri::new("http://example.org/".to_string())));

    let result = "@base <http://example.org/> .\n".to_string();

    let writer = TurtleWriter::new(graph.namespaces());
    match writer.write_to_string(&graph) {
        Ok(s) => assert_eq!(result, s),
        Err(_) => assert!(false),
    }
}

#[test]
fn test_turtle_writer_prefixes() {
    let mut graph = Graph::new(None);

    graph.add_namespace(&Namespace::new(
        "example".to_string(),
        Uri::new("http://example.org/".to_string()),
    ));

    let result = "@prefix example: <http://example.org/> .\n".to_string();

    let writer = TurtleWriter::new(graph.namespaces());
    match writer.write_to_string(&graph) {
        Ok(s) => assert_eq!(result, s),
        Err(_) => assert!(false),
    }
}

#[test]
fn n_triples_writer_writes_statement_lines() {
    let mut graph = Graph::new(None);
    let subject = graph.create_blank_node();
    let predicate =
        graph.create_uri_node(&Uri::new("http://example.org/show/localName".to_string()));
    let object = graph.create_blank_node();
    let triple = Triple::new(&subject, &predicate, &object);
    graph.add_triple(&triple);

    let writer = NTriplesWriter::new();
    assert_eq!(
        writer.write_to_string(&graph).unwrap(),
        "_:auto0 <http://example.org/show/localName> _:auto1 .\n".to_string()
    );
}

#[test]
fn n_triples_triple_formatting() {
    let writer = NTriplesWriter::new();

    let subject = Node::BlankNode {
        id: "blank".to_string(),
    };
    let object = Node::LiteralNode {
        literal: "literal".to_string(),
        data_type: None,
        language: Some("en".to_string()),
    };
    let predicate = Node::UriNode {
        uri: Uri::new("http://example.org/show/localName".to_string()),
    };
    let triple = Triple::new(&subject, &predicate, &object);

    assert_eq!(
        writer.triple_to_n_triples(&triple).unwrap(),
        "_:blank <http://example.org/show/localName> \"literal\"@en .".to_string()
    );
}

#[test]
fn blank_node_as_predicate_is_refused() {
    let writer = NTriplesWriter::new();
    let node = Node::BlankNode {
        id: "b".to_string(),
    };
    match writer.node_to_n_triples(&node, &TripleSegment::Predicate) {
        Ok(_) => assert!(false),
        Err(e) => assert!(matches!(e.error_type(), ErrorType::InvalidWriterOutput)),
    }
}

#[test]
fn literal_as_predicate_is_refused() {
    let mut graph = Graph::new(None);
    let subject = graph.create_blank_node();
    let predicate = graph.create_literal_node("p".to_string());
    let object = graph.create_blank_node();
    graph.add_triple(&Triple::new(&subject, &predicate, &object));

    let writer = NTriplesWriter::new();
    match writer.write_to_string(&graph) {
        Ok(_) => assert!(false),
        Err(e) => assert!(matches!(e.error_type(), ErrorType::InvalidWriterOutput)),
    }

    let turtle_writer = TurtleWriter::new(graph.namespaces());
    match turtle_writer.write_to_string(&graph) {
        Ok(_) => assert!(false),
        Err(e) => assert!(matches!(e.error_type(), ErrorType::InvalidWriterOutput)),
    }
}

#[test]
fn literal_as_subject_is_refused() {
    let writer = NTriplesWriter::new();
    let node = Node::LiteralNode {
        literal: "s".to_string(),
        data_type: None,
        language: None,
    };
    match writer.node_to_n_triples(&node, &TripleSegment::Subject) {
        Ok(_) => assert!(false),
        Err(e) => assert!(matches!(e.error_type(), ErrorType::InvalidWriterOutput)),
    }
}

#[test]
fn literal_with_datatype_and_language_is_refused() {
    let writer = NTriplesWriter::new();
    let node = Node::LiteralNode {
        literal: "x".to_string(),
        data_type: Some(Uri::new("http://example.org/dt".to_string())),
        language: Some("en".to_string()),
    };
    match writer.node_to_n_triples(&node, &TripleSegment::Object) {
        Ok(_) => assert!(false),
        Err(e) => assert!(matches!(e.error_type(), ErrorType::InvalidWriterOutput)),
    }
}
