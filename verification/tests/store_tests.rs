use rdf::graph::Graph;
use rdf::namespace::{Namespace, NamespaceStore};
use rdf::node::Node;
use rdf::triple::{Triple, TripleStore};
use rdf::uri::Uri;

#[test]
fn it_works() {}

#[test]
fn empty_graph() {
    let graph = Graph::new(None);
    assert_eq!(graph.is_empty(), true);
}

#[test]
fn create_literal_node() {
    let graph = Graph::new(None);
    let literal_node = graph.create_literal_node("literal".to_string());

    assert_eq!(
        literal_node,
        Node::LiteralNode {
            literal: "literal".to_string(),
            data_type: None,
            language: None,
        }
    );
}

#[test]
fn create_multiple_blank_nodes() {
    let mut graph = Graph::new(None);

    let blank_node_0 = graph.create_blank_node();
    let blank_node_1 = graph.create_blank_node();

    assert_eq!(
        blank_node_0,
        Node::BlankNode {
            id: "auto0".to_string(),
        }
    );

    assert_eq!(
        blank_node_1,
        Node::BlankNode {
            id: "auto1".to_string(),
        }
    );
}

#[test]
fn access_literal_node() {
    let node = Node::LiteralNode {
        literal: "abcd".to_string(),
        data_type: None,
        language: None,
    };

    match node {
        Node::LiteralNode {
            literal: lit,
            data_type: _,
            language: _,
        } => assert_eq!(lit, "abcd".to_string()),
        _ => assert!(false),
    }
}

#[test]
fn empty_triple_store() {
    let store = TripleStore::new();

    assert!(store.is_empty());
}

#[test]
fn count_triples_in_triple_store() {
    let mut store = TripleStore::new();

    let subject = Node::LiteralNode {
        literal: "abcd".to_string(),
        data_type: None,
        language: None,
    };

    let predicate = Node::LiteralNode {
        literal: "d".to_string(),
        data_type: None,
        language: None,
    };

    let object = Node::LiteralNode {
        literal: "s".to_string(),
        data_type: None,
        language: None,
    };

    let trip = Triple::new(&subject, &predicate, &object);

    store.add_triple(&trip);

    assert_eq!(store.count(), 1);
}

#[test]
fn fresh_blank_node_ids_are_distinct() {
    let mut graph = Graph::new(None);
    let mut ids: Vec<String> = Vec::new();
    for _ in 0..10 {
        match graph.create_blank_node() {
            Node::BlankNode { id } => ids.push(id),
            _ => assert!(false),
        }
    }
    for i in 0..10 {
        assert_eq!(ids[i], format!("auto{}", i));
        for j in 0..i {
            assert_ne!(ids[i], ids[j]);
        }
    }
}

#[test]
fn create_integer_node_renders_decimal() {
    let graph = Graph::new(None);
    let node = graph.create_integer_node(-123);
    assert_eq!(
        node,
        Node::LiteralNode {
            literal: "-123".to_string(),
            data_type: Some(Uri::new(
                "http://www.w3.org/2001/XMLSchema#integer".to_string()
            )),
            language: None,
        }
    );
}

#[test]
fn create_uri_node_str_resolves_fragment() {
    let graph = Graph::new(Some(&Uri::new(
        "http://www.w3.org/2006/vcard/ns".to_string(),
    )));
    let uri_node = graph.create_uri_node_str("#fn");
    assert_eq!(
        uri_node,
        Node::UriNode {
            uri: Uri::new("http://www.w3.org/2006/vcard/ns#fn".to_string())
        }
    );
}

#[test]
fn filtered_lookups_preserve_insertion_order() {
    let mut graph = Graph::new(None);
    let s = graph.create_blank_node();
    let p1 = graph.create_uri_node(&Uri::new("http://example.org/p1".to_string()));
    let p2 = graph.create_uri_node(&Uri::new("http://example.org/p2".to_string()));
    let o = graph.create_blank_node();

    let t1 = Triple::new(&s, &p1, &o);
    let t2 = Triple::new(&s, &p2, &o);
    graph.add_triple(&t1);
    graph.add_triple(&t2);

    let with_subject = graph.get_triples_with_subject(&s);
    assert_eq!(with_subject.len(), 2);
    assert_eq!(with_subject[0], t1);
    assert_eq!(with_subject[1], t2);

    let with_p1 = graph.get_triples_with_predicate(&p1);
    assert_eq!(with_p1.len(), 1);
    assert_eq!(with_p1[0], t1);

    graph.remove_triple(&t1);
    assert_eq!(graph.count(), 1);
}

#[test]
fn namespace_store_overwrites_prefix() {
    let mut nss = NamespaceStore::new();
    nss.add(&Namespace::new(
        "ex".to_string(),
        Uri::new("http://one.example/".to_string()),
    ));
    nss.add(&Namespace::new(
        "ex".to_string(),
        Uri::new("http://two.example/".to_string()),
    ));
    assert_eq!(nss.len(), 1);
    assert_eq!(
        nss.get_uri_by_prefix("ex").unwrap(),
        &Uri::new("http://two.example/".to_string())
    );
    assert!(nss.get_uri_by_prefix("missing").is_err());
}
