use rdf::error::ErrorType;
use rdf::node::Node;
use rdf::reader::input_reader::{Delim, InputReader};
use rdf::reader::n_triples_parser::NTriplesParser;
use rdf::reader::sparql_parser::SparqlParser;
use rdf::reader::turtle_parser::TurtleParser;
use rdf::sparql::pattern::{NodePattern, Pattern};
use rdf::sparql::query::SparqlQueryType;
use rdf::uri::Uri;
use rdf::writer::turtle_writer::TurtleWriter;

#[test]
fn read_n_triples_from_string() {
    let input = "<http://www.w3.org/2001/sw/RDFCore/ntriples/> <http://www.w3.org/1999/02/22-rdf-syntax-ns#type> <http://xmlns.com/foaf/0.1/Document> .
                 <http://www.w3.org/2001/sw/RDFCore/ntriples/> <http://purl.org/dc/terms/title> \"N-Triples\"@en-US .
                 <http://www.w3.org/2001/sw/RDFCore/ntriples/> <http://xmlns.com/foaf/0.1/maker> _:art .
                 _:art <http://xmlns.com/foaf/0.1/name> \"Art Barstow\" .";

    let mut reader = NTriplesParser::from_string(input);

    match reader.decode() {
        Ok(graph) => assert_eq!(graph.count(), 4),
        Err(e) => {
            println!("Err {}", e.message());
            assert!(false)
        }
    }
}

#[test]
fn test_read_n_triples_as_turtle_from_string() {
    let input = "<http://www.w3.org/2001/sw/RDFCore/ntriples/> <http://www.w3.org/1999/02/22-rdf-syntax-ns#type> <http://xmlns.com/foaf/0.1/Document> .
                 <http://www.w3.org/2001/sw/RDFCore/ntriples/> <http://purl.org/dc/terms/title> \"N-Triples\"@en-US .
                 <http://www.w3.org/2001/sw/RDFCore/ntriples/> <http://xmlns.com/foaf/0.1/maker> _:art .
                 _:art <http://xmlns.com/foaf/0.1/name> \"Art Barstow\" .";

    let mut reader = TurtleParser::from_string(input);

    match reader.decode() {
        Ok(graph) => assert_eq!(graph.count(), 4),
        Err(e) => {
            println!("Err {}", e.message());
            assert!(false)
        }
    }
}

#[test]
fn test_read_uncompressed_turtle_from_string() {
    let input = "@base <http://example.org/> .
                 @prefix rdf: <http://www.w3.org/1999/02/22-rdf-syntax-ns#> .
                 @prefix foaf: <http://xmlns.com/foaf/0.1/> .

                 <http://www.w3.org/2001/sw/RDFCore/ntriples/> rdf:type foaf:Document .
                 <http://www.w3.org/2001/sw/RDFCore/ntriples/> <http://purl.org/dc/terms/title> \"N-Triples\"@en-US .
                 <http://www.w3.org/2001/sw/RDFCore/ntriples/> foaf:maker _:art .
                 _:art foaf:name \"Art Barstow\" .";

    let mut reader = TurtleParser::from_string(input);

    match reader.decode() {
        Ok(graph) => {
            assert_eq!(graph.count(), 4);
            assert_eq!(graph.namespaces().len(), 2);
            assert_eq!(
                graph.base_uri(),
                &Some(Uri::new("http://example.org/".to_string()))
            )
        }
        Err(e) => {
            println!("Err {}", e.message());
            assert!(false)
        }
    }
}

#[test]
fn test_read_compressed_turtle_from_string() {
    let input = "@base <http://example.org/> .
                 @prefix rdf: <http://www.w3.org/1999/02/22-rdf-syntax-ns#> .
                 @prefix foaf: <http://xmlns.com/foaf/0.1/> .

                 <http://www.w3.org/2001/sw/RDFCore/ntriples/> rdf:type foaf:Document ;
                                                               <http://purl.org/dc/terms/title> \"N-Triples\"@en-US ;
                                                               foaf:maker _:art .

                 _:art foaf:name \"Art Barstow\" ,
                                 \"Art Барстоу\" ,
                                 \"아트 바스트\" .";

    let mut reader = TurtleParser::from_string(input);

    match reader.decode() {
        Ok(graph) => {
            assert_eq!(graph.count(), 6);
            assert_eq!(graph.namespaces().len(), 2);
            assert_eq!(
                graph.base_uri(),
                &Some(Uri::new("http://example.org/".to_string()))
            )
        }
        Err(e) => {
            println!("Err {}", e.message());
            assert!(false)
        }
    }
}

#[test]
fn test_parsing_turtle_base_uri() {
    let input = "@base <http://example/> .";
    let mut reader = TurtleParser::from_string(input);

    match reader.decode() {
        Ok(graph) => assert_eq!(
            graph.base_uri(),
            &Some(Uri::new("http://example/".to_string()))
        ),
        Err(e) => {
            println!("Err {}", e.message());
            assert!(false)
        }
    }
}

#[test]
fn test_parsing_turtle_sparql_base_uri() {
    let input = "BASE <http://example/> .";
    let mut reader = TurtleParser::from_string(input);

    match reader.decode() {
        Ok(graph) => assert_eq!(
            graph.base_uri(),
            &Some(Uri::new("http://example/".to_string()))
        ),
        Err(e) => {
            println!("Err {}", e.message());
            assert!(false)
        }
    }
}

#[test]
fn test_parsing_turtle_prefix() {
    let input = "@prefix p: <http://p.example/> .";
    let mut reader = TurtleParser::from_string(input);

    match reader.decode() {
        Ok(graph) => assert_eq!(graph.namespaces().len(), 1),
        Err(e) => {
            println!("Err {}", e.message());
            assert!(false)
        }
    }
}

#[test]
fn test_parsing_turtle_sparql_prefix() {
    let input = "PREFIX p: <http://p.example/> .";
    let mut reader = TurtleParser::from_string(input);

    match reader.decode() {
        Ok(graph) => assert_eq!(graph.namespaces().len(), 1),
        Err(e) => {
            println!("Err {}", e.message());
            assert!(false)
        }
    }
}

#[test]
fn test_read_turtle_with_empty_prefix_from_string() {
    let input = "@prefix : <http://example/> .
                 :subject :predicate :object .";

    let mut reader = TurtleParser::from_string(input);

    match reader.decode() {
        Ok(graph) => assert_eq!(graph.count(), 1),
        Err(e) => {
            println!("Err {}", e.message());
            assert!(false)
        }
    }
}

#[test]
fn read_collection_from_string() {
    let input = "_:a _:b ( _:c _:g ) .";

    let mut reader = TurtleParser::from_string(input);

    match reader.decode() {
        Ok(graph) => assert_eq!(graph.count(), 5),
        Err(e) => {
            println!("Err {}", e.message());
            assert!(false)
        }
    }
}

#[test]
fn read_empty_collection_from_string() {
    let input = "() _:b (  ) .";

    let mut reader = TurtleParser::from_string(input);

    match reader.decode() {
        Ok(graph) => assert_eq!(graph.count(), 1),
        Err(e) => {
            println!("Err {}", e.message());
            assert!(false)
        }
    }
}

#[test]
fn read_nested_collections_from_string() {
    let input = "( _:a (_:b _:c ) ) _:b ( _:b ( ( ( ) ) ) ) .";

    let mut reader = TurtleParser::from_string(input);

    match reader.decode() {
        Ok(graph) => assert_eq!(graph.count(), 17),
        Err(e) => {
            println!("Err {}", e.message());
            assert!(false)
        }
    }
}

#[test]
fn read_empty_unlabeled_node_from_string() {
    let input = "[ ] _:b [ ] .";

    let mut reader = TurtleParser::from_string(input);

    match reader.decode() {
        Ok(graph) => assert_eq!(graph.count(), 1),
        Err(e) => {
            println!("Err {}", e.message());
            assert!(false)
        }
    }
}

#[test]
fn read_unlabeled_nodes_from_string() {
    let input = "[ _:a _:g ] _:b [ _:c [
      _:s _:d ,
          [ _:asd _:asdf ] ;
      _:g _:h
    ] ] .";

    let mut reader = TurtleParser::from_string(input);

    match reader.decode() {
        Ok(graph) => assert_eq!(graph.count(), 7),
        Err(e) => {
            println!("Err {}", e.message());
            assert!(false)
        }
    }
}

#[test]
fn sparql_query_type_from_string() {
    let input = "SELECT ?a ?b ?c WHERE { ?v ?p 123 }";
    let mut reader = SparqlParser::from_string(input);

    match reader.decode() {
        Ok(sparql_query) => match sparql_query.get_query_type() {
            SparqlQueryType::Select => assert!(true),
            _ => assert!(false),
        },
        Err(e) => {
            println!("Err {}", e.message());
            assert!(false)
        }
    }
}

#[test]
fn sparql_variables_from_string() {
    let input = "SELECT ?a ?b ?c WHERE { ?v ?p 123 }";
    let mut reader = SparqlParser::from_string(input);

    match reader.decode() {
        Ok(sparql_query) => {
            let query_variables = sparql_query.get_query_variables();

            assert_eq!(query_variables[0], "a".to_string());
            assert_eq!(query_variables[1], "b".to_string());
            assert_eq!(query_variables[2], "c".to_string());
        }
        Err(e) => {
            println!("Err {}", e.message());
            assert!(false)
        }
    }
}

#[test]
fn select_query_pattern_tree() {
    let input = "SELECT ?a ?b WHERE { ?v ?p 123 }";
    let mut reader = SparqlParser::from_string(input);

    let query = reader.decode().unwrap();
    match query.get_query_type() {
        SparqlQueryType::Select => {}
        _ => assert!(false),
    }
    let variables = query.get_query_variables();
    assert_eq!(variables.len(), 2);
    assert_eq!(variables[0], "a".to_string());
    assert_eq!(variables[1], "b".to_string());

    let patterns = query.get_query_patterns();
    assert_eq!(patterns.len(), 1);
    match &patterns[0] {
        Pattern::Group(group) => {
            let inner = group.patterns();
            assert_eq!(inner.len(), 1);
            match &inner[0] {
                Pattern::Triple(tp) => {
                    assert!(matches!(tp.subject(), NodePattern::VariableNode(name) if name == "v"));
                    assert!(
                        matches!(tp.predicate(), NodePattern::VariableNode(name) if name == "p")
                    );
                    match tp.object() {
                        NodePattern::FixedNode(Node::LiteralNode {
                            literal,
                            data_type,
                            language,
                        }) => {
                            assert_eq!(literal, "123");
                            assert_eq!(
                                data_type,
                                &Some(Uri::new(
                                    "http://www.w3.org/2001/XMLSchema#integer".to_string()
                                ))
                            );
                            assert_eq!(language, &None);
                        }
                        _ => assert!(false),
                    }
                }
                _ => assert!(false),
            }
        }
        _ => assert!(false),
    }
}

#[test]
fn single_uri_statement_yields_one_triple() {
    let input = "<a> <b> <c> .";
    let mut reader = TurtleParser::from_string(input);
    let graph = reader.decode().unwrap();
    assert_eq!(graph.count(), 1);
    let triple = &graph.triples_iter()[0];
    assert_eq!(
        triple.subject(),
        &Node::UriNode {
            uri: Uri::new("a".to_string())
        }
    );
    assert_eq!(
        triple.predicate(),
        &Node::UriNode {
            uri: Uri::new("b".to_string())
        }
    );
    assert_eq!(
        triple.object(),
        &Node::UriNode {
            uri: Uri::new("c".to_string())
        }
    );
}

#[test]
fn literal_suffixes_are_exclusive() {
    let mut reader = TurtleParser::from_string("<s> <p> \"x\"@en .");
    let graph = reader.decode().unwrap();
    match graph.triples_iter()[0].object() {
        Node::LiteralNode {
            literal,
            data_type,
            language,
        } => {
            assert_eq!(literal, "x");
            assert_eq!(data_type, &None);
            assert_eq!(language, &Some("en".to_string()));
        }
        _ => assert!(false),
    }

    let mut reader = TurtleParser::from_string("<s> <p> \"x\"^^<d> .");
    let graph = reader.decode().unwrap();
    match graph.triples_iter()[0].object() {
        Node::LiteralNode {
            literal,
            data_type,
            language,
        } => {
            assert_eq!(literal, "x");
            assert_eq!(data_type, &Some(Uri::new("d".to_string())));
            assert_eq!(language, &None);
        }
        _ => assert!(false),
    }
}

#[test]
fn grouped_statement_shares_subject() {
    let input = "@prefix : <http://ex/> .\n:s :p :o1 , :o2 ; :p2 :o3 .";
    let mut reader = TurtleParser::from_string(input);
    let graph = reader.decode().unwrap();
    assert_eq!(graph.count(), 3);
    let subject = Node::UriNode {
        uri: Uri::new("http://ex/s".to_string()),
    };
    assert_eq!(graph.get_triples_with_subject(&subject).len(), 3);
}

#[test]
fn turtle_round_trip_preserves_triples() {
    let mut graph = rdf::graph::Graph::new(None);
    let s = graph.create_uri_node(&Uri::new("http://example.org/s".to_string()));
    let p1 = graph.create_uri_node(&Uri::new("http://example.org/p1".to_string()));
    let p2 = graph.create_uri_node(&Uri::new("http://example.org/p2".to_string()));
    let o1 = graph.create_uri_node(&Uri::new("http://example.org/o1".to_string()));
    let o2 = graph.create_literal_node("hello".to_string());
    graph.add_triple(&rdf::triple::Triple::new(&s, &p1, &o1));
    graph.add_triple(&rdf::triple::Triple::new(&s, &p2, &o2));

    let writer = TurtleWriter::new(graph.namespaces());
    let text = writer.write_to_string(&graph).unwrap();

    let mut reader = TurtleParser::from_string(text.as_str());
    let parsed = reader.decode().unwrap();
    assert_eq!(parsed.count(), graph.count());
    for triple in graph.triples_iter() {
        assert_eq!(
            parsed
                .get_triples_with_subject_and_predicate(triple.subject(), triple.predicate())
                .len(),
            1
        );
    }
}

#[test]
fn unregistered_prefix_is_a_namespace_error() {
    let mut reader = TurtleParser::from_string("x:s <p> <o> .");
    match reader.decode() {
        Ok(_) => assert!(false),
        Err(e) => assert!(matches!(e.error_type(), ErrorType::InvalidNamespace)),
    }
}

#[test]
fn misplaced_token_is_an_invalid_token_error() {
    let mut reader = TurtleParser::from_string("; <p> <o> .");
    match reader.decode() {
        Ok(_) => assert!(false),
        Err(e) => assert!(matches!(e.error_type(), ErrorType::InvalidToken)),
    }
}

#[test]
fn unknown_sparql_word_is_a_sparql_error() {
    let mut reader = SparqlParser::from_string("SELECT ?a WHERE { ?s ?p NONSENSE x }");
    match reader.decode() {
        Ok(_) => assert!(false),
        Err(e) => assert!(matches!(e.error_type(), ErrorType::InvalidSparqlInput)),
    }
}

#[test]
fn non_select_query_is_refused() {
    let mut reader = SparqlParser::from_string("ASK { ?s ?p ?o }");
    match reader.decode() {
        Ok(_) => assert!(false),
        Err(_) => assert!(true),
    }
}

#[test]
fn reading_past_the_input_reports_end_of_input() {
    let mut reader = InputReader::new("abc");
    match reader.get_until(Delim::Char('>')) {
        Ok(_) => assert!(false),
        Err(e) => match e.error_type() {
            ErrorType::EndOfInput(partial) => assert_eq!(partial.to_string(), "abc".to_string()),
            _ => assert!(false),
        },
    }
}

#[test]
fn input_reader_peeks_without_consuming() {
    let mut reader = InputReader::new("_:auto0");
    assert_eq!(reader.peek_next_char().unwrap(), Some('_'));
    assert_eq!(reader.peek_next_char().unwrap(), Some('_'));
    assert_eq!(reader.get_next_char().unwrap(), Some('_'));
    assert_eq!(reader.get_next_char().unwrap(), Some(':'));
    let peeked = reader.peek_next_k_chars(2).unwrap();
    assert_eq!(peeked.to_string(), "au".to_string());
    let taken = reader.get_next_k_chars(2).unwrap();
    assert_eq!(taken.to_string(), "au".to_string());
    assert_eq!(reader.get_until(Delim::NodeDelimiter).is_err(), true);
}

#[test]
fn bytes_decode_to_characters() {
    let input = "_:a <b> \"x\u{00e9}\" .".as_bytes();
    let reader = InputReader::from_bytes(input).unwrap();
    let mut parser = NTriplesParser::from_reader(reader);
    let graph = parser.decode().unwrap();
    assert_eq!(graph.count(), 1);
    match graph.triples_iter()[0].object() {
        Node::LiteralNode { literal, .. } => assert_eq!(literal, "x\u{00e9}"),
        _ => assert!(false),
    }
}

#[test]
fn invalid_bytes_are_an_encoding_error() {
    let bad: Vec<u8> = vec![0x3c, 0x61, 0x3e, 0xff, 0x20];
    match InputReader::from_bytes(bad.as_slice()) {
        Ok(_) => assert!(false),
        Err(e) => assert!(matches!(e.error_type(), ErrorType::InvalidByteEncoding)),
    }
    let truncated: Vec<u8> = vec![0x61, 0xc3];
    match InputReader::from_bytes(truncated.as_slice()) {
        Ok(_) => assert!(false),
        Err(e) => assert!(matches!(e.error_type(), ErrorType::InvalidByteEncoding)),
    }
}

#[test]
fn comment_payload_is_trimmed() {
    let mut lexer = rdf::lexer::turtle_lexer::TurtleLexer::new("# padded comment  \n<a> <b> <c> .");
    assert_eq!(
        lexer.get_next_token().unwrap(),
        rdf::lexer::token::Token::Comment("padded comment".to_string())
    );
}

#[test]
fn select_everything_with_empty_group() {
    let mut reader = SparqlParser::from_string("SELECT * { }");
    let query = reader.decode().unwrap();
    match query.get_query_type() {
        SparqlQueryType::SelectAll => {}
        _ => assert!(false),
    }
    assert_eq!(query.get_query_variables().len(), 0);
    let patterns = query.get_query_patterns();
    assert_eq!(patterns.len(), 1);
    match &patterns[0] {
        Pattern::Group(group) => assert_eq!(group.patterns().len(), 0),
        _ => assert!(false),
    }
}

#[test]
fn statement_without_delimiter_fails() {
    let mut reader = NTriplesParser::from_string("<a> <b> <c>");
    match reader.decode() {
        Ok(_) => assert!(false),
        Err(e) => assert!(matches!(e.error_type(), ErrorType::InvalidReaderInput)),
    }
}
