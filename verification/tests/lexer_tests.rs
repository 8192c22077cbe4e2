use rdf::lexer::n_triples_lexer::NTriplesLexer;
use rdf::lexer::sparql_lexer::SparqlLexer;
use rdf::lexer::token::Token;
use rdf::lexer::turtle_lexer::TurtleLexer;

#[test]
fn test_n_triples_parse_comment() {
    let input = "# Hello World!\n# Foo";

    let mut lexer = NTriplesLexer::new(input);

    assert_eq!(
        lexer.get_next_token().unwrap(),
        Token::Comment("Hello World!".to_string())
    );
    assert_eq!(
        lexer.get_next_token().unwrap(),
        Token::Comment("Foo".to_string())
    );
}

#[test]
fn test_n_triples_parse_literal() {
    let input = "\"a\"";

    let mut lexer = NTriplesLexer::new(input);

    assert_eq!(
        lexer.get_next_token().unwrap(),
        Token::Literal("a".to_string())
    );
}

#[test]
fn test_n_triples_parse_uri() {
    let input = "<example.org/a>";

    let mut lexer = NTriplesLexer::new(input);

    assert_eq!(
        lexer.get_next_token().unwrap(),
        Token::Uri("example.org/a".to_string())
    );
}

#[test]
fn test_n_triples_parse_literal_with_language_specification() {
    let input = "\"a\"@abc";

    let mut lexer = NTriplesLexer::new(input);

    assert_eq!(
        lexer.get_next_token().unwrap(),
        Token::LiteralWithLanguageSpecification("a".to_string(), "abc".to_string())
    );
}

#[test]
fn test_n_triples_parse_blank_node() {
    let input = "_:auto";

    let mut lexer = NTriplesLexer::new(input);

    assert_eq!(
        lexer.get_next_token().unwrap(),
        Token::BlankNode("auto".to_string())
    );
}

#[test]
fn test_n_triples_parse_literal_with_data_type() {
    let input = "\"a\"^^<example.org/abc>";

    let mut lexer = NTriplesLexer::new(input);

    assert_eq!(
        lexer.get_next_token().unwrap(),
        Token::LiteralWithUrlDatatype("a".to_string(), "example.org/abc".to_string())
    );
}

#[test]
fn test_n_triples_parse_triple_delimiter() {
    let input = ".   \"a\"   .";

    let mut lexer = NTriplesLexer::new(input);

    assert_eq!(lexer.get_next_token().unwrap(), Token::TripleDelimiter);
    assert_eq!(
        lexer.get_next_token().unwrap(),
        Token::Literal("a".to_string())
    );
    assert_eq!(lexer.get_next_token().unwrap(), Token::TripleDelimiter);
}

#[test]
fn parse_variable() {
    let input = "?var1 $var2 ";

    let mut lexer = SparqlLexer::new(input);

    assert_eq!(
        lexer.get_next_token().unwrap(),
        Token::SparqlVariable("var1".to_string())
    );
    assert_eq!(
        lexer.get_next_token().unwrap(),
        Token::SparqlVariable("var2".to_string())
    );
}

#[test]
fn parse_base_directive() {
    let input = "@base <http://example.org/> .";

    let mut lexer = TurtleLexer::new(input);

    assert_eq!(
        lexer.get_next_token().unwrap(),
        Token::BaseDirective("http://example.org/".to_string())
    );
    assert_eq!(lexer.get_next_token().unwrap(), Token::TripleDelimiter);
}

#[test]
fn parse_sparql_base_directive() {
    let input = "BASE <http://example.org/> .";

    let mut lexer = TurtleLexer::new(input);

    assert_eq!(
        lexer.get_next_token().unwrap(),
        Token::BaseDirective("http://example.org/".to_string())
    );
    assert_eq!(lexer.get_next_token().unwrap(), Token::TripleDelimiter);
}

#[test]
fn parse_prefix_directive() {
    let input = "@prefix foaf: <http://xmlns.com/foaf/0.1/> .";

    let mut lexer = TurtleLexer::new(input);

    assert_eq!(
        lexer.get_next_token().unwrap(),
        Token::PrefixDirective(
            "foaf:".to_string(),
            "http://xmlns.com/foaf/0.1/".to_string()
        )
    );
    assert_eq!(lexer.get_next_token().unwrap(), Token::TripleDelimiter);
}

#[test]
fn parse_sparql_prefix_directive() {
    let input = "PREFIX foaf: <http://xmlns.com/foaf/0.1/> .";

    let mut lexer = TurtleLexer::new(input);

    assert_eq!(
        lexer.get_next_token().unwrap(),
        Token::PrefixDirective(
            "foaf:".to_string(),
            "http://xmlns.com/foaf/0.1/".to_string()
        )
    );
    assert_eq!(lexer.get_next_token().unwrap(), Token::TripleDelimiter);
}

#[test]
fn parse_comment() {
    let input = "# Hello World!\n# Foo";

    let mut lexer = TurtleLexer::new(input);

    assert_eq!(
        lexer.get_next_token().unwrap(),
        Token::Comment("Hello World!".to_string())
    );
    assert_eq!(
        lexer.get_next_token().unwrap(),
        Token::Comment("Foo".to_string())
    );
}

#[test]
fn parse_literal() {
    let input = "\"a\"";

    let mut lexer = TurtleLexer::new(input);

    assert_eq!(
        lexer.get_next_token().unwrap(),
        Token::Literal("a".to_string())
    );
}

#[test]
fn parse_uri() {
    let input = "<example.org/a>";

    let mut lexer = TurtleLexer::new(input);

    assert_eq!(
        lexer.get_next_token().unwrap(),
        Token::Uri("example.org/a".to_string())
    );
}

#[test]
fn parse_literal_with_language_specification() {
    let input = "\"a\"@abc";

    let mut lexer = TurtleLexer::new(input);

    assert_eq!(
        lexer.get_next_token().unwrap(),
        Token::LiteralWithLanguageSpecification("a".to_string(), "abc".to_string())
    );
}

#[test]
fn parse_blank_node() {
    let input = ". _:auto .";

    let mut lexer = TurtleLexer::new(input);

    assert_eq!(lexer.get_next_token().unwrap(), Token::TripleDelimiter);
    assert_eq!(
        lexer.get_next_token().unwrap(),
        Token::BlankNode("auto".to_string())
    );
}

#[test]
fn parse_qname() {
    let input = " abc:def:ghij  gggg:gggg   abc:dd .";

    let mut lexer = TurtleLexer::new(input);

    assert_eq!(
        lexer.get_next_token().unwrap(),
        Token::QName("abc:".to_string(), "def:ghij".to_string())
    );
    assert_eq!(
        lexer.get_next_token().unwrap(),
        Token::QName("gggg:".to_string(), "gggg".to_string())
    );
    assert_eq!(
        lexer.get_next_token().unwrap(),
        Token::QName("abc:".to_string(), "dd".to_string())
    );
}

#[test]
fn parse_literal_with_data_type() {
    let input = "\"a\"^^<example.org/abc>";

    let mut lexer = TurtleLexer::new(input);

    assert_eq!(
        lexer.get_next_token().unwrap(),
        Token::LiteralWithUrlDatatype("a".to_string(), "example.org/abc".to_string())
    );
}

#[test]
fn parse_literal_with_qname_data_type() {
    let input = "\"a\"^^ex:abc:asdf";

    let mut lexer = TurtleLexer::new(input);

    assert_eq!(
        lexer.get_next_token().unwrap(),
        Token::LiteralWithQNameDatatype(
            "a".to_string(),
            "ex:".to_string(),
            "abc:asdf".to_string()
        )
    );
}

#[test]
fn parse_triple_delimiter() {
    let input = ". \"a\"   . ";

    let mut lexer = TurtleLexer::new(input);

    assert_eq!(lexer.get_next_token().unwrap(), Token::TripleDelimiter);
    assert_eq!(
        lexer.get_next_token().unwrap(),
        Token::Literal("a".to_string())
    );
    assert_eq!(lexer.get_next_token().unwrap(), Token::TripleDelimiter);
}

#[test]
fn parse_multiline_literal_delimiter() {
    let input = "'''don't do \"this\"\''''";

    let mut lexer = TurtleLexer::new(input);

    assert_eq!(
        lexer.get_next_token().unwrap(),
        Token::Literal("don't do \"this\"".to_string())
    );
}

#[test]
fn parse_numeric_literals() {
    let input = "4 1.2 -5.123 -.123 .123 5e10 .";
    let mut lexer = TurtleLexer::new(input);

    let double_uri = "http://www.w3.org/2001/XMLSchema#double".to_string();
    let integer_uri = "http://www.w3.org/2001/XMLSchema#integer".to_string();

    assert_eq!(
        lexer.get_next_token().unwrap(),
        Token::LiteralWithUrlDatatype("4".to_string(), integer_uri)
    );
    assert_eq!(
        lexer.get_next_token().unwrap(),
        Token::LiteralWithUrlDatatype("1.2".to_string(), double_uri.clone())
    );
    assert_eq!(
        lexer.get_next_token().unwrap(),
        Token::LiteralWithUrlDatatype("-5.123".to_string(), double_uri.clone())
    );
    assert_eq!(
        lexer.get_next_token().unwrap(),
        Token::LiteralWithUrlDatatype("-.123".to_string(), double_uri.clone())
    );
    assert_eq!(
        lexer.get_next_token().unwrap(),
        Token::LiteralWithUrlDatatype(".123".to_string(), double_uri.clone())
    );
    assert_eq!(
        lexer.get_next_token().unwrap(),
        Token::LiteralWithUrlDatatype("5e10".to_string(), double_uri)
    );
}

#[test]
fn peek_then_get_returns_same_token() {
    let input = "_:auto <example.org/b> \"test\" .";

    let mut lexer = TurtleLexer::new(input);

    assert_eq!(
        lexer.peek_next_token().unwrap(),
        Token::BlankNode("auto".to_string())
    );
    assert_eq!(
        lexer.peek_next_token().unwrap(),
        Token::BlankNode("auto".to_string())
    );
    assert_eq!(
        lexer.get_next_token().unwrap(),
        Token::BlankNode("auto".to_string())
    );
    assert_eq!(
        lexer.get_next_token().unwrap(),
        Token::Uri("example.org/b".to_string())
    );
}
