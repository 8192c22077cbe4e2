pub mod n_triples_lexer;
pub mod rules;
pub mod sparql_lexer;
pub mod token;
pub mod turtle_lexer;
