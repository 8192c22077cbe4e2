pub mod input_reader;
pub mod n_triples_parser;
pub mod sparql_parser;
pub mod token_cursor;
pub mod turtle_parser;
