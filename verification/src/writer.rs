pub mod n_triples_formatter;
pub mod n_triples_writer;
pub mod turtle_formatter;
pub mod turtle_writer;
