//! An RDF library: graphs of triples, parsers for the N-Triples and Turtle
//! serializations, a parser for a subset of SPARQL SELECT queries, and
//! writers that serialize a graph back to text.

pub mod error;
pub mod graph;
pub mod helper;
pub mod lexer;
pub mod namespace;
pub mod node;
pub mod reader;
pub mod sparql;
pub mod specs;
pub mod triple;
pub mod uri;
pub mod writer;
