pub mod rdf_syntax_specs;
pub mod sparql_specs;
pub mod turtle_specs;
pub mod xml_specs;
