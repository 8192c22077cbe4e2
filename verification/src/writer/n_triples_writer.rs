use vstd::prelude::*;

use crate::error::{Error, ErrorType};
use crate::graph::Graph;
use crate::helper::push_char;
use crate::node::{Node, NodeView};
use crate::triple::{Triple, TripleSegment, TripleView};
use crate::writer::n_triples_formatter::{nt_format_node, NTriplesFormatter};

verus! {

/// Whether a node may stand in the given position of a written triple: no
/// literal as subject or predicate, no blank node as predicate, and no
/// literal with both a data type and a language.
pub open spec fn node_valid_for_segment(nv: NodeView, segment: TripleSegment) -> bool {
    &&& !(nv is Blank && segment is Predicate)
    &&& (nv is Literal ==> segment is Object)
    &&& !(nv matches NodeView::Literal { data_type, language, .. } && data_type is Some
        && language is Some)
}

/// Whether every node of the triple may stand in its position.
pub open spec fn triple_valid(tv: TripleView) -> bool {
    &&& node_valid_for_segment(tv.subject, TripleSegment::Subject)
    &&& node_valid_for_segment(tv.predicate, TripleSegment::Predicate)
    &&& node_valid_for_segment(tv.object, TripleSegment::Object)
}

/// The N-Triples text of one triple: its three nodes separated by spaces,
/// closed by the statement delimiter.
pub open spec fn nt_format_triple(tv: TripleView) -> Seq<char> {
    nt_format_node(tv.subject) + seq![' '] + nt_format_node(tv.predicate) + seq![' ']
        + nt_format_node(tv.object) + seq![' ', '.']
}

/// The N-Triples text of a sequence of triples, one statement per line.
pub open spec fn nt_serialize(ts: Seq<TripleView>) -> Seq<char>
    decreases ts.len(),
{
    if ts.len() == 0 {
        Seq::empty()
    } else {
        nt_serialize(ts.drop_last()) + nt_format_triple(ts.last()) + seq!['\n']
    }
}

/// RDF writer that generates N-Triples syntax.
pub struct NTriplesWriter {
    formatter: NTriplesFormatter,
}

impl NTriplesWriter {
    /// Constructor of `NTriplesWriter`.
    pub fn new() -> NTriplesWriter {
        NTriplesWriter { formatter: NTriplesFormatter::new() }
    }

    /// Generates the N-Triples syntax for each triple stored in the
    /// provided graph, one statement per line; fails if a node stands in a
    /// position the syntax does not allow it in.
    #[verifier::loop_isolation(false)]
    pub fn write_to_string(&self, graph: &Graph) -> (r: Result<String, Error>)
        ensures
            ({
                let ts = graph@.triples;
                if forall|i: int| 0 <= i < ts.len() ==> triple_valid(#[trigger] ts[i]) {
                    r is Ok && r->Ok_0@ == nt_serialize(ts)
                } else {
                    r is Err && r->Err_0.kind() is InvalidWriterOutput
                }
            }),
    {
        let ghost ts = graph@.triples;
        let mut output_string = String::new();
        let triples = graph.triples_iter();
        let mut i: usize = 0;
        while i < triples.len()
            invariant
                i <= triples@.len(),
                triples@.map_values(|t: Triple| t@) == ts,
                forall|q: int| 0 <= q < i ==> triple_valid(#[trigger] ts[q]),
                output_string@ == nt_serialize(ts.take(i as int)),
            decreases triples@.len() - i,
        {
            proof {
                assert(ts[i as int] == triples@[i as int]@);
                assert(ts.take(i as int + 1).drop_last() =~= ts.take(i as int));
                assert(ts.take(i as int + 1).last() == ts[i as int]);
            }
            let triple = &triples[i];
            match self.triple_to_n_triples(triple) {
                Ok(formatted) => {
                    output_string.append(formatted.as_str());
                    push_char(&mut output_string, '\n');
                },
                Err(error) => {
                    return Err(error);
                },
            }
            i = i + 1;
        }
        proof {
            assert(ts.take(ts.len() as int) =~= ts);
        }
        Ok(output_string)
    }

    /// Generates the corresponding N-Triples syntax of the provided
    /// triple; fails if a node stands in a position the syntax does not
    /// allow it in.
    pub fn triple_to_n_triples(&self, triple: &Triple) -> (r: Result<String, Error>)
        ensures
            triple_valid(triple@) ==> r is Ok && r->Ok_0@ == nt_format_triple(triple@),
            !triple_valid(triple@) ==> r is Err && r->Err_0.kind() is InvalidWriterOutput,
    {
        let mut output_string = String::new();
        // convert the subject
        match self.node_to_n_triples(triple.subject(), &TripleSegment::Subject) {
            Ok(s) => {
                output_string.append(s.as_str());
            },
            Err(error) => {
                return Err(error);
            },
        }
        push_char(&mut output_string, ' ');
        // convert the predicate
        match self.node_to_n_triples(triple.predicate(), &TripleSegment::Predicate) {
            Ok(s) => {
                output_string.append(s.as_str());
            },
            Err(error) => {
                return Err(error);
            },
        }
        push_char(&mut output_string, ' ');
        // convert the object
        match self.node_to_n_triples(triple.object(), &TripleSegment::Object) {
            Ok(s) => {
                output_string.append(s.as_str());
            },
            Err(error) => {
                return Err(error);
            },
        }
        push_char(&mut output_string, ' ');
        push_char(&mut output_string, '.');
        proof {
            assert(output_string@ =~= nt_format_triple(triple@));
        }
        Ok(output_string)
    }

    /// Converts a single node to its N-Triples representation; fails if
    /// the node may not stand in the given triple segment.
    pub fn node_to_n_triples(&self, node: &Node, segment: &TripleSegment) -> (r: Result<
        String,
        Error,
    >)
        ensures
            node_valid_for_segment(node@, *segment) ==> r is Ok && r->Ok_0@ == nt_format_node(
                node@,
            ),
            !node_valid_for_segment(node@, *segment) ==> r is Err && r->Err_0.kind()
                is InvalidWriterOutput,
    {
        match node {
            Node::BlankNode { .. } => {
                // blank nodes are not allowed as predicates
                if *segment == TripleSegment::Predicate {
                    return Err(
                        Error::new(
                            ErrorType::InvalidWriterOutput,
                            "Blank nodes are not allowed as predicates.",
                        ),
                    );
                }
            },
            Node::LiteralNode { data_type, language, .. } => {
                // literal nodes are only allowed as objects
                if !(*segment == TripleSegment::Object) {
                    return Err(
                        Error::new(
                            ErrorType::InvalidWriterOutput,
                            "Literals are not allowed as subjects or predicates.",
                        ),
                    );
                }
                // either the language or the data type may be set, not both
                let both = match (data_type, language) {
                    (Some(_), Some(_)) => true,
                    _ => false,
                };
                if both {
                    return Err(
                        Error::new(
                            ErrorType::InvalidWriterOutput,
                            "Language and data type defined for a literal.",
                        ),
                    );
                }
            },
            _ => {},
        }
        Ok(self.formatter.format_node(node))
    }
}

} // verus!
