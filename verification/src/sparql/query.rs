use vstd::prelude::*;

use crate::error::Error;
use crate::namespace::{find_prefix_idx, NamespaceStore, NamespaceView};
use crate::sparql::pattern::Pattern;
use crate::uri::Uri;

verus! {

/// Query type.
#[derive(Clone, Copy, PartialEq, Eq, Structural, Debug)]
pub enum SparqlQueryType {
    Ask,
    Select,
    SelectDistinct,
    SelectReduced,
    SelectAll,
    SelectAllDistinct,
    SelectAllReduced,
    Construct,
    Describe,
}

/// The mathematical value of a SPARQL query. The patterns are the pattern
/// values themselves, in order.
pub struct SparqlQueryView {
    pub query_type: SparqlQueryType,
    pub base_uri: Option<Seq<char>>,
    pub namespaces: Seq<NamespaceView>,
    pub variables: Seq<Seq<char>>,
    pub patterns: Seq<Pattern>,
}

/// Represents a SPARQL query: its type, the projected variables, the
/// namespaces, and the patterns of the `WHERE` clause.
#[derive(Debug)]
pub struct SparqlQuery {
    query_type: SparqlQueryType,
    base_uri: Option<Uri>,
    namespaces: NamespaceStore,
    variables: Vec<String>,
    patterns: Vec<Pattern>,
}

impl View for SparqlQuery {
    type V = SparqlQueryView;

    closed spec fn view(&self) -> SparqlQueryView {
        SparqlQueryView {
            query_type: self.query_type,
            base_uri: match self.base_uri {
                Some(u) => Some(u@),
                None => None,
            },
            namespaces: self.namespaces@,
            variables: self.variables@.map_values(|v: String| v@),
            patterns: self.patterns@,
        }
    }
}

impl SparqlQuery {
    /// Constructor of `SparqlQuery`.
    pub fn new(query_type: SparqlQueryType) -> (r: SparqlQuery)
        ensures
            r@.query_type == query_type,
            r@.base_uri is None,
            r@.namespaces == Seq::<NamespaceView>::empty(),
            r@.variables == Seq::<Seq<char>>::empty(),
            r@.patterns == Seq::<Pattern>::empty(),
    {
        let r = SparqlQuery {
            query_type,
            base_uri: None,
            variables: Vec::new(),
            patterns: Vec::new(),
            namespaces: NamespaceStore::new(),
        };
        proof {
            assert(r.variables@.map_values(|v: String| v@) =~= Seq::<Seq<char>>::empty());
        }
        r
    }

    /// Sets the variables of the query; the order in the vector reflects
    /// the position in which the variables appear.
    pub fn add_variables(&mut self, variables: Vec<String>)
        ensures
            final(self)@ == (SparqlQueryView {
                variables: variables@.map_values(|v: String| v@),
                ..old(self)@
            }),
    {
        self.variables = variables;
    }

    /// Adds a pattern to the query.
    pub fn add_pattern(&mut self, pattern: Pattern)
        ensures
            final(self)@ == (SparqlQueryView {
                patterns: old(self)@.patterns.push(pattern),
                ..old(self)@
            }),
    {
        self.patterns.push(pattern);
    }

    /// Returns the type of the SPARQL query.
    pub fn get_query_type(&self) -> (r: &SparqlQueryType)
        ensures
            *r == self@.query_type,
    {
        &self.query_type
    }

    /// Returns the query variables, in order of appearance.
    pub fn get_query_variables(&self) -> (r: &Vec<String>)
        ensures
            r@.map_values(|v: String| v@) == self@.variables,
    {
        &self.variables
    }

    /// Returns the query patterns of the `WHERE` clause.
    pub fn get_query_patterns(&self) -> (r: &Vec<Pattern>)
        ensures
            r@ == self@.patterns,
    {
        &self.patterns
    }

    /// Returns the URI of a namespace with the provided prefix; fails with
    /// a namespace error when the prefix is not bound.
    pub fn get_namespace_uri_by_prefix(&self, prefix: &str) -> (r: Result<&Uri, Error>)
        ensures
            ({
                let i = find_prefix_idx(self@.namespaces, prefix@);
                if i < self@.namespaces.len() {
                    r is Ok && r->Ok_0@ == self@.namespaces[i as int].uri
                } else {
                    r is Err && r->Err_0.kind() is InvalidNamespace
                }
            }),
    {
        self.namespaces.get_uri_by_prefix(prefix)
    }
}

} // verus!
