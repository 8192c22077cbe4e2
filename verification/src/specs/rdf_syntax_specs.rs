use vstd::prelude::*;

use crate::uri::Uri;

verus! {

/// RDF schema vocabulary.
#[derive(Clone, Copy, Debug)]
pub enum RdfSyntaxDataTypes {
    A,
    ListFirst,
    ListRest,
    ListNil,
}

/// The URI text of each RDF schema term.
pub open spec fn spec_rdf_term_str(t: RdfSyntaxDataTypes) -> Seq<char> {
    match t {
        RdfSyntaxDataTypes::A => "http://www.w3.org/1999/02/22-rdf-syntax-ns#type"@,
        RdfSyntaxDataTypes::ListFirst => "http://www.w3.org/1999/02/22-rdf-syntax-ns#first"@,
        RdfSyntaxDataTypes::ListRest => "http://www.w3.org/1999/02/22-rdf-syntax-ns#rest"@,
        RdfSyntaxDataTypes::ListNil => "http://www.w3.org/1999/02/22-rdf-syntax-ns#nil"@,
    }
}

impl RdfSyntaxDataTypes {
    /// Returns a specific term as URI.
    pub fn to_uri(&self) -> (r: Uri)
        ensures
            r@ == spec_rdf_term_str(*self),
    {
        Uri::new(self.to_string())
    }

    /// Returns a specific term as string.
    pub fn to_string(&self) -> (r: String)
        ensures
            r@ == spec_rdf_term_str(*self),
    {
        match self {
            RdfSyntaxDataTypes::A => String::from_str(
                "http://www.w3.org/1999/02/22-rdf-syntax-ns#type",
            ),
            RdfSyntaxDataTypes::ListFirst => String::from_str(
                "http://www.w3.org/1999/02/22-rdf-syntax-ns#first",
            ),
            RdfSyntaxDataTypes::ListRest => String::from_str(
                "http://www.w3.org/1999/02/22-rdf-syntax-ns#rest",
            ),
            RdfSyntaxDataTypes::ListNil => String::from_str(
                "http://www.w3.org/1999/02/22-rdf-syntax-ns#nil",
            ),
        }
    }
}

} // verus!
