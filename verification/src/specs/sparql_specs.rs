use vstd::prelude::*;

use crate::error::{Error, ErrorType};

verus! {

/// SPARQL keywords.
#[derive(Clone, Copy, Debug)]
pub enum SparqlKeyword {
    Base,
    Prefix,
    Select,
    Distinct,
    Reduced,
    Construct,
    Describe,
    Ask,
    From,
    Named,
    Order,
    By,
    Asc,
    Where,
    Desc,
    Offset,
    Optional,
    Filter,
    Graph,
    Union,
    Regex,
}

/// The keyword that the given word names, if any; matching is
/// case-sensitive.
pub open spec fn spec_keyword_of(s: Seq<char>) -> Option<SparqlKeyword> {
    if s == "BASE"@ {
        Some(SparqlKeyword::Base)
    } else if s == "PREFIX"@ {
        Some(SparqlKeyword::Prefix)
    } else if s == "SELECT"@ {
        Some(SparqlKeyword::Select)
    } else if s == "DISTINCT"@ {
        Some(SparqlKeyword::Distinct)
    } else if s == "REDUCED"@ {
        Some(SparqlKeyword::Reduced)
    } else if s == "CONSTRUCT"@ {
        Some(SparqlKeyword::Construct)
    } else if s == "DESCRIBE"@ {
        Some(SparqlKeyword::Describe)
    } else if s == "ASK"@ {
        Some(SparqlKeyword::Ask)
    } else if s == "FROM"@ {
        Some(SparqlKeyword::From)
    } else if s == "NAMED"@ {
        Some(SparqlKeyword::Named)
    } else if s == "ORDER"@ {
        Some(SparqlKeyword::Order)
    } else if s == "BY"@ {
        Some(SparqlKeyword::By)
    } else if s == "ASC"@ {
        Some(SparqlKeyword::Asc)
    } else if s == "DESC"@ {
        Some(SparqlKeyword::Desc)
    } else if s == "OFFSET"@ {
        Some(SparqlKeyword::Offset)
    } else if s == "OPTIONAL"@ {
        Some(SparqlKeyword::Optional)
    } else if s == "FILTER"@ {
        Some(SparqlKeyword::Filter)
    } else if s == "GRAPH"@ {
        Some(SparqlKeyword::Graph)
    } else if s == "UNION"@ {
        Some(SparqlKeyword::Union)
    } else if s == "REGEX"@ {
        Some(SparqlKeyword::Regex)
    } else if s == "WHERE"@ {
        Some(SparqlKeyword::Where)
    } else {
        None
    }
}

impl SparqlKeyword {
    /// Parses a word as a SPARQL keyword; an unknown word fails with a
    /// SPARQL input error.
    pub fn from_str(s: &String) -> (r: Result<SparqlKeyword, Error>)
        ensures
            ({
                match spec_keyword_of(s@) {
                    Some(kw) => r is Ok && r->Ok_0 == kw,
                    None => r is Err && r->Err_0.kind() is InvalidSparqlInput,
                }
            }),
    {
        if *s == String::from_str("BASE") {
            Ok(SparqlKeyword::Base)
        } else if *s == String::from_str("PREFIX") {
            Ok(SparqlKeyword::Prefix)
        } else if *s == String::from_str("SELECT") {
            Ok(SparqlKeyword::Select)
        } else if *s == String::from_str("DISTINCT") {
            Ok(SparqlKeyword::Distinct)
        } else if *s == String::from_str("REDUCED") {
            Ok(SparqlKeyword::Reduced)
        } else if *s == String::from_str("CONSTRUCT") {
            Ok(SparqlKeyword::Construct)
        } else if *s == String::from_str("DESCRIBE") {
            Ok(SparqlKeyword::Describe)
        } else if *s == String::from_str("ASK") {
            Ok(SparqlKeyword::Ask)
        } else if *s == String::from_str("FROM") {
            Ok(SparqlKeyword::From)
        } else if *s == String::from_str("NAMED") {
            Ok(SparqlKeyword::Named)
        } else if *s == String::from_str("ORDER") {
            Ok(SparqlKeyword::Order)
        } else if *s == String::from_str("BY") {
            Ok(SparqlKeyword::By)
        } else if *s == String::from_str("ASC") {
            Ok(SparqlKeyword::Asc)
        } else if *s == String::from_str("DESC") {
            Ok(SparqlKeyword::Desc)
        } else if *s == String::from_str("OFFSET") {
            Ok(SparqlKeyword::Offset)
        } else if *s == String::from_str("OPTIONAL") {
            Ok(SparqlKeyword::Optional)
        } else if *s == String::from_str("FILTER") {
            Ok(SparqlKeyword::Filter)
        } else if *s == String::from_str("GRAPH") {
            Ok(SparqlKeyword::Graph)
        } else if *s == String::from_str("UNION") {
            Ok(SparqlKeyword::Union)
        } else if *s == String::from_str("REGEX") {
            Ok(SparqlKeyword::Regex)
        } else if *s == String::from_str("WHERE") {
            Ok(SparqlKeyword::Where)
        } else {
            Err(Error::new(ErrorType::InvalidSparqlInput, "Unknown SPARQL keyword"))
        }
    }
}

} // verus!
