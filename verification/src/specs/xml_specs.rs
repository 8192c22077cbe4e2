use vstd::prelude::*;

use crate::uri::Uri;

verus! {

/// XML schema data types.
#[derive(Clone, Copy, Debug)]
pub enum XmlDataTypes {
    String,
    Decimal,
    Double,
    Boolean,
    Date,
    Long,
    UnsignedLong,
    Int,
    Integer,
}

/// The URI text of each XML schema data type.
pub open spec fn spec_xml_type_str(t: XmlDataTypes) -> Seq<char> {
    match t {
        XmlDataTypes::Boolean => "http://www.w3.org/2001/XMLSchema#boolean"@,
        XmlDataTypes::Integer => "http://www.w3.org/2001/XMLSchema#integer"@,
        XmlDataTypes::Decimal => "http://www.w3.org/2001/XMLSchema#decimal"@,
        XmlDataTypes::Double => "http://www.w3.org/2001/XMLSchema#double"@,
        XmlDataTypes::Date => "http://www.w3.org/2001/XMLSchema#date"@,
        XmlDataTypes::Long => "http://www.w3.org/2001/XMLSchema#long"@,
        XmlDataTypes::UnsignedLong => "http://www.w3.org/2001/XMLSchema#unsignedLong"@,
        XmlDataTypes::Int => "http://www.w3.org/2001/XMLSchema#int"@,
        XmlDataTypes::String => "http://www.w3.org/2001/XMLSchema#string"@,
    }
}

impl XmlDataTypes {
    /// Returns a specific data type as URI.
    pub fn to_uri(&self) -> (r: Uri)
        ensures
            r@ == spec_xml_type_str(*self),
    {
        Uri::new(self.to_string())
    }

    /// Returns a specific data type as string.
    pub fn to_string(&self) -> (r: String)
        ensures
            r@ == spec_xml_type_str(*self),
    {
        match self {
            XmlDataTypes::Boolean => String::from_str("http://www.w3.org/2001/XMLSchema#boolean"),
            XmlDataTypes::Integer => String::from_str("http://www.w3.org/2001/XMLSchema#integer"),
            XmlDataTypes::Decimal => String::from_str("http://www.w3.org/2001/XMLSchema#decimal"),
            XmlDataTypes::Double => String::from_str("http://www.w3.org/2001/XMLSchema#double"),
            XmlDataTypes::Date => String::from_str("http://www.w3.org/2001/XMLSchema#date"),
            XmlDataTypes::Long => String::from_str("http://www.w3.org/2001/XMLSchema#long"),
            XmlDataTypes::UnsignedLong => String::from_str(
                "http://www.w3.org/2001/XMLSchema#unsignedLong",
            ),
            XmlDataTypes::Int => String::from_str("http://www.w3.org/2001/XMLSchema#int"),
            XmlDataTypes::String => String::from_str("http://www.w3.org/2001/XMLSchema#string"),
        }
    }
}

} // verus!
