use vstd::prelude::*;

use crate::reader::input_reader::InputChars;

verus! {

/// Different types of errors that can occur.
#[derive(Debug)]
pub enum ErrorType {
    /// RDF writer would produce invalid RDF (e.g. a literal in subject position).
    InvalidWriterOutput,
    /// RDF lexer reads invalid RDF (e.g. a non-closing string).
    InvalidReaderInput,
    /// RDF parser reads a structurally valid token in the wrong position.
    InvalidToken,
    /// The reader reaches the end of the input; carries the characters read last.
    EndOfInput(InputChars),
    /// The input reader encounters invalid byte encoding.
    InvalidByteEncoding,
    /// A namespace prefix is not registered.
    InvalidNamespace,
    /// The SPARQL reader reads invalid SPARQL input.
    InvalidSparqlInput,
}

/// An error raised while reading or writing RDF.
#[derive(Debug)]
pub struct Error {
    error_type: ErrorType,
    message: String,
}

impl Error {
    /// The type of the error, as a specification-level value.
    pub closed spec fn kind(&self) -> ErrorType {
        self.error_type
    }

    /// The message of the error, as a specification-level value.
    pub closed spec fn spec_message(&self) -> Seq<char> {
        self.message@
    }

    /// Constructor of `Error`.
    pub fn new(error_type: ErrorType, message: &str) -> (r: Error)
        ensures
            r.kind() == error_type,
            r.spec_message() == message@,
    {
        Error { error_type, message: message.to_owned() }
    }

    /// Returns the type of the error.
    pub fn error_type(&self) -> (r: &ErrorType)
        ensures
            *r == self.kind(),
    {
        &self.error_type
    }

    /// Returns the message describing the error.
    pub fn message(&self) -> (r: &String)
        ensures
            r@ == self.spec_message(),
    {
        &self.message
    }
}

} // verus!
