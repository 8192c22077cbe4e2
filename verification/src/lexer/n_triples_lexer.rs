use vstd::prelude::*;

use crate::error::{Error, ErrorType};
use crate::lexer::rules::{
    consume_next_char, get_blank_node, get_comment, get_flat_literal, get_uri,
};
use crate::lexer::token::Token;
use crate::reader::input_reader::{prefix_len_skippable, InputChar, InputReader};

verus! {

/// A character that opens no N-Triples token: the dispatch refuses it.
pub open spec fn nt_dispatch_rejects(c: char) -> bool {
    c != '#' && c != '"' && c != '<' && c != '_' && c != '.'
}

/// Produces tokens from N-Triples input.
#[derive(Debug)]
pub struct NTriplesLexer {
    input_reader: InputReader,
    peeked_token: Option<Token>,
}

impl NTriplesLexer {
    /// The token read ahead and not yet consumed, if any.
    pub closed spec fn cached(&self) -> Option<Token> {
        self.peeked_token
    }

    /// The characters still to be read.
    pub closed spec fn pending(&self) -> Seq<InputChar> {
        self.input_reader.pending()
    }

    /// How many of the pending characters were read ahead.
    pub closed spec fn buffered_len(&self) -> nat {
        self.input_reader.buffered_len()
    }

    /// Constructor for `NTriplesLexer`.
    pub fn new(input: &str) -> (r: NTriplesLexer)
        ensures
            r.cached() is None,
            r.pending() == input@.map_values(|c: char| Some(c)),
            r.buffered_len() == 0,
    {
        NTriplesLexer { input_reader: InputReader::new(input), peeked_token: None }
    }

    /// Constructor for `NTriplesLexer` from an input reader.
    pub fn from_reader(input_reader: InputReader) -> (r: NTriplesLexer)
        ensures
            r.cached() is None,
            r.pending() == input_reader.pending(),
            r.buffered_len() == input_reader.buffered_len(),
    {
        NTriplesLexer { input_reader, peeked_token: None }
    }

    /// Determines the next token from the input and consumes its
    /// characters.
    pub fn get_next_token(&mut self) -> (r: Result<Token, Error>)
        ensures
            old(self).cached() matches Some(t) ==> r is Ok && r->Ok_0@ == t@ && final(self).cached() is None,
            ({
                let p = old(self).pending();
                let w = prefix_len_skippable(p);
                let fresh = old(self).cached() is None;
                let first = if w < p.len() {
                    p[w as int]
                } else {
                    None::<char>
                };
                &&& (fresh && first is None ==> r is Ok && r->Ok_0@ is EndOfInput)
                &&& (fresh && first == Some('#') ==> r is Ok && r->Ok_0@ is Comment)
                &&& (fresh && first == Some('"') ==> (r is Ok ==> r->Ok_0@ is Literal
                    || r->Ok_0@ is LiteralWithLanguageSpecification
                    || r->Ok_0@ is LiteralWithUrlDatatype))
                &&& (fresh && first == Some('<') ==> (r is Ok ==> r->Ok_0@ is Uri))
                &&& (fresh && first == Some('_') ==> (r is Ok ==> r->Ok_0@ is BlankNode))
                &&& (fresh && first == Some('.') ==> r is Ok && r->Ok_0@ is TripleDelimiter)
                &&& (fresh && (first matches Some(c) && nt_dispatch_rejects(c)) ==> r is Err
                    && r->Err_0.kind() is InvalidReaderInput)
            }),
    {
        let cached = match &self.peeked_token {
            Some(t) => Some(t.clone()),
            None => None,
        };
        match cached {
            Some(token) => {
                self.peeked_token = None;
                return Ok(token);
            },
            None => {},
        }
        let peeked = match self.input_reader.peek_next_char_discard_leading_spaces() {
            Ok(c) => c,
            Err(e) => {
                return Err(e);
            },
        };
        match peeked {
            Some('#') => get_comment(&mut self.input_reader),
            Some('"') => get_flat_literal(&mut self.input_reader),
            Some('<') => get_uri(&mut self.input_reader),
            Some('_') => get_blank_node(&mut self.input_reader),
            Some('.') => {
                consume_next_char(&mut self.input_reader);  // consume '.'
                Ok(Token::TripleDelimiter)
            },
            None => Ok(Token::EndOfInput),
            Some(_) => Err(
                Error::new(ErrorType::InvalidReaderInput, "Invalid N-Triples input."),
            ),
        }
    }

    /// Determines the next token without consuming it.
    pub fn peek_next_token(&mut self) -> (r: Result<Token, Error>)
        ensures
            old(self).cached() matches Some(t) ==> r is Ok && r->Ok_0@ == t@ && *final(self)
                == *old(self),
            r is Ok ==> (final(self).cached() matches Some(t) && t@ == r->Ok_0@),
            ({
                let p = old(self).pending();
                let w = prefix_len_skippable(p);
                let fresh = old(self).cached() is None;
                let first = if w < p.len() {
                    p[w as int]
                } else {
                    None::<char>
                };
                &&& (fresh && first is None ==> r is Ok && r->Ok_0@ is EndOfInput)
                &&& (fresh && first == Some('#') ==> r is Ok && r->Ok_0@ is Comment)
                &&& (fresh && first == Some('"') ==> (r is Ok ==> r->Ok_0@ is Literal
                    || r->Ok_0@ is LiteralWithLanguageSpecification
                    || r->Ok_0@ is LiteralWithUrlDatatype))
                &&& (fresh && first == Some('<') ==> (r is Ok ==> r->Ok_0@ is Uri))
                &&& (fresh && first == Some('_') ==> (r is Ok ==> r->Ok_0@ is BlankNode))
                &&& (fresh && first == Some('.') ==> r is Ok && r->Ok_0@ is TripleDelimiter)
                &&& (fresh && (first matches Some(c) && nt_dispatch_rejects(c)) ==> r is Err
                    && r->Err_0.kind() is InvalidReaderInput)
            }),
    {
        let cached = match &self.peeked_token {
            Some(t) => Some(t.clone()),
            None => None,
        };
        match cached {
            Some(token) => Ok(token),
            None => {
                let next = match self.get_next_token() {
                    Ok(t) => t,
                    Err(e) => {
                        return Err(e);
                    },
                };
                self.peeked_token = Some(next.clone());
                Ok(next)
            },
        }
    }
}

} // verus!
