use vstd::prelude::*;

use crate::error::Error;
use crate::lexer::rules::{
    consume_next_char, get_blank_node, get_comment, get_numeric, get_qname_or_keyword,
    get_sparql_base_or_prefix, get_turtle_literal, get_uri, get_variable,
};
use crate::lexer::token::Token;
use crate::reader::input_reader::{
    prefix_len_skippable, InputChar, InputReader, InputReaderHelper,
};

verus! {

/// Produces tokens from SPARQL input.
#[derive(Debug)]
pub struct SparqlLexer {
    input_reader: InputReader,
    peeked_token: Option<Token>,
}

impl SparqlLexer {
    /// The token read ahead and not yet consumed, if any.
    pub closed spec fn cached(&self) -> Option<Token> {
        self.peeked_token
    }

    /// The characters still to be read.
    pub closed spec fn pending(&self) -> Seq<InputChar> {
        self.input_reader.pending()
    }

    /// How many of the pending characters were read ahead.
    pub closed spec fn buffered_len(&self) -> nat {
        self.input_reader.buffered_len()
    }

    /// Constructor for `SparqlLexer`.
    pub fn new(input: &str) -> (r: SparqlLexer)
        ensures
            r.cached() is None,
            r.pending() == input@.map_values(|c: char| Some(c)),
            r.buffered_len() == 0,
    {
        SparqlLexer { input_reader: InputReader::new(input), peeked_token: None }
    }

    /// Constructor for `SparqlLexer` from an input reader.
    pub fn from_reader(input_reader: InputReader) -> (r: SparqlLexer)
        ensures
            r.cached() is None,
            r.pending() == input_reader.pending(),
            r.buffered_len() == input_reader.buffered_len(),
    {
        SparqlLexer { input_reader, peeked_token: None }
    }

    /// Determines the next token from the input and consumes its
    /// characters.
    pub fn get_next_token(&mut self) -> (r: Result<Token, Error>)
        ensures
            old(self).cached() matches Some(t) ==> r is Ok && r->Ok_0@ == t@ && final(self).cached() is None,
            ({
                let p = old(self).pending();
                let w = prefix_len_skippable(p);
                let fresh = old(self).cached() is None;
                let first = if w < p.len() {
                    p[w as int]
                } else {
                    None::<char>
                };
                &&& (fresh && first is None ==> r is Ok && r->Ok_0@ is EndOfInput)
                &&& (fresh && first == Some('#') ==> r is Ok && r->Ok_0@ is Comment)
                &&& (fresh && (first == Some('"') || first == Some('\'')) ==> (r is Ok
                    ==> r->Ok_0@ is Literal || r->Ok_0@ is LiteralWithLanguageSpecification
                    || r->Ok_0@ is LiteralWithUrlDatatype
                    || r->Ok_0@ is LiteralWithQNameDatatype))
                &&& (fresh && first == Some('<') ==> (r is Ok ==> r->Ok_0@ is Uri))
                &&& (fresh && first == Some('_') ==> (r is Ok ==> r->Ok_0@ is BlankNode))
                &&& (fresh && first == Some(',') ==> r is Ok && r->Ok_0@ is ObjectListDelimiter)
                &&& (fresh && first == Some(';') ==> r is Ok
                    && r->Ok_0@ is PredicateListDelimiter)
                &&& (fresh && first == Some('{') ==> r is Ok && r->Ok_0@ is GroupStart)
                &&& (fresh && first == Some('}') ==> r is Ok && r->Ok_0@ is GroupEnd)
                &&& (fresh && first == Some('*') ==> r is Ok && r->Ok_0@ is Asterisk)
                &&& (fresh && first == Some('[') ==> r is Ok
                    && r->Ok_0@ is UnlabeledBlankNodeStart)
                &&& (fresh && first == Some(']') ==> r is Ok
                    && r->Ok_0@ is UnlabeledBlankNodeEnd)
                &&& (fresh && (first == Some('?') || first == Some('$')) ==> (r is Ok
                    ==> r->Ok_0@ is SparqlVariable))
            }),
    {
        let cached = match &self.peeked_token {
            Some(t) => Some(t.clone()),
            None => None,
        };
        match cached {
            Some(token) => {
                self.peeked_token = None;
                return Ok(token);
            },
            None => {},
        }
        let peeked = match self.input_reader.peek_next_char_discard_leading_spaces() {
            Ok(c) => c,
            Err(e) => {
                return Err(e);
            },
        };
        match peeked {
            Some('#') => {
                return get_comment(&mut self.input_reader);
            },
            Some('P') | Some('B') => {
                // try parsing PREFIX or BASE; it could still be a QName
                match get_sparql_base_or_prefix(&mut self.input_reader) {
                    Ok(token) => {
                        return Ok(token);
                    },
                    Err(_) => {},
                }
            },
            Some('"') | Some('\'') => {
                return get_turtle_literal(&mut self.input_reader);
            },
            Some('<') => {
                return get_uri(&mut self.input_reader);
            },
            Some('_') => {
                return get_blank_node(&mut self.input_reader);
            },
            Some('.') => {
                // try to parse a decimal; on an error it is a statement delimiter
                match get_numeric(&mut self.input_reader) {
                    Ok(token) => {
                        return Ok(token);
                    },
                    Err(_) => {
                        return Ok(Token::TripleDelimiter);
                    },
                }
            },
            Some('[') => {
                consume_next_char(&mut self.input_reader);  // consume '['
                return Ok(Token::UnlabeledBlankNodeStart);
            },
            Some(']') => {
                consume_next_char(&mut self.input_reader);  // consume ']'
                return Ok(Token::UnlabeledBlankNodeEnd);
            },
            Some('{') => {
                consume_next_char(&mut self.input_reader);  // consume '{'
                return Ok(Token::GroupStart);
            },
            Some('}') => {
                consume_next_char(&mut self.input_reader);  // consume '}'
                return Ok(Token::GroupEnd);
            },
            Some(',') => {
                consume_next_char(&mut self.input_reader);  // consume ','
                return Ok(Token::ObjectListDelimiter);
            },
            Some(';') => {
                consume_next_char(&mut self.input_reader);  // consume ';'
                return Ok(Token::PredicateListDelimiter);
            },
            Some('*') => {
                consume_next_char(&mut self.input_reader);  // consume '*'
                return Ok(Token::Asterisk);
            },
            Some('?') | Some('$') => {
                consume_next_char(&mut self.input_reader);  // consume '?' or '$'
                return get_variable(&mut self.input_reader);
            },
            Some('+') | Some('-') => {
                return get_numeric(&mut self.input_reader);
            },
            Some(c) => {
                if InputReaderHelper::digit(c) {
                    return get_numeric(&mut self.input_reader);
                }
            },
            None => {
                return Ok(Token::EndOfInput);
            },
        }
        get_qname_or_keyword(&mut self.input_reader)
    }

    /// Determines the next token without consuming it.
    pub fn peek_next_token(&mut self) -> (r: Result<Token, Error>)
        ensures
            old(self).cached() matches Some(t) ==> r is Ok && r->Ok_0@ == t@ && *final(self)
                == *old(self),
            r is Ok ==> (final(self).cached() matches Some(t) && t@ == r->Ok_0@),
            ({
                let p = old(self).pending();
                let w = prefix_len_skippable(p);
                let fresh = old(self).cached() is None;
                let first = if w < p.len() {
                    p[w as int]
                } else {
                    None::<char>
                };
                &&& (fresh && first is None ==> r is Ok && r->Ok_0@ is EndOfInput)
                &&& (fresh && first == Some('#') ==> r is Ok && r->Ok_0@ is Comment)
                &&& (fresh && (first == Some('"') || first == Some('\'')) ==> (r is Ok
                    ==> r->Ok_0@ is Literal || r->Ok_0@ is LiteralWithLanguageSpecification
                    || r->Ok_0@ is LiteralWithUrlDatatype
                    || r->Ok_0@ is LiteralWithQNameDatatype))
                &&& (fresh && first == Some('<') ==> (r is Ok ==> r->Ok_0@ is Uri))
                &&& (fresh && first == Some('_') ==> (r is Ok ==> r->Ok_0@ is BlankNode))
                &&& (fresh && first == Some(',') ==> r is Ok && r->Ok_0@ is ObjectListDelimiter)
                &&& (fresh && first == Some(';') ==> r is Ok
                    && r->Ok_0@ is PredicateListDelimiter)
                &&& (fresh && first == Some('{') ==> r is Ok && r->Ok_0@ is GroupStart)
                &&& (fresh && first == Some('}') ==> r is Ok && r->Ok_0@ is GroupEnd)
                &&& (fresh && first == Some('*') ==> r is Ok && r->Ok_0@ is Asterisk)
                &&& (fresh && first == Some('[') ==> r is Ok
                    && r->Ok_0@ is UnlabeledBlankNodeStart)
                &&& (fresh && first == Some(']') ==> r is Ok
                    && r->Ok_0@ is UnlabeledBlankNodeEnd)
                &&& (fresh && (first == Some('?') || first == Some('$')) ==> (r is Ok
                    ==> r->Ok_0@ is SparqlVariable))
            }),
    {
        let cached = match &self.peeked_token {
            Some(t) => Some(t.clone()),
            None => None,
        };
        match cached {
            Some(token) => Ok(token),
            None => {
                let next = match self.get_next_token() {
                    Ok(t) => t,
                    Err(e) => {
                        return Err(e);
                    },
                };
                self.peeked_token = Some(next.clone());
                Ok(next)
            },
        }
    }
}

} // verus!
