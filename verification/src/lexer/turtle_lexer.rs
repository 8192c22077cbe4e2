use vstd::prelude::*;

use crate::error::Error;
use crate::lexer::rules::{
    consume_next_char, get_a_keyword, get_base_or_prefix, get_blank_node, get_boolean_literal,
    get_comment, get_numeric, get_qname, get_turtle_literal, get_uri, opens_base_or_prefix,
};
use crate::lexer::token::Token;
use crate::reader::input_reader::{
    prefix_len_skippable, InputChar, InputReader, InputReaderHelper,
};

verus! {

/// Produces tokens from Turtle syntax input.
#[derive(Debug)]
pub struct TurtleLexer {
    input_reader: InputReader,
    peeked_token: Option<Token>,
}

impl TurtleLexer {
    /// The token read ahead and not yet consumed, if any.
    pub closed spec fn cached(&self) -> Option<Token> {
        self.peeked_token
    }

    /// The characters still to be read.
    pub closed spec fn pending(&self) -> Seq<InputChar> {
        self.input_reader.pending()
    }

    /// How many of the pending characters were read ahead.
    pub closed spec fn buffered_len(&self) -> nat {
        self.input_reader.buffered_len()
    }

    /// Constructor for `TurtleLexer`.
    pub fn new(input: &str) -> (r: TurtleLexer)
        ensures
            r.cached() is None,
            r.pending() == input@.map_values(|c: char| Some(c)),
            r.buffered_len() == 0,
    {
        TurtleLexer { input_reader: InputReader::new(input), peeked_token: None }
    }

    /// Constructor for `TurtleLexer` from an input reader.
    pub fn from_reader(input_reader: InputReader) -> (r: TurtleLexer)
        ensures
            r.cached() is None,
            r.pending() == input_reader.pending(),
            r.buffered_len() == input_reader.buffered_len(),
    {
        TurtleLexer { input_reader, peeked_token: None }
    }

    /// Determines the next token from the input and consumes its
    /// characters.
    pub fn get_next_token(&mut self) -> (r: Result<Token, Error>)
        ensures
            old(self).cached() matches Some(t) ==> r is Ok && r->Ok_0@ == t@ && final(self).cached() is None,
            ({
                let p = old(self).pending();
                let w = prefix_len_skippable(p);
                let fresh = old(self).cached() is None;
                let first = if w < p.len() {
                    p[w as int]
                } else {
                    None::<char>
                };
                &&& (fresh && first is None ==> r is Ok && r->Ok_0@ is EndOfInput)
                &&& (fresh && first == Some('#') ==> r is Ok && r->Ok_0@ is Comment)
                &&& (fresh && first == Some('@') ==> (r is Ok ==> r->Ok_0@ is BaseDirective
                    || r->Ok_0@ is PrefixDirective))
                &&& (fresh && (first == Some('"') || first == Some('\'')) ==> (r is Ok
                    ==> r->Ok_0@ is Literal || r->Ok_0@ is LiteralWithLanguageSpecification
                    || r->Ok_0@ is LiteralWithUrlDatatype
                    || r->Ok_0@ is LiteralWithQNameDatatype))
                &&& (fresh && first == Some('<') ==> (r is Ok ==> r->Ok_0@ is Uri))
                &&& (fresh && first == Some('_') ==> (r is Ok ==> r->Ok_0@ is BlankNode))
                &&& (fresh && first == Some(',') ==> r is Ok && r->Ok_0@ is ObjectListDelimiter)
                &&& (fresh && first == Some(';') ==> r is Ok
                    && r->Ok_0@ is PredicateListDelimiter)
                &&& (fresh && first == Some('(') ==> r is Ok && r->Ok_0@ is CollectionStart)
                &&& (fresh && first == Some(')') ==> r is Ok && r->Ok_0@ is CollectionEnd)
                &&& (fresh && first == Some('[') ==> r is Ok
                    && r->Ok_0@ is UnlabeledBlankNodeStart)
                &&& (fresh && first == Some(']') ==> r is Ok
                    && r->Ok_0@ is UnlabeledBlankNodeEnd)
                &&& (fresh && (first == Some('+') || first == Some('-')) ==> (r is Ok
                    ==> r->Ok_0@ is LiteralWithUrlDatatype))
                &&& ({
                    let rest = p.skip(w + 1 as int);
                    (fresh && old(self).buffered_len() == 0 && first == Some('@') && (rest.len()
                        == 0 || !opens_base_or_prefix(rest[0]))) ==> r is Err && r->Err_0.kind()
                        is InvalidReaderInput
                })
            }),
    {
        let cached = match &self.peeked_token {
            Some(t) => Some(t.clone()),
            None => None,
        };
        match cached {
            Some(token) => {
                self.peeked_token = None;
                return Ok(token);
            },
            None => {},
        }
        let peeked = match self.input_reader.peek_next_char_discard_leading_spaces() {
            Ok(c) => c,
            Err(e) => {
                return Err(e);
            },
        };
        match peeked {
            Some('#') => {
                return get_comment(&mut self.input_reader);
            },
            Some('@') => {
                consume_next_char(&mut self.input_reader);  // consume '@'
                return get_base_or_prefix(&mut self.input_reader);
            },
            Some('"') | Some('\'') => {
                return get_turtle_literal(&mut self.input_reader);
            },
            Some('<') => {
                return get_uri(&mut self.input_reader);
            },
            Some('_') => {
                return get_blank_node(&mut self.input_reader);
            },
            Some('.') => {
                // try to parse a decimal; on an error it is a statement delimiter
                match get_numeric(&mut self.input_reader) {
                    Ok(token) => {
                        return Ok(token);
                    },
                    Err(_) => {
                        return Ok(Token::TripleDelimiter);
                    },
                }
            },
            Some(',') => {
                consume_next_char(&mut self.input_reader);  // consume ','
                return Ok(Token::ObjectListDelimiter);
            },
            Some(';') => {
                consume_next_char(&mut self.input_reader);  // consume ';'
                return Ok(Token::PredicateListDelimiter);
            },
            Some('(') => {
                consume_next_char(&mut self.input_reader);  // consume '('
                return Ok(Token::CollectionStart);
            },
            Some(')') => {
                consume_next_char(&mut self.input_reader);  // consume ')'
                return Ok(Token::CollectionEnd);
            },
            Some('[') => {
                consume_next_char(&mut self.input_reader);  // consume '['
                return Ok(Token::UnlabeledBlankNodeStart);
            },
            Some(']') => {
                consume_next_char(&mut self.input_reader);  // consume ']'
                return Ok(Token::UnlabeledBlankNodeEnd);
            },
            Some('P') | Some('B') => {
                // try parsing PREFIX or BASE; it could still be a QName
                match get_base_or_prefix(&mut self.input_reader) {
                    Ok(token) => {
                        return Ok(token);
                    },
                    Err(_) => {},
                }
            },
            Some('t') | Some('f') => {
                // try parsing a boolean; it could still be a QName
                match get_boolean_literal(&mut self.input_reader) {
                    Ok(token) => {
                        return Ok(token);
                    },
                    Err(_) => {},
                }
            },
            Some('a') => {
                // try parsing the bare `a` keyword; it could still be a QName
                match get_a_keyword(&mut self.input_reader) {
                    Ok(token) => {
                        return Ok(token);
                    },
                    Err(_) => {},
                }
            },
            Some('+') | Some('-') => {
                return get_numeric(&mut self.input_reader);
            },
            Some(c) => {
                if InputReaderHelper::digit(c) {
                    return get_numeric(&mut self.input_reader);
                }
            },
            None => {
                return Ok(Token::EndOfInput);
            },
        }
        get_qname(&mut self.input_reader)
    }

    /// Determines the next token without consuming it.
    pub fn peek_next_token(&mut self) -> (r: Result<Token, Error>)
        ensures
            old(self).cached() matches Some(t) ==> r is Ok && r->Ok_0@ == t@ && *final(self)
                == *old(self),
            r is Ok ==> (final(self).cached() matches Some(t) && t@ == r->Ok_0@),
            ({
                let p = old(self).pending();
                let w = prefix_len_skippable(p);
                let fresh = old(self).cached() is None;
                let first = if w < p.len() {
                    p[w as int]
                } else {
                    None::<char>
                };
                &&& (fresh && first is None ==> r is Ok && r->Ok_0@ is EndOfInput)
                &&& (fresh && first == Some('#') ==> r is Ok && r->Ok_0@ is Comment)
                &&& (fresh && first == Some('@') ==> (r is Ok ==> r->Ok_0@ is BaseDirective
                    || r->Ok_0@ is PrefixDirective))
                &&& (fresh && (first == Some('"') || first == Some('\'')) ==> (r is Ok
                    ==> r->Ok_0@ is Literal || r->Ok_0@ is LiteralWithLanguageSpecification
                    || r->Ok_0@ is LiteralWithUrlDatatype
                    || r->Ok_0@ is LiteralWithQNameDatatype))
                &&& (fresh && first == Some('<') ==> (r is Ok ==> r->Ok_0@ is Uri))
                &&& (fresh && first == Some('_') ==> (r is Ok ==> r->Ok_0@ is BlankNode))
                &&& (fresh && first == Some(',') ==> r is Ok && r->Ok_0@ is ObjectListDelimiter)
                &&& (fresh && first == Some(';') ==> r is Ok
                    && r->Ok_0@ is PredicateListDelimiter)
                &&& (fresh && first == Some('(') ==> r is Ok && r->Ok_0@ is CollectionStart)
                &&& (fresh && first == Some(')') ==> r is Ok && r->Ok_0@ is CollectionEnd)
                &&& (fresh && first == Some('[') ==> r is Ok
                    && r->Ok_0@ is UnlabeledBlankNodeStart)
                &&& (fresh && first == Some(']') ==> r is Ok
                    && r->Ok_0@ is UnlabeledBlankNodeEnd)
                &&& (fresh && (first == Some('+') || first == Some('-')) ==> (r is Ok
                    ==> r->Ok_0@ is LiteralWithUrlDatatype))
                &&& ({
                    let rest = p.skip(w + 1 as int);
                    (fresh && old(self).buffered_len() == 0 && first == Some('@') && (rest.len()
                        == 0 || !opens_base_or_prefix(rest[0]))) ==> r is Err && r->Err_0.kind()
                        is InvalidReaderInput
                })
            }),
    {
        let cached = match &self.peeked_token {
            Some(t) => Some(t.clone()),
            None => None,
        };
        match cached {
            Some(token) => Ok(token),
            None => {
                let next = match self.get_next_token() {
                    Ok(t) => t,
                    Err(e) => {
                        return Err(e);
                    },
                };
                self.peeked_token = Some(next.clone());
                Ok(next)
            },
        }
    }
}

} // verus!
