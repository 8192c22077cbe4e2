use vstd::prelude::*;

use crate::error::{Error, ErrorType};
use crate::lexer::token::{Token, TokenView};

verus! {

/// Whether two error values report the same kind of failure, with the same
/// partial input where one is carried.
pub open spec fn same_error_kind(a: ErrorType, b: ErrorType) -> bool {
    match (a, b) {
        (ErrorType::EndOfInput(x), ErrorType::EndOfInput(y)) => x@ == y@,
        (ErrorType::InvalidWriterOutput, ErrorType::InvalidWriterOutput) => true,
        (ErrorType::InvalidReaderInput, ErrorType::InvalidReaderInput) => true,
        (ErrorType::InvalidToken, ErrorType::InvalidToken) => true,
        (ErrorType::InvalidByteEncoding, ErrorType::InvalidByteEncoding) => true,
        (ErrorType::InvalidNamespace, ErrorType::InvalidNamespace) => true,
        (ErrorType::InvalidSparqlInput, ErrorType::InvalidSparqlInput) => true,
        _ => false,
    }
}

/// A stream of tokens read ahead of the parser, with the way the lexing
/// ended: cleanly, or with an error that the parser receives when it
/// reaches that point.
pub struct TokenCursor {
    tokens: Vec<Token>,
    pos: usize,
    terminal: Option<Error>,
}

impl TokenCursor {
    /// The tokens of the stream.
    pub closed spec fn toks(&self) -> Seq<TokenView> {
        self.tokens@.map_values(|t: Token| t@)
    }

    /// The position of the next token to be handed out; it never passes
    /// the end of the stream.
    pub closed spec fn at(&self) -> nat {
        if self.pos <= self.tokens@.len() {
            self.pos as nat
        } else {
            self.tokens@.len()
        }
    }

    /// The kind of error the lexing ended with, if it was not delivered
    /// yet.
    pub closed spec fn terminal_kind(&self) -> Option<ErrorType> {
        match self.terminal {
            Some(e) => Some(e.kind()),
            None => None,
        }
    }

    /// The position never passes the end of the stream.
    pub proof fn lemma_at_bounded(&self)
        ensures
            self.at() <= self.toks().len(),
    {
    }

    /// How many tokens are still to be handed out.
    pub open spec fn rem(&self) -> nat {
        if self.at() <= self.toks().len() {
            (self.toks().len() - self.at()) as nat
        } else {
            0
        }
    }

    /// Builds a cursor over the given tokens; `terminal` is the error the
    /// lexing ended with, if any.
    pub fn new(tokens: Vec<Token>, terminal: Option<Error>) -> (r: TokenCursor)
        ensures
            r.toks() == tokens@.map_values(|t: Token| t@),
            r.at() == 0,
            r.terminal_kind() == match terminal {
                Some(e) => Some(e.kind()),
                None => None::<ErrorType>,
            },
    {
        TokenCursor { tokens, pos: 0, terminal }
    }

    /// Hands out the next token and moves past it. Past the last token,
    /// the terminal error is delivered once; after that the end of the
    /// input is reported.
    pub fn next(&mut self) -> (r: Result<Token, Error>)
        ensures
            final(self).toks() == old(self).toks(),
            old(self).at() < old(self).toks().len() ==> r is Ok && r->Ok_0@ == old(self).toks()[
                old(self).at() as int
            ] && final(self).at() == old(self).at() + 1 && final(self).terminal_kind() == old(
                self,
            ).terminal_kind(),
            old(self).at() >= old(self).toks().len() ==> final(self).at() == old(self).at()
                && final(self).terminal_kind() is None && (match old(self).terminal_kind() {
                Some(k) => r is Err && same_error_kind(r->Err_0.kind(), k),
                None => r is Ok && r->Ok_0@ is EndOfInput,
            }),
    {
        if self.pos < self.tokens.len() {
            let t = self.tokens[self.pos].clone();
            self.pos = self.pos + 1;
            Ok(t)
        } else {
            let terminal = self.terminal.take();
            match terminal {
                Some(e) => Err(e),
                None => Ok(Token::EndOfInput),
            }
        }
    }

    /// Hands out the next token without moving past it. Past the last
    /// token, the terminal error is delivered once; after that the end of
    /// the input is reported.
    pub fn peek(&mut self) -> (r: Result<Token, Error>)
        ensures
            final(self).toks() == old(self).toks(),
            final(self).at() == old(self).at(),
            old(self).at() < old(self).toks().len() ==> r is Ok && r->Ok_0@ == old(self).toks()[
                old(self).at() as int
            ] && final(self).terminal_kind() == old(self).terminal_kind(),
            old(self).at() >= old(self).toks().len() ==> final(self).terminal_kind() is None && (
            match old(self).terminal_kind() {
                Some(k) => r is Err && same_error_kind(r->Err_0.kind(), k),
                None => r is Ok && r->Ok_0@ is EndOfInput,
            }),
    {
        if self.pos < self.tokens.len() {
            let t = self.tokens[self.pos].clone();
            Ok(t)
        } else {
            let terminal = self.terminal.take();
            match terminal {
                Some(e) => Err(e),
                None => Ok(Token::EndOfInput),
            }
        }
    }
}

} // verus!
