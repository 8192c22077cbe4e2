use vstd::prelude::*;

use crate::error::{Error, ErrorType};
use crate::graph::Graph;
use crate::lexer::n_triples_lexer::NTriplesLexer;
use crate::lexer::token::{Token, TokenView};
use crate::namespace::NamespaceView;
use crate::node::{Node, NodeView};
use crate::reader::input_reader::{prefix_len_skippable, InputChar, InputReader};
use crate::reader::token_cursor::TokenCursor;
use crate::triple::{Triple, TripleView};
use crate::uri::Uri;

verus! {

/// The node an N-Triples subject token stands for, if the token is valid
/// in that position.
pub open spec fn nt_subject_node(t: TokenView) -> Option<NodeView> {
    match t {
        TokenView::BlankNode(id) => Some(NodeView::Blank { id }),
        TokenView::Uri(uri) => Some(NodeView::Uri { uri }),
        _ => None,
    }
}

/// The node an N-Triples predicate token stands for, if the token is valid
/// in that position.
pub open spec fn nt_predicate_node(t: TokenView) -> Option<NodeView> {
    match t {
        TokenView::Uri(uri) => Some(NodeView::Uri { uri }),
        _ => None,
    }
}

/// The node an N-Triples object token stands for, if the token is valid in
/// that position.
pub open spec fn nt_object_node(t: TokenView) -> Option<NodeView> {
    match t {
        TokenView::BlankNode(id) => Some(NodeView::Blank { id }),
        TokenView::Uri(uri) => Some(NodeView::Uri { uri }),
        TokenView::LiteralWithLanguageSpecification(lit, lang) => Some(
            NodeView::Literal { literal: lit, data_type: None, language: Some(lang) },
        ),
        TokenView::LiteralWithUrlDatatype(lit, dt) => Some(
            NodeView::Literal { literal: lit, data_type: Some(dt), language: None },
        ),
        TokenView::Literal(lit) => Some(
            NodeView::Literal { literal: lit, data_type: None, language: None },
        ),
        _ => None,
    }
}

/// The triple formed by the four tokens of one statement, when they are a
/// well-formed subject, predicate, object and statement delimiter.
pub open spec fn nt_statement_at(toks: Seq<TokenView>, i: int) -> Option<TripleView> {
    if 0 <= i && i + 4 <= toks.len() {
        match (nt_subject_node(toks[i]), nt_predicate_node(toks[i + 1]), nt_object_node(
            toks[i + 2],
        )) {
            (Some(s), Some(p), Some(o)) => if toks[i + 3] is TripleDelimiter {
                Some(TripleView { subject: s, predicate: p, object: o })
            } else {
                None
            },
            _ => None,
        }
    } else {
        None
    }
}

/// The triples that the token stream yields from position `i` on: comments
/// are skipped, reaching the end cleanly (or an explicit end token) closes
/// the list, and each statement contributes its triple. An ill-formed
/// statement, or an end that the lexing reached with an error, yields
/// nothing.
pub open spec fn nt_parse(toks: Seq<TokenView>, i: int, clean_end: bool) -> Option<
    Seq<TripleView>,
>
    decreases toks.len() - i,
{
    if i < 0 || i >= toks.len() {
        if clean_end {
            Some(Seq::empty())
        } else {
            None
        }
    } else if toks[i] is Comment {
        nt_parse(toks, i + 1, clean_end)
    } else if toks[i] is EndOfInput {
        Some(Seq::empty())
    } else {
        match nt_statement_at(toks, i) {
            Some(tv) => match nt_parse(toks, i + 4, clean_end) {
                Some(rest) => Some(seq![tv] + rest),
                None => None,
            },
            None => None,
        }
    }
}

/// A literal node built from a token never carries both a data type and a
/// language: each literal token form settles one of the two at most.
pub proof fn lemma_object_literal_exclusive(t: TokenView)
    ensures
        nt_object_node(t) matches Some(NodeView::Literal { data_type, language, .. })
            ==> !(data_type is Some && language is Some),
{
}

/// RDF parser that generates an RDF graph from N-Triples syntax.
pub struct NTriplesParser {
    lexer: NTriplesLexer,
}

impl NTriplesParser {
    /// The characters still to be read.
    pub closed spec fn pending(&self) -> Seq<InputChar> {
        self.lexer.pending()
    }

    /// The token read ahead and not yet consumed, if any.
    pub closed spec fn cached(&self) -> Option<Token> {
        self.lexer.cached()
    }

    /// Constructor of `NTriplesParser` from an input string.
    pub fn from_string(input: &str) -> (r: NTriplesParser)
        ensures
            r.pending() == input@.map_values(|c: char| Some(c)),
            r.cached() is None,
    {
        NTriplesParser { lexer: NTriplesLexer::new(input) }
    }

    /// Constructor of `NTriplesParser` from an input reader.
    pub fn from_reader(input: InputReader) -> (r: NTriplesParser)
        ensures
            r.pending() == input.pending(),
            r.cached() is None,
    {
        NTriplesParser { lexer: NTriplesLexer::from_reader(input) }
    }

    /// Reads all tokens of the input ahead of parsing; an input of
    /// whitespace alone lexes to no tokens and a clean end.
    #[verifier::loop_isolation(false)]
    fn tokenize(&mut self) -> (r: TokenCursor)
        ensures
            ({
                let p = old(self).pending();
                (old(self).cached() is None && prefix_len_skippable(p) == p.len()) ==> r.toks()
                    == Seq::<TokenView>::empty() && r.terminal_kind() is None && r.at() == 0
            }),
            ({
                let p = old(self).pending();
                let w = prefix_len_skippable(p);
                (old(self).cached() is None && w < p.len() && (p[w as int] matches Some(c)
                    && crate::lexer::n_triples_lexer::nt_dispatch_rejects(c))) ==> r.toks()
                    == Seq::<TokenView>::empty() && (r.terminal_kind() matches Some(k) && k
                    is InvalidReaderInput) && r.at() == 0
            }),
    {
        let ghost blank = old(self).cached() is None && prefix_len_skippable(
            old(self).pending(),
        ) == old(self).pending().len();
        let ghost rejected = ({
            let p = old(self).pending();
            let w = prefix_len_skippable(p);
            old(self).cached() is None && w < p.len() && (p[w as int] matches Some(c)
                && crate::lexer::n_triples_lexer::nt_dispatch_rejects(c))
        });
        let mut tokens: Vec<Token> = Vec::new();
        let mut terminal: Option<Error> = None;
        let mut done = false;
        // each round consumes input, so the budget is never exhausted in practice
        let mut rounds_left: usize = usize::MAX;
        while !done && rounds_left > 0
            invariant
                blank ==> tokens@.len() == 0 && terminal is None,
                blank && !done ==> self.cached() is None && prefix_len_skippable(
                    self.pending(),
                ) == self.pending().len() && rounds_left == usize::MAX,
                rejected ==> tokens@.len() == 0,
                rejected && !done ==> terminal is None && *self == *old(self) && rounds_left
                    == usize::MAX,
                rejected && done ==> (match terminal {
                    Some(e) => e.kind() is InvalidReaderInput,
                    None => false,
                }),
            decreases rounds_left,
        {
            rounds_left = rounds_left - 1;
            match self.lexer.get_next_token() {
                Ok(Token::EndOfInput) => {
                    done = true;
                },
                Ok(t) => {
                    tokens.push(t);
                },
                Err(e) => {
                    terminal = Some(e);
                    done = true;
                },
            }
        }
        if !done {
            terminal = Some(
                Error::new(ErrorType::InvalidReaderInput, "Input could not be tokenized."),
            );
        }
        let cursor = TokenCursor::new(tokens, terminal);
        proof {
            if blank || rejected {
                assert(cursor.toks() =~= Seq::<TokenView>::empty());
            }
        }
        cursor
    }

    /// Generates an RDF graph from the N-Triples input: the tokens are read
    /// ahead and handed to `parse_stream`, which carries the exact
    /// token-level contract.
    ///
    /// N-Triples has no directives: the graph comes back without a base URI
    /// and without namespaces.
    pub fn decode(&mut self) -> (r: Result<Graph, Error>)
        ensures
            r is Ok ==> r->Ok_0@.base_uri is None && r->Ok_0@.namespaces == Seq::<
                NamespaceView,
            >::empty(),
            ({
                // a document of whitespace alone decodes to the empty graph
                let p = old(self).pending();
                (old(self).cached() is None && prefix_len_skippable(p) == p.len()) ==> r is Ok
                    && r->Ok_0@.triples == Seq::<TripleView>::empty()
            }),
            ({
                // a document whose first significant character opens no token
                // is refused, whatever follows it
                let p = old(self).pending();
                let w = prefix_len_skippable(p);
                (old(self).cached() is None && w < p.len() && (p[w as int] matches Some(c)
                    && crate::lexer::n_triples_lexer::nt_dispatch_rejects(c))) ==> r is Err
            }),
    {
        let mut cursor = self.tokenize();
        NTriplesParser::parse_stream(&mut cursor)
    }

    /// Parses the token stream into a graph: the graph holds exactly the
    /// triples that the stream yields, in order, and parsing fails exactly
    /// when the stream yields nothing.
    #[verifier::loop_isolation(false)]
    pub fn parse_stream(cursor: &mut TokenCursor) -> (r: Result<Graph, Error>)
        ensures
            ({
                let parsed = nt_parse(
                    old(cursor).toks(),
                    old(cursor).at() as int,
                    old(cursor).terminal_kind() is None,
                );
                match parsed {
                    Some(ts) => r is Ok && r->Ok_0@.triples == ts && r->Ok_0@.base_uri is None
                        && r->Ok_0@.namespaces == Seq::<NamespaceView>::empty(),
                    None => r is Err,
                }
            }),
    {
        let ghost toks = old(cursor).toks();
        let ghost start = old(cursor).at() as int;
        let ghost clean = old(cursor).terminal_kind() is None;
        let mut graph = Graph::new(None);
        proof {
            cursor.lemma_at_bounded();
        }
        loop
            invariant
                graph@.base_uri is None,
                graph@.namespaces == Seq::<NamespaceView>::empty(),
                cursor.toks() == toks,
                cursor.terminal_kind() == old(cursor).terminal_kind(),
                cursor.at() <= toks.len(),
                nt_parse(toks, start, clean) == (match nt_parse(
                    toks,
                    cursor.at() as int,
                    clean,
                ) {
                    Some(rest) => Some(graph@.triples + rest),
                    None => None::<Seq<TripleView>>,
                }),
            decreases cursor.rem(),
        {
            let ghost cur = cursor.at() as int;
            let peeked = match cursor.peek() {
                Ok(t) => t,
                Err(e) => {
                    proof {
                        assert(cur >= toks.len());
                        assert(!clean);
                        assert(nt_parse(toks, start, clean) is None);
                    }
                    return Err(e);
                },
            };
            let mut skip = false;
            match peeked {
                Token::Comment(_) => {
                    let _ = cursor.next();
                    skip = true;
                },
                Token::EndOfInput => {
                    proof {
                        if cur < toks.len() {
                            assert(toks[cur] is EndOfInput);
                        }
                        assert(nt_parse(toks, cur, clean) == Some(Seq::<TripleView>::empty()));
                        assert(graph@.triples + Seq::<TripleView>::empty() =~= graph@.triples);
                    }
                    return Ok(graph);
                },
                _ => {},
            }
            if !skip {
                proof {
                    assert(cur < toks.len());
                    assert(!(toks[cur] is Comment) && !(toks[cur] is EndOfInput));
                }
                match NTriplesParser::read_triple(cursor) {
                    Ok(triple) => {
                        proof {
                            let tv = nt_statement_at(toks, cur)->0;
                            assert(graph@.triples.push(triple@) + nt_parse(
                                toks,
                                cur + 4,
                                clean,
                            )->0 =~= graph@.triples + (seq![tv] + nt_parse(
                                toks,
                                cur + 4,
                                clean,
                            )->0));
                            cursor.lemma_at_bounded();
                        }
                        graph.add_triple(&triple);
                    },
                    Err(_) => {
                        proof {
                            assert(nt_statement_at(toks, cur) is None);
                            assert(nt_parse(toks, start, clean) is None);
                        }
                        return Err(
                            Error::new(
                                ErrorType::InvalidReaderInput,
                                "Error while parsing N-Triples syntax.",
                            ),
                        );
                    },
                }
            }
        }
    }

    /// Creates a triple from the next four tokens: subject, predicate,
    /// object and the statement delimiter.
    fn read_triple(cursor: &mut TokenCursor) -> (r: Result<Triple, Error>)
        ensures
            final(cursor).toks() == old(cursor).toks(),
            final(cursor).at() >= old(cursor).at(),
            r is Ok ==> final(cursor).terminal_kind() == old(cursor).terminal_kind(),
            ({
                let toks = old(cursor).toks();
                let i = old(cursor).at() as int;
                match nt_statement_at(toks, i) {
                    Some(tv) => r is Ok && r->Ok_0@ == tv && final(cursor).at() == i + 4,
                    None => r is Err,
                }
            }),
    {
        let subject = match NTriplesParser::read_subject(cursor) {
            Ok(n) => n,
            Err(e) => {
                return Err(e);
            },
        };
        let predicate = match NTriplesParser::read_predicate(cursor) {
            Ok(n) => n,
            Err(e) => {
                return Err(e);
            },
        };
        let object = match NTriplesParser::read_object(cursor) {
            Ok(n) => n,
            Err(e) => {
                return Err(e);
            },
        };
        match cursor.next() {
            Ok(Token::TripleDelimiter) => {},
            _ => {
                return Err(
                    Error::new(ErrorType::InvalidReaderInput, "Expected triple delimiter."),
                );
            },
        }
        Ok(Triple::new(&subject, &predicate, &object))
    }

    /// Reads the next token as a subject node.
    fn read_subject(cursor: &mut TokenCursor) -> (r: Result<Node, Error>)
        ensures
            final(cursor).toks() == old(cursor).toks(),
            r is Ok ==> final(cursor).terminal_kind() == old(cursor).terminal_kind(),
            old(cursor).at() < old(cursor).toks().len() ==> final(cursor).at() == old(
                cursor,
            ).at() + 1 && (match nt_subject_node(old(cursor).toks()[old(cursor).at() as int]) {
                Some(nv) => r is Ok && r->Ok_0@ == nv,
                None => r is Err && r->Err_0.kind() is InvalidToken,
            }),
            old(cursor).at() >= old(cursor).toks().len() ==> final(cursor).at() == old(
                cursor,
            ).at() && r is Err && r->Err_0.kind() is InvalidToken,
    {
        match cursor.next() {
            Ok(Token::BlankNode(id)) => Ok(Node::BlankNode { id }),
            Ok(Token::Uri(uri)) => Ok(Node::UriNode { uri: Uri::new(uri) }),
            _ => Err(Error::new(ErrorType::InvalidToken, "Invalid token for N-Triples subject.")),
        }
    }

    /// Reads the next token as a predicate node.
    fn read_predicate(cursor: &mut TokenCursor) -> (r: Result<Node, Error>)
        ensures
            final(cursor).toks() == old(cursor).toks(),
            r is Ok ==> final(cursor).terminal_kind() == old(cursor).terminal_kind(),
            old(cursor).at() < old(cursor).toks().len() ==> final(cursor).at() == old(
                cursor,
            ).at() + 1 && (match nt_predicate_node(old(cursor).toks()[old(cursor).at() as int]) {
                Some(nv) => r is Ok && r->Ok_0@ == nv,
                None => r is Err && r->Err_0.kind() is InvalidToken,
            }),
            old(cursor).at() >= old(cursor).toks().len() ==> final(cursor).at() == old(
                cursor,
            ).at() && r is Err && r->Err_0.kind() is InvalidToken,
    {
        match cursor.next() {
            Ok(Token::Uri(uri)) => Ok(Node::UriNode { uri: Uri::new(uri) }),
            _ => Err(
                Error::new(ErrorType::InvalidToken, "Invalid token for N-Triples predicate."),
            ),
        }
    }

    /// Reads the next token as an object node.
    fn read_object(cursor: &mut TokenCursor) -> (r: Result<Node, Error>)
        ensures
            final(cursor).toks() == old(cursor).toks(),
            r is Ok ==> final(cursor).terminal_kind() == old(cursor).terminal_kind(),
            old(cursor).at() < old(cursor).toks().len() ==> final(cursor).at() == old(
                cursor,
            ).at() + 1 && (match nt_object_node(old(cursor).toks()[old(cursor).at() as int]) {
                Some(nv) => r is Ok && r->Ok_0@ == nv,
                None => r is Err && r->Err_0.kind() is InvalidToken,
            }),
            old(cursor).at() >= old(cursor).toks().len() ==> final(cursor).at() == old(
                cursor,
            ).at() && r is Err && r->Err_0.kind() is InvalidToken,
    {
        match cursor.next() {
            Ok(Token::BlankNode(id)) => Ok(Node::BlankNode { id }),
            Ok(Token::Uri(uri)) => Ok(Node::UriNode { uri: Uri::new(uri) }),
            Ok(Token::LiteralWithLanguageSpecification(literal, lang)) => Ok(
                Node::LiteralNode { literal, data_type: None, language: Some(lang) },
            ),
            Ok(Token::LiteralWithUrlDatatype(literal, datatype)) => Ok(
                Node::LiteralNode {
                    literal,
                    data_type: Some(Uri::new(datatype)),
                    language: None,
                },
            ),
            Ok(Token::Literal(literal)) => Ok(
                Node::LiteralNode { literal, data_type: None, language: None },
            ),
            _ => Err(Error::new(ErrorType::InvalidToken, "Invalid token for N-Triples object.")),
        }
    }
}

} // verus!
