use vstd::prelude::*;

use crate::error::{Error, ErrorType};
use crate::graph::Graph;
use crate::helper::{colon_to_slash, replace_colons};
use crate::lexer::token::{Token, TokenView};
use crate::lexer::rules::opens_base_or_prefix;
use crate::lexer::turtle_lexer::TurtleLexer;
use crate::namespace::{find_prefix_idx, Namespace, NamespaceView};
use crate::node::{Node, NodeView};
use crate::reader::input_reader::{prefix_len_skippable, InputChar, InputReader};
use crate::reader::token_cursor::TokenCursor;
use crate::specs::rdf_syntax_specs::{spec_rdf_term_str, RdfSyntaxDataTypes};
use crate::triple::{Triple, TripleView};
use crate::uri::Uri;

verus! {

/// What a Turtle token stream settles up to its first statement.
pub enum DirectiveOutcome {
    /// Only comments and directives stand before a clean end: the base URI
    /// and the namespace bindings they set, on an otherwise empty graph.
    Settled(Option<Seq<char>>, Seq<NamespaceView>),
    /// A statement begins: the stream parses on beyond the directives.
    Statements,
    /// A malformed directive, a misplaced token, or an end that the lexing
    /// reached with an error.
    Failed,
}

/// Folds the comments and directives at the front of the token stream: a
/// base directive (with its closing delimiter) sets the base URI, a prefix
/// directive binds its namespace (overwriting a bound prefix in place),
/// and the first statement-starting token ends the fold.
pub open spec fn tt_directives(
    toks: Seq<TokenView>,
    i: int,
    clean_end: bool,
    base: Option<Seq<char>>,
    ns: Seq<NamespaceView>,
) -> DirectiveOutcome
    decreases toks.len() - i,
{
    if i < 0 || i >= toks.len() {
        if clean_end {
            DirectiveOutcome::Settled(base, ns)
        } else {
            DirectiveOutcome::Failed
        }
    } else {
        match toks[i] {
            TokenView::Comment(_) => tt_directives(toks, i + 1, clean_end, base, ns),
            TokenView::EndOfInput => DirectiveOutcome::Settled(base, ns),
            TokenView::BaseDirective(u) => if i + 2 <= toks.len() && toks[i + 1]
                is TripleDelimiter {
                tt_directives(toks, i + 2, clean_end, Some(u), ns)
            } else {
                DirectiveOutcome::Failed
            },
            TokenView::PrefixDirective(p, u) => if i + 2 <= toks.len() && toks[i + 1]
                is TripleDelimiter {
                let nsv = NamespaceView { prefix: p, uri: u };
                let k = find_prefix_idx(ns, p);
                let ns2 = if k < ns.len() {
                    ns.update(k as int, nsv)
                } else {
                    ns.push(nsv)
                };
                tt_directives(toks, i + 2, clean_end, base, ns2)
            } else {
                DirectiveOutcome::Failed
            },
            TokenView::Uri(_) => DirectiveOutcome::Statements,
            TokenView::BlankNode(_) => DirectiveOutcome::Statements,
            TokenView::QName(_, _) => DirectiveOutcome::Statements,
            TokenView::CollectionStart => DirectiveOutcome::Statements,
            TokenView::UnlabeledBlankNodeStart => DirectiveOutcome::Statements,
            _ => DirectiveOutcome::Failed,
        }
    }
}

/// The node a namespace-free, non-nesting object token stands for: a URI,
/// a blank node, or one of the literal forms.
pub open spec fn tt_flat_object(t: TokenView) -> Option<NodeView> {
    crate::reader::n_triples_parser::nt_object_node(t)
}

/// The node a namespace-free subject token stands for: a URI or a blank
/// node.
pub open spec fn tt_flat_subject(t: TokenView) -> Option<NodeView> {
    crate::reader::n_triples_parser::nt_subject_node(t)
}

/// The node a namespace-free predicate token stands for: a URI, the `a`
/// shorthand for `rdf:type`, or a blank node.
pub open spec fn tt_flat_predicate(t: TokenView) -> Option<NodeView> {
    match t {
        TokenView::Uri(uri) => Some(NodeView::Uri { uri }),
        TokenView::KeywordA => Some(
            NodeView::Uri { uri: spec_rdf_term_str(RdfSyntaxDataTypes::A) },
        ),
        TokenView::BlankNode(id) => Some(NodeView::Blank { id }),
        _ => None,
    }
}

/// The position of the first statement-starting token after the comments
/// and directives at the front of the stream, with the base URI and the
/// namespaces those directives settle; nothing when the stream ends or
/// fails before a statement.
pub open spec fn tt_directive_prefix(
    toks: Seq<TokenView>,
    i: int,
    base: Option<Seq<char>>,
    ns: Seq<NamespaceView>,
) -> Option<(int, Option<Seq<char>>, Seq<NamespaceView>)>
    decreases toks.len() - i,
{
    if i < 0 || i >= toks.len() {
        None
    } else {
        match toks[i] {
            TokenView::Comment(_) => tt_directive_prefix(toks, i + 1, base, ns),
            TokenView::EndOfInput => None,
            TokenView::BaseDirective(u) => if i + 2 <= toks.len() && toks[i + 1]
                is TripleDelimiter {
                tt_directive_prefix(toks, i + 2, Some(u), ns)
            } else {
                None
            },
            TokenView::PrefixDirective(p, u) => if i + 2 <= toks.len() && toks[i + 1]
                is TripleDelimiter {
                let nsv = NamespaceView { prefix: p, uri: u };
                let k = find_prefix_idx(ns, p);
                let ns2 = if k < ns.len() {
                    ns.update(k as int, nsv)
                } else {
                    ns.push(nsv)
                };
                tt_directive_prefix(toks, i + 2, base, ns2)
            } else {
                None
            },
            TokenView::Uri(_) => Some((i, base, ns)),
            TokenView::BlankNode(_) => Some((i, base, ns)),
            TokenView::QName(_, _) => Some((i, base, ns)),
            TokenView::CollectionStart => Some((i, base, ns)),
            TokenView::UnlabeledBlankNodeStart => Some((i, base, ns)),
            _ => None,
        }
    }
}

/// RDF parser that generates an RDF graph from Turtle syntax.
pub struct TurtleParser {
    lexer: TurtleLexer,
}

impl TurtleParser {
    /// The characters still to be read.
    pub closed spec fn pending(&self) -> Seq<InputChar> {
        self.lexer.pending()
    }

    /// The token read ahead and not yet consumed, if any.
    pub closed spec fn cached(&self) -> Option<Token> {
        self.lexer.cached()
    }

    /// How many of the pending characters were read ahead.
    pub closed spec fn buffered_len(&self) -> nat {
        self.lexer.buffered_len()
    }

    /// Constructor of `TurtleParser` from an input string.
    pub fn from_string(input: &str) -> (r: TurtleParser)
        ensures
            r.pending() == input@.map_values(|c: char| Some(c)),
            r.cached() is None,
            r.buffered_len() == 0,
    {
        TurtleParser { lexer: TurtleLexer::new(input) }
    }

    /// Constructor of `TurtleParser` from an input reader.
    pub fn from_reader(input: InputReader) -> (r: TurtleParser)
        ensures
            r.pending() == input.pending(),
            r.cached() is None,
    {
        TurtleParser { lexer: TurtleLexer::from_reader(input) }
    }

    /// Reads all tokens of the input ahead of parsing; an input of
    /// whitespace alone lexes to no tokens and a clean end.
    #[verifier::loop_isolation(false)]
    fn tokenize(&mut self) -> (r: TokenCursor)
        ensures
            ({
                let p = old(self).pending();
                (old(self).cached() is None && prefix_len_skippable(p) == p.len()) ==> r.toks()
                    == Seq::<TokenView>::empty() && r.terminal_kind() is None && r.at() == 0
            }),
            ({
                let p = old(self).pending();
                let w = prefix_len_skippable(p);
                let rest = p.skip(w + 1 as int);
                (old(self).cached() is None && old(self).buffered_len() == 0 && w < p.len()
                    && p[w as int] == Some('@') && (rest.len() == 0 || !opens_base_or_prefix(
                    rest[0],
                ))) ==> r.toks() == Seq::<TokenView>::empty() && (r.terminal_kind() matches
                    Some(k) && k is InvalidReaderInput) && r.at() == 0
            }),
    {
        let ghost blank = old(self).cached() is None && prefix_len_skippable(
            old(self).pending(),
        ) == old(self).pending().len();
        let ghost rejected = ({
            let p = old(self).pending();
            let w = prefix_len_skippable(p);
            let rest = p.skip(w + 1 as int);
            old(self).cached() is None && old(self).buffered_len() == 0 && w < p.len()
                && p[w as int] == Some('@') && (rest.len() == 0 || !opens_base_or_prefix(
                rest[0],
            ))
        });
        let mut tokens: Vec<Token> = Vec::new();
        let mut terminal: Option<Error> = None;
        let mut done = false;
        // each round consumes input, so the budget is never exhausted in practice
        let mut rounds_left: usize = usize::MAX;
        while !done && rounds_left > 0
            invariant
                blank ==> tokens@.len() == 0 && terminal is None,
                blank && !done ==> self.cached() is None && prefix_len_skippable(
                    self.pending(),
                ) == self.pending().len() && rounds_left == usize::MAX,
                rejected ==> tokens@.len() == 0,
                rejected && !done ==> terminal is None && *self == *old(self) && rounds_left
                    == usize::MAX,
                rejected && done ==> (match terminal {
                    Some(e) => e.kind() is InvalidReaderInput,
                    None => false,
                }),
            decreases rounds_left,
        {
            rounds_left = rounds_left - 1;
            match self.lexer.get_next_token() {
                Ok(Token::EndOfInput) => {
                    done = true;
                },
                Ok(t) => {
                    tokens.push(t);
                },
                Err(e) => {
                    terminal = Some(e);
                    done = true;
                },
            }
        }
        if !done {
            terminal = Some(
                Error::new(ErrorType::InvalidReaderInput, "Input could not be tokenized."),
            );
        }
        let cursor = TokenCursor::new(tokens, terminal);
        proof {
            if blank || rejected {
                assert(cursor.toks() =~= Seq::<TokenView>::empty());
            }
        }
        cursor
    }

    /// Generates an RDF graph from the Turtle input: directives set the
    /// base URI and the namespaces, statements add triples. The tokens are
    /// read ahead and handed to `parse_stream`, which carries the
    /// token-level contract.
    pub fn decode(&mut self) -> (r: Result<Graph, Error>)
        ensures
            ({
                // a document of whitespace alone decodes to the empty graph
                let p = old(self).pending();
                (old(self).cached() is None && prefix_len_skippable(p) == p.len()) ==> r is Ok
                    && r->Ok_0@.base_uri is None && r->Ok_0@.namespaces == Seq::<
                    NamespaceView,
                >::empty() && r->Ok_0@.triples == Seq::<TripleView>::empty()
            }),
            ({
                // a document whose first significant character is `@` with no
                // base or prefix word after it is refused, whatever follows
                let p = old(self).pending();
                let w = prefix_len_skippable(p);
                let rest = p.skip(w + 1 as int);
                (old(self).cached() is None && old(self).buffered_len() == 0 && w < p.len()
                    && p[w as int] == Some('@') && (rest.len() == 0 || !opens_base_or_prefix(
                    rest[0],
                ))) ==> r is Err
            }),
    {
        let mut cursor = self.tokenize();
        TurtleParser::parse_stream(&mut cursor)
    }

    /// Parses the token stream into a graph. A stream of comments and
    /// directives alone yields exactly the graph they settle; a misplaced
    /// token, a directive without its delimiter, or an unclean end fails.
    #[verifier::loop_isolation(false)]
    pub fn parse_stream(cursor: &mut TokenCursor) -> (r: Result<Graph, Error>)
        ensures
            ({
                let clean = match old(cursor).terminal_kind() {
                    None => true,
                    Some(k) => k is EndOfInput,
                };
                let outcome = tt_directives(
                    old(cursor).toks(),
                    old(cursor).at() as int,
                    clean,
                    None,
                    Seq::empty(),
                );
                &&& (outcome matches DirectiveOutcome::Settled(base, ns) ==> r is Ok
                    && r->Ok_0@.base_uri == base && r->Ok_0@.namespaces == ns
                    && r->Ok_0@.triples == Seq::<TripleView>::empty() && r->Ok_0@.next_id == 0)
                &&& (outcome is Failed ==> r is Err)
                &&& ({
                    // directives, one plain statement, and a clean end yield
                    // exactly the settled graph with that one triple
                    let prefix = tt_directive_prefix(
                        old(cursor).toks(),
                        old(cursor).at() as int,
                        None,
                        Seq::empty(),
                    );
                    let toks = old(cursor).toks();
                    prefix matches Some((s, b, ns)) ==> ((s + 4 == toks.len()
                        && tt_flat_subject(toks[s]) is Some && tt_flat_predicate(toks[s + 1])
                        is Some && tt_flat_object(toks[s + 2]) is Some && toks[s + 3]
                        is TripleDelimiter && clean) ==> (r is Ok && r->Ok_0@.base_uri == b
                        && r->Ok_0@.namespaces == ns && r->Ok_0@.triples == seq![
                        TripleView {
                            subject: tt_flat_subject(toks[s])->0,
                            predicate: tt_flat_predicate(toks[s + 1])->0,
                            object: tt_flat_object(toks[s + 2])->0,
                        },
                    ] && r->Ok_0@.next_id == 0))
                })
            }),
    {
        let ghost toks = old(cursor).toks();
        let ghost start = old(cursor).at() as int;
        let ghost clean = match old(cursor).terminal_kind() {
            None => true,
            Some(k) => k is EndOfInput,
        };
        let ghost whole = tt_directives(toks, start, clean, None, Seq::empty());
        let ghost prefix = tt_directive_prefix(toks, start, None, Seq::empty());
        let ghost lone = prefix matches Some((s, b, ns)) && s + 4 == toks.len()
            && tt_flat_subject(toks[s]) is Some && tt_flat_predicate(toks[s + 1]) is Some
            && tt_flat_object(toks[s + 2]) is Some && toks[s + 3] is TripleDelimiter && clean;
        let mut graph = Graph::new(None);
        let ghost mut stmt: bool = false;
        proof {
            cursor.lemma_at_bounded();
        }
        loop
            invariant
                cursor.toks() == toks,
                cursor.at() <= toks.len(),
                whole == tt_directives(toks, start, clean, None, Seq::empty()),
                stmt ==> whole is Statements,
                !stmt ==> cursor.terminal_kind() == old(cursor).terminal_kind(),
                !stmt ==> graph@.triples == Seq::<TripleView>::empty(),
                !stmt ==> graph@.next_id == 0,
                !stmt ==> whole == tt_directives(
                    toks,
                    cursor.at() as int,
                    clean,
                    graph@.base_uri,
                    graph@.namespaces,
                ),
                !stmt ==> prefix == tt_directive_prefix(
                    toks,
                    cursor.at() as int,
                    graph@.base_uri,
                    graph@.namespaces,
                ),
                lone && stmt ==> cursor.terminal_kind() == old(cursor).terminal_kind(),
                lone && stmt ==> ({
                    let tpl = prefix->0;
                    let s = tpl.0;
                    &&& cursor.at() as int == s + 4
                    &&& graph@.base_uri == tpl.1
                    &&& graph@.namespaces == tpl.2
                    &&& graph@.next_id == 0
                    &&& graph@.triples == seq![
                        TripleView {
                            subject: tt_flat_subject(toks[s])->0,
                            predicate: tt_flat_predicate(toks[s + 1])->0,
                            object: tt_flat_object(toks[s + 2])->0,
                        },
                    ]
                }),
            decreases cursor.rem(),
        {
            let ghost cur = cursor.at() as int;
            let peeked = match cursor.peek() {
                Ok(t) => t,
                Err(err) => {
                    proof {
                        if !stmt {
                            assert(cur >= toks.len());
                        }
                    }
                    match err.error_type() {
                        ErrorType::EndOfInput(_) => {
                            proof {
                                if !stmt {
                                    assert(clean);
                                    assert(whole == DirectiveOutcome::Settled(
                                        graph@.base_uri,
                                        graph@.namespaces,
                                    ));
                                }
                            }
                            return Ok(graph);
                        },
                        _ => {
                            proof {
                                if !stmt {
                                    assert(!clean);
                                    assert(whole is Failed);
                                }
                            }
                            return Err(
                                Error::new(
                                    ErrorType::InvalidReaderInput,
                                    "Error while parsing Turtle syntax.",
                                ),
                            );
                        },
                    }
                },
            };
            match peeked {
                Token::Comment(_) => {
                    let _ = cursor.next();
                },
                Token::EndOfInput => {
                    proof {
                        if !stmt {
                            if cur < toks.len() {
                                assert(toks[cur] is EndOfInput);
                            }
                            assert(whole == DirectiveOutcome::Settled(
                                graph@.base_uri,
                                graph@.namespaces,
                            ));
                        }
                    }
                    return Ok(graph);
                },
                Token::BaseDirective(_) => {
                    proof {
                        assert(cur < toks.len() && toks[cur] is BaseDirective);
                    }
                    let base_uri = match TurtleParser::read_base_directive(cursor) {
                        Ok(u) => u,
                        Err(e) => {
                            proof {
                                if !stmt {
                                    assert(whole is Failed);
                                }
                            }
                            return Err(e);
                        },
                    };
                    graph.set_base_uri(&base_uri);
                },
                Token::PrefixDirective(_, _) => {
                    proof {
                        assert(cur < toks.len() && toks[cur] is PrefixDirective);
                    }
                    let namespace = match TurtleParser::read_prefix_directive(cursor) {
                        Ok(ns) => ns,
                        Err(e) => {
                            proof {
                                if !stmt {
                                    assert(whole is Failed);
                                }
                            }
                            return Err(e);
                        },
                    };
                    graph.add_namespace(&namespace);
                },
                Token::Uri(_) | Token::BlankNode(_) | Token::QName(_, _)
                    | Token::CollectionStart | Token::UnlabeledBlankNodeStart => {
                    let ghost was_fresh = !stmt;
                    proof {
                        if !stmt {
                            assert(cur < toks.len());
                            assert(whole is Statements);
                            assert(tt_directive_prefix(
                                toks,
                                cur,
                                graph@.base_uri,
                                graph@.namespaces,
                            ) == Some((cur, graph@.base_uri, graph@.namespaces)));
                            stmt = true;
                        }
                        if lone && !was_fresh {
                            let tpl = prefix->0;
                            assert(cursor.at() as int == tpl.0 + 4);
                            assert(false);
                        }
                    }
                    let ghost pre_triples = graph@.triples;
                    let triples = match TurtleParser::read_triples(cursor, &mut graph) {
                        Ok(ts) => ts,
                        Err(e) => {
                            return Err(e);
                        },
                    };
                    proof {
                        cursor.lemma_at_bounded();
                    }
                    graph.add_triples(triples.as_slice());
                    proof {
                        if lone && was_fresh {
                            let tpl = prefix->0;
                            let st = tpl.0;
                            assert(cur == st);
                            assert(graph@.triples =~= pre_triples + seq![
                                TripleView {
                                    subject: tt_flat_subject(toks[st])->0,
                                    predicate: tt_flat_predicate(toks[st + 1])->0,
                                    object: tt_flat_object(toks[st + 2])->0,
                                },
                            ]);
                            assert(pre_triples =~= Seq::<TripleView>::empty());
                            assert(graph@.triples =~= seq![
                                TripleView {
                                    subject: tt_flat_subject(toks[st])->0,
                                    predicate: tt_flat_predicate(toks[st + 1])->0,
                                    object: tt_flat_object(toks[st + 2])->0,
                                },
                            ]);
                        }
                    }
                },
                _ => {
                    proof {
                        if !stmt {
                            assert(cur < toks.len());
                            assert(whole is Failed);
                        }
                    }
                    return Err(
                        Error::new(
                            ErrorType::InvalidToken,
                            "Invalid token while parsing Turtle syntax.",
                        ),
                    );
                },
            }
        }
    }

    /// Reads a base directive and its closing statement delimiter; returns
    /// the base URI.
    fn read_base_directive(cursor: &mut TokenCursor) -> (r: Result<Uri, Error>)
        ensures
            final(cursor).toks() == old(cursor).toks(),
            final(cursor).at() >= old(cursor).at(),
            r is Ok ==> final(cursor).terminal_kind() == old(cursor).terminal_kind(),
            ({
                let toks = old(cursor).toks();
                let i = old(cursor).at() as int;
                &&& (r is Ok ==> i + 2 <= toks.len() && (toks[i] matches
                    TokenView::BaseDirective(u) && r->Ok_0@ == u) && toks[i + 1]
                    is TripleDelimiter && final(cursor).at() == i + 2)
                &&& (i + 2 <= toks.len() && toks[i] is BaseDirective && toks[i + 1]
                    is TripleDelimiter ==> r is Ok)
            }),
    {
        let first = match cursor.next() {
            Ok(t) => t,
            Err(e) => {
                return Err(e);
            },
        };
        match first {
            Token::BaseDirective(uri) => {
                let second = match cursor.next() {
                    Ok(t) => t,
                    Err(e) => {
                        return Err(e);
                    },
                };
                match second {
                    Token::TripleDelimiter => Ok(Uri::new(uri)),
                    _ => Err(
                        Error::new(
                            ErrorType::InvalidReaderInput,
                            "Turtle base directive does not end with '.'",
                        ),
                    ),
                }
            },
            _ => Err(
                Error::new(
                    ErrorType::InvalidReaderInput,
                    "Invalid input for Turtle base directive.",
                ),
            ),
        }
    }

    /// Reads a prefix directive and its closing statement delimiter;
    /// returns the namespace it binds.
    fn read_prefix_directive(cursor: &mut TokenCursor) -> (r: Result<Namespace, Error>)
        ensures
            final(cursor).toks() == old(cursor).toks(),
            final(cursor).at() >= old(cursor).at(),
            r is Ok ==> final(cursor).terminal_kind() == old(cursor).terminal_kind(),
            ({
                let toks = old(cursor).toks();
                let i = old(cursor).at() as int;
                &&& (r is Ok ==> i + 2 <= toks.len() && (toks[i] matches
                    TokenView::PrefixDirective(p, u) && r->Ok_0@.prefix == p && r->Ok_0@.uri
                    == u) && toks[i + 1] is TripleDelimiter && final(cursor).at() == i + 2)
                &&& (i + 2 <= toks.len() && toks[i] is PrefixDirective && toks[i + 1]
                    is TripleDelimiter ==> r is Ok)
            }),
    {
        let first = match cursor.next() {
            Ok(t) => t,
            Err(e) => {
                return Err(e);
            },
        };
        match first {
            Token::PrefixDirective(prefix, uri) => {
                let second = match cursor.next() {
                    Ok(t) => t,
                    Err(e) => {
                        return Err(e);
                    },
                };
                match second {
                    Token::TripleDelimiter => Ok(Namespace::new(prefix, Uri::new(uri))),
                    _ => Err(
                        Error::new(
                            ErrorType::InvalidReaderInput,
                            "Turtle prefix directive does not end with '.'",
                        ),
                    ),
                }
            },
            _ => Err(
                Error::new(ErrorType::InvalidReaderInput, "Invalid input for Turtle prefix."),
            ),
        }
    }

    /// Reads one statement: a subject and its full predicate-object list.
    fn read_triples(cursor: &mut TokenCursor, graph: &mut Graph) -> (r: Result<Vec<Triple>, Error>)
        ensures
            final(cursor).toks() == old(cursor).toks(),
            final(cursor).at() >= old(cursor).at(),
            r is Ok ==> final(cursor).terminal_kind() == old(cursor).terminal_kind(),
            final(graph)@.base_uri == old(graph)@.base_uri,
            final(graph)@.namespaces == old(graph)@.namespaces,
            old(graph)@.triples.is_prefix_of(final(graph)@.triples),
            r is Ok ==> final(cursor).at() > old(cursor).at(),
            ({
                // the least statement is owed its success: a plain subject and
                // one plain pair closed by the delimiter yield its one triple
                let toks = old(cursor).toks();
                let i = old(cursor).at() as int;
                (i + 4 <= toks.len() && tt_flat_subject(toks[i]) is Some && tt_flat_predicate(
                    toks[i + 1],
                ) is Some && tt_flat_object(toks[i + 2]) is Some && toks[i + 3]
                    is TripleDelimiter) ==> r is Ok && final(cursor).at() == i + 4 && *final(graph) == *old(graph) && r->Ok_0@.len() == 1 && r->Ok_0@[0]@ == (TripleView {
                    subject: tt_flat_subject(toks[i])->0,
                    predicate: tt_flat_predicate(toks[i + 1])->0,
                    object: tt_flat_object(toks[i + 2])->0,
                })
            }),
    {
        let subject = match TurtleParser::read_subject(cursor, graph) {
            Ok(s) => s,
            Err(e) => {
                return Err(e);
            },
        };
        TurtleParser::read_predicate_object_list(cursor, &subject, graph)
    }

    /// Reads the next token as a subject node; a collection or an
    /// anonymous node opens its nested statements.
    fn read_subject(cursor: &mut TokenCursor, graph: &mut Graph) -> (r: Result<Node, Error>)
        ensures
            final(cursor).toks() == old(cursor).toks(),
            final(cursor).at() >= old(cursor).at(),
            r is Ok ==> final(cursor).terminal_kind() == old(cursor).terminal_kind(),
            final(graph)@.base_uri == old(graph)@.base_uri,
            final(graph)@.namespaces == old(graph)@.namespaces,
            old(graph)@.triples.is_prefix_of(final(graph)@.triples),
            r is Ok ==> final(cursor).at() > old(cursor).at(),
            ({
                let toks = old(cursor).toks();
                let i = old(cursor).at() as int;
                &&& (i < toks.len() ==> (toks[i] matches TokenView::BlankNode(id) ==> r
                    is Ok && r->Ok_0@ == (NodeView::Blank { id }) && final(cursor).at() == i + 1
                    && *final(graph) == *old(graph)))
                &&& (i < toks.len() ==> (toks[i] matches TokenView::Uri(uri) ==> r is Ok
                    && r->Ok_0@ == (NodeView::Uri { uri }) && final(cursor).at() == i + 1
                    && *final(graph) == *old(graph)))
                &&& (i < toks.len() ==> (toks[i] matches TokenView::QName(prefix, path)
                    ==> final(cursor).at() == i + 1 && *final(graph) == *old(graph) && ({
                    let k = find_prefix_idx(old(graph)@.namespaces, prefix);
                    if k < old(graph)@.namespaces.len() {
                        r is Ok && r->Ok_0@ == (NodeView::Uri {
                            uri: old(graph)@.namespaces[k as int].uri + replace_colons(path),
                        })
                    } else {
                        r is Err && r->Err_0.kind() is InvalidNamespace
                    }
                })))
            }),
        decreases cursor.rem(), 6int,
    {
        let token = match cursor.next() {
            Ok(t) => t,
            Err(e) => {
                return Err(e);
            },
        };
        match token {
            Token::BlankNode(id) => Ok(Node::BlankNode { id }),
            Token::QName(prefix, path) => {
                let mut uri = match graph.get_namespace_uri_by_prefix(prefix.as_str()) {
                    Ok(u) => u.clone(),
                    Err(e) => {
                        return Err(e);
                    },
                };
                let replaced = colon_to_slash(&path);
                uri.append_resource_path(replaced.as_str());
                Ok(Node::UriNode { uri })
            },
            Token::Uri(uri) => Ok(Node::UriNode { uri: Uri::new(uri) }),
            Token::CollectionStart => TurtleParser::read_collection(cursor, graph),
            Token::UnlabeledBlankNodeStart => TurtleParser::read_unlabeled_blank_node(
                cursor,
                graph,
            ),
            _ => Err(Error::new(ErrorType::InvalidToken, "Invalid token for Turtle subject.")),
        }
    }

    /// Reads one pair of predicate and object, and every further pair or
    /// object that `;` and `,` introduce; all the triples share the given
    /// subject.
    #[verifier::loop_isolation(false)]
    fn read_predicate_object_list(
        cursor: &mut TokenCursor,
        subject: &Node,
        graph: &mut Graph,
    ) -> (r: Result<Vec<Triple>, Error>)
        ensures
            final(cursor).toks() == old(cursor).toks(),
            final(cursor).at() >= old(cursor).at(),
            r is Ok ==> final(cursor).terminal_kind() == old(cursor).terminal_kind(),
            final(graph)@.base_uri == old(graph)@.base_uri,
            final(graph)@.namespaces == old(graph)@.namespaces,
            old(graph)@.triples.is_prefix_of(final(graph)@.triples),
            r is Ok ==> final(cursor).at() > old(cursor).at(),
            r is Ok ==> forall|k: int| 0 <= k < r->Ok_0@.len() ==> (#[trigger] r->Ok_0@[
                k
            ])@.subject == subject@,
            ({
                // the least statement is owed its success: one plain
                // predicate-object pair closed by the statement delimiter
                // yields exactly that one triple
                let toks = old(cursor).toks();
                let i = old(cursor).at() as int;
                (i + 3 <= toks.len() && tt_flat_predicate(toks[i]) is Some && tt_flat_object(
                    toks[i + 1],
                ) is Some && (toks[i + 2] is TripleDelimiter || toks[i + 2]
                    is UnlabeledBlankNodeEnd)) ==> r is Ok && final(cursor).at()
                    == i + 3 && *final(graph) == *old(graph) && r->Ok_0@.len() == 1 && r->Ok_0@[
                    0
                ]@ == (TripleView {
                    subject: subject@,
                    predicate: tt_flat_predicate(toks[i])->0,
                    object: tt_flat_object(toks[i + 1])->0,
                })
            }),
            ({
                // a second pair after a semicolon starts a new predicate for
                // the same subject: the statement yields exactly its two
                // triples, in source order
                let toks = old(cursor).toks();
                let i = old(cursor).at() as int;
                (i + 6 <= toks.len() && tt_flat_predicate(toks[i]) is Some && tt_flat_object(
                    toks[i + 1],
                ) is Some && toks[i + 2] is PredicateListDelimiter && tt_flat_predicate(
                    toks[i + 3],
                ) is Some && tt_flat_object(toks[i + 4]) is Some && toks[i + 5]
                    is TripleDelimiter) ==> r is Ok && final(cursor).at() == i + 6 && *final(graph) == *old(graph) && r->Ok_0@.len() == 2 && r->Ok_0@[0]@ == (TripleView {
                    subject: subject@,
                    predicate: tt_flat_predicate(toks[i])->0,
                    object: tt_flat_object(toks[i + 1])->0,
                }) && r->Ok_0@[1]@ == (TripleView {
                    subject: subject@,
                    predicate: tt_flat_predicate(toks[i + 3])->0,
                    object: tt_flat_object(toks[i + 4])->0,
                })
            }),
            ({
                // a second object after a comma repeats the predicate: the
                // statement yields exactly its two triples, in source order
                let toks = old(cursor).toks();
                let i = old(cursor).at() as int;
                (i + 5 <= toks.len() && tt_flat_predicate(toks[i]) is Some && tt_flat_object(
                    toks[i + 1],
                ) is Some && toks[i + 2] is ObjectListDelimiter && tt_flat_object(toks[i + 3])
                    is Some && toks[i + 4] is TripleDelimiter) ==> r is Ok && final(cursor).at()
                    == i + 5 && *final(graph) == *old(graph) && r->Ok_0@.len() == 2 && r->Ok_0@[
                    0
                ]@ == (TripleView {
                    subject: subject@,
                    predicate: tt_flat_predicate(toks[i])->0,
                    object: tt_flat_object(toks[i + 1])->0,
                }) && r->Ok_0@[1]@ == (TripleView {
                    subject: subject@,
                    predicate: tt_flat_predicate(toks[i])->0,
                    object: tt_flat_object(toks[i + 3])->0,
                })
            }),
        decreases cursor.rem(), 4int,
    {
        let ghost toks = cursor.toks();
        let ghost entry = cursor.at() as int;
        let ghost single = entry + 3 <= toks.len() && tt_flat_predicate(toks[entry]) is Some
            && tt_flat_object(toks[entry + 1]) is Some && (toks[entry + 2] is TripleDelimiter
            || toks[entry + 2] is UnlabeledBlankNodeEnd);
        let ghost chained = entry + 6 <= toks.len() && tt_flat_predicate(toks[entry]) is Some
            && tt_flat_object(toks[entry + 1]) is Some && toks[entry + 2]
            is PredicateListDelimiter && tt_flat_predicate(toks[entry + 3]) is Some
            && tt_flat_object(toks[entry + 4]) is Some && toks[entry + 5] is TripleDelimiter;
        let ghost listed = entry + 5 <= toks.len() && tt_flat_predicate(toks[entry]) is Some
            && tt_flat_object(toks[entry + 1]) is Some && toks[entry + 2]
            is ObjectListDelimiter && tt_flat_object(toks[entry + 3]) is Some && toks[entry + 4]
            is TripleDelimiter;
        let mut triples: Vec<Triple> = Vec::new();
        let (predicate, object) = match TurtleParser::read_predicate_with_object(cursor, graph) {
            Ok(po) => po,
            Err(e) => {
                return Err(e);
            },
        };
        triples.push(Triple::new(subject, &predicate, &object));
        loop
            invariant
                cursor.toks() == old(cursor).toks(),
                cursor.at() > old(cursor).at(),
                cursor.terminal_kind() == old(cursor).terminal_kind(),
                graph@.base_uri == old(graph)@.base_uri,
                graph@.namespaces == old(graph)@.namespaces,
                old(graph)@.triples.is_prefix_of(graph@.triples),
                forall|k: int| 0 <= k < triples@.len() ==> (#[trigger] triples@[k])@.subject
                    == subject@,
                single ==> cursor.at() as int == entry + 2 && *graph == *old(graph)
                    && triples@.len() == 1 && triples@[0]@ == (TripleView {
                    subject: subject@,
                    predicate: tt_flat_predicate(toks[entry])->0,
                    object: tt_flat_object(toks[entry + 1])->0,
                }),
                chained ==> *graph == *old(graph) && triples@[0]@ == (TripleView {
                    subject: subject@,
                    predicate: tt_flat_predicate(toks[entry])->0,
                    object: tt_flat_object(toks[entry + 1])->0,
                }) && ((cursor.at() as int == entry + 2 && triples@.len() == 1) || (cursor.at()
                    as int == entry + 5 && triples@.len() == 2 && triples@[1]@ == (TripleView {
                    subject: subject@,
                    predicate: tt_flat_predicate(toks[entry + 3])->0,
                    object: tt_flat_object(toks[entry + 4])->0,
                }))),
                listed ==> *graph == *old(graph) && triples@[0]@ == (TripleView {
                    subject: subject@,
                    predicate: tt_flat_predicate(toks[entry])->0,
                    object: tt_flat_object(toks[entry + 1])->0,
                }) && ((cursor.at() as int == entry + 2 && triples@.len() == 1) || (cursor.at()
                    as int == entry + 4 && triples@.len() == 2 && triples@[1]@ == (TripleView {
                    subject: subject@,
                    predicate: tt_flat_predicate(toks[entry])->0,
                    object: tt_flat_object(toks[entry + 3])->0,
                }))),
            decreases cursor.rem(),
        {
            let token = match cursor.next() {
                Ok(t) => t,
                Err(e) => {
                    return Err(e);
                },
            };
            match token {
                Token::TripleDelimiter => {
                    return Ok(triples);
                },
                Token::UnlabeledBlankNodeEnd => {
                    return Ok(triples);
                },
                Token::PredicateListDelimiter => {
                    let (predicate, object) = match TurtleParser::read_predicate_with_object(
                        cursor,
                        graph,
                    ) {
                        Ok(po) => po,
                        Err(e) => {
                            return Err(e);
                        },
                    };
                    triples.push(Triple::new(subject, &predicate, &object));
                },
                Token::ObjectListDelimiter => {
                    let object = match TurtleParser::read_object(cursor, graph) {
                        Ok(o) => o,
                        Err(e) => {
                            return Err(e);
                        },
                    };
                    triples.push(Triple::new(subject, &predicate, &object));
                },
                _ => {
                    return Err(
                        Error::new(
                            ErrorType::InvalidToken,
                            "Invalid token while reading Turtle triples.",
                        ),
                    );
                },
            }
        }
    }

    /// Reads the next token as a predicate node (`a` stands for
    /// `rdf:type`), then the object that follows it.
    fn read_predicate_with_object(cursor: &mut TokenCursor, graph: &mut Graph) -> (r: Result<
        (Node, Node),
        Error,
    >)
        ensures
            final(cursor).toks() == old(cursor).toks(),
            final(cursor).at() >= old(cursor).at(),
            r is Ok ==> final(cursor).terminal_kind() == old(cursor).terminal_kind(),
            final(graph)@.base_uri == old(graph)@.base_uri,
            final(graph)@.namespaces == old(graph)@.namespaces,
            old(graph)@.triples.is_prefix_of(final(graph)@.triples),
            r is Ok ==> final(cursor).at() > old(cursor).at(),
            ({
                let toks = old(cursor).toks();
                let i = old(cursor).at() as int;
                &&& (r is Ok && i < toks.len() && toks[i] is KeywordA ==> r->Ok_0.0@
                    == (NodeView::Uri { uri: spec_rdf_term_str(RdfSyntaxDataTypes::A) }))
                &&& (r is Ok && i < toks.len() ==> (toks[i] matches TokenView::Uri(uri)
                    ==> r->Ok_0.0@ == (NodeView::Uri { uri })))
                &&& ((i + 2 <= toks.len() && tt_flat_predicate(toks[i]) is Some
                    && tt_flat_object(toks[i + 1]) is Some) ==> r is Ok && r->Ok_0.0@
                    == tt_flat_predicate(toks[i])->0 && r->Ok_0.1@ == tt_flat_object(
                    toks[i + 1],
                )->0 && final(cursor).at() == i + 2 && *final(graph) == *old(graph))
            }),
        decreases cursor.rem(), 3int,
    {
        let token = match cursor.next() {
            Ok(t) => t,
            Err(e) => {
                return Err(e);
            },
        };
        let predicate = match token {
            Token::Uri(uri) => Node::UriNode { uri: Uri::new(uri) },
            Token::KeywordA => Node::UriNode { uri: RdfSyntaxDataTypes::A.to_uri() },
            Token::QName(prefix, path) => {
                let mut uri = match graph.get_namespace_uri_by_prefix(prefix.as_str()) {
                    Ok(u) => u.clone(),
                    Err(e) => {
                        return Err(e);
                    },
                };
                let replaced = colon_to_slash(&path);
                uri.append_resource_path(replaced.as_str());
                Node::UriNode { uri }
            },
            Token::BlankNode(id) => Node::BlankNode { id },
            _ => {
                return Err(
                    Error::new(ErrorType::InvalidToken, "Invalid token for Turtle predicate."),
                );
            },
        };
        let object = match TurtleParser::read_object(cursor, graph) {
            Ok(o) => o,
            Err(e) => {
                return Err(e);
            },
        };
        Ok((predicate, object))
    }

    /// Reads the next token as an object node; a collection or an
    /// anonymous node opens its nested statements.
    fn read_object(cursor: &mut TokenCursor, graph: &mut Graph) -> (r: Result<Node, Error>)
        ensures
            final(cursor).toks() == old(cursor).toks(),
            final(cursor).at() >= old(cursor).at(),
            r is Ok ==> final(cursor).terminal_kind() == old(cursor).terminal_kind(),
            final(graph)@.base_uri == old(graph)@.base_uri,
            final(graph)@.namespaces == old(graph)@.namespaces,
            old(graph)@.triples.is_prefix_of(final(graph)@.triples),
            r is Ok ==> final(cursor).at() > old(cursor).at(),
            ({
                let toks = old(cursor).toks();
                let i = old(cursor).at() as int;
                &&& (i < toks.len() ==> (toks[i] matches TokenView::BlankNode(id) ==> r
                    is Ok && r->Ok_0@ == (NodeView::Blank { id }) && final(cursor).at() == i + 1
                    && *final(graph) == *old(graph)))
                &&& (i < toks.len() ==> (toks[i] matches TokenView::Uri(uri) ==> r is Ok
                    && r->Ok_0@ == (NodeView::Uri { uri }) && final(cursor).at() == i + 1
                    && *final(graph) == *old(graph)))
                &&& (i < toks.len() ==> (toks[i] matches
                    TokenView::LiteralWithLanguageSpecification(lit, lang) ==> r is Ok
                    && r->Ok_0@ == (NodeView::Literal {
                    literal: lit,
                    data_type: None,
                    language: Some(lang),
                }) && final(cursor).at() == i + 1 && *final(graph) == *old(graph)))
                &&& (i < toks.len() ==> (toks[i] matches TokenView::LiteralWithUrlDatatype(
                    lit,
                    dt,
                ) ==> r is Ok && r->Ok_0@ == (NodeView::Literal {
                    literal: lit,
                    data_type: Some(dt),
                    language: None,
                }) && final(cursor).at() == i + 1 && *final(graph) == *old(graph)))
                &&& (i < toks.len() ==> (toks[i] matches TokenView::Literal(lit) ==> r
                    is Ok && r->Ok_0@ == (NodeView::Literal {
                    literal: lit,
                    data_type: None,
                    language: None,
                }) && final(cursor).at() == i + 1 && *final(graph) == *old(graph)))
                &&& (i < toks.len() ==> (toks[i] matches TokenView::QName(prefix, path)
                    ==> final(cursor).at() == i + 1 && *final(graph) == *old(graph) && ({
                    let k = find_prefix_idx(old(graph)@.namespaces, prefix);
                    if k < old(graph)@.namespaces.len() {
                        r is Ok && r->Ok_0@ == (NodeView::Uri {
                            uri: old(graph)@.namespaces[k as int].uri + replace_colons(path),
                        })
                    } else {
                        r is Err && r->Err_0.kind() is InvalidNamespace
                    }
                })))
            }),
        decreases cursor.rem(), 1int,
    {
        let token = match cursor.next() {
            Ok(t) => t,
            Err(e) => {
                return Err(e);
            },
        };
        match token {
            Token::BlankNode(id) => Ok(Node::BlankNode { id }),
            Token::Uri(uri) => Ok(Node::UriNode { uri: Uri::new(uri) }),
            Token::QName(prefix, path) => {
                let mut uri = match graph.get_namespace_uri_by_prefix(prefix.as_str()) {
                    Ok(u) => u.clone(),
                    Err(e) => {
                        return Err(e);
                    },
                };
                let replaced = colon_to_slash(&path);
                uri.append_resource_path(replaced.as_str());
                Ok(Node::UriNode { uri })
            },
            Token::LiteralWithLanguageSpecification(literal, lang) => Ok(
                Node::LiteralNode { literal, data_type: None, language: Some(lang) },
            ),
            Token::LiteralWithUrlDatatype(literal, datatype) => Ok(
                Node::LiteralNode {
                    literal,
                    data_type: Some(Uri::new(datatype)),
                    language: None,
                },
            ),
            Token::Literal(literal) => Ok(
                Node::LiteralNode { literal, data_type: None, language: None },
            ),
            Token::CollectionStart => TurtleParser::read_collection(cursor, graph),
            Token::UnlabeledBlankNodeStart => TurtleParser::read_unlabeled_blank_node(
                cursor,
                graph,
            ),
            _ => Err(Error::new(ErrorType::InvalidToken, "Invalid token for Turtle object.")),
        }
    }

    /// Reads an anonymous node: mints a fresh blank node, and reads the
    /// nested predicate-object list (if the node is not empty) with it as
    /// subject.
    fn read_unlabeled_blank_node(cursor: &mut TokenCursor, graph: &mut Graph) -> (r: Result<
        Node,
        Error,
    >)
        ensures
            final(cursor).toks() == old(cursor).toks(),
            final(cursor).at() >= old(cursor).at(),
            r is Ok ==> final(cursor).terminal_kind() == old(cursor).terminal_kind(),
            final(graph)@.base_uri == old(graph)@.base_uri,
            final(graph)@.namespaces == old(graph)@.namespaces,
            old(graph)@.triples.is_prefix_of(final(graph)@.triples),
            r is Ok ==> final(cursor).at() > old(cursor).at(),
            r is Ok ==> r->Ok_0@ == (NodeView::Blank {
                id: crate::graph::blank_node_id_str(old(graph)@.next_id),
            }),
            ({
                // the least body is owed its success: one plain
                // predicate-object pair closed by the bracket adds exactly the
                // triple with the fresh node as its subject
                let toks = old(cursor).toks();
                let i = old(cursor).at() as int;
                let n = old(graph)@.next_id;
                (i + 3 <= toks.len() && tt_flat_predicate(toks[i]) is Some && tt_flat_object(
                    toks[i + 1],
                ) is Some && toks[i + 2] is UnlabeledBlankNodeEnd && n < u64::MAX) ==> r is Ok
                    && final(cursor).at() == i + 3 && final(graph)@ == (crate::graph::GraphView {
                    triples: old(graph)@.triples + seq![
                        TripleView {
                            subject: NodeView::Blank {
                                id: crate::graph::blank_node_id_str(n),
                            },
                            predicate: tt_flat_predicate(toks[i])->0,
                            object: tt_flat_object(toks[i + 1])->0,
                        },
                    ],
                    next_id: (n + 1) as nat,
                    ..old(graph)@
                })
            }),
            ({
                // an empty body consumes its closing bracket and adds no triples:
                // the node contributes only the statement that contains it
                let toks = old(cursor).toks();
                let i = old(cursor).at() as int;
                i < toks.len() ==> (toks[i] is UnlabeledBlankNodeEnd ==> r is Ok && final(cursor).at() == i + 1 && final(graph)@ == (crate::graph::GraphView {
                    next_id: if old(graph)@.next_id < u64::MAX {
                        old(graph)@.next_id + 1
                    } else {
                        old(graph)@.next_id
                    },
                    ..old(graph)@
                }))
            }),
        decreases cursor.rem(), 5int,
    {
        let subject = graph.create_blank_node();
        let peeked = match cursor.peek() {
            Ok(t) => t,
            Err(e) => {
                return Err(e);
            },
        };
        match peeked {
            Token::UnlabeledBlankNodeEnd => {
                let _ = cursor.next();  // consume the node end ']'
            },
            _ => {
                let triples = match TurtleParser::read_predicate_object_list(
                    cursor,
                    &subject,
                    graph,
                ) {
                    Ok(ts) => ts,
                    Err(e) => {
                        return Err(e);
                    },
                };
                let ghost pre_triples = graph@.triples;
                graph.add_triples(triples.as_slice());
                proof {
                    let toks = old(cursor).toks();
                    let i = old(cursor).at() as int;
                    let n = old(graph)@.next_id;
                    if i + 3 <= toks.len() && tt_flat_predicate(toks[i]) is Some
                        && tt_flat_object(toks[i + 1]) is Some && toks[i + 2]
                        is UnlabeledBlankNodeEnd && n < u64::MAX {
                        assert(graph@.triples =~= pre_triples + seq![
                            TripleView {
                                subject: NodeView::Blank {
                                    id: crate::graph::blank_node_id_str(n),
                                },
                                predicate: tt_flat_predicate(toks[i])->0,
                                object: tt_flat_object(toks[i + 1])->0,
                            },
                        ]);
                    }
                }
            },
        }
        Ok(subject)
    }

    /// Reads a collection: an empty one is the `rdf:nil` node; a non-empty
    /// one mints a fresh blank node per element and encodes the list with
    /// `rdf:first` and `rdf:rest` triples.
    #[verifier::loop_isolation(false)]
    fn read_collection(cursor: &mut TokenCursor, graph: &mut Graph) -> (r: Result<Node, Error>)
        ensures
            final(cursor).toks() == old(cursor).toks(),
            final(cursor).at() >= old(cursor).at(),
            r is Ok ==> final(cursor).terminal_kind() == old(cursor).terminal_kind(),
            final(graph)@.base_uri == old(graph)@.base_uri,
            final(graph)@.namespaces == old(graph)@.namespaces,
            old(graph)@.triples.is_prefix_of(final(graph)@.triples),
            r is Ok ==> final(cursor).at() > old(cursor).at(),
            ({
                // an empty collection is the fixed rdf:nil node, consumes its
                // closing bracket, and adds no triples
                let toks = old(cursor).toks();
                let i = old(cursor).at() as int;
                i < toks.len() ==> (toks[i] is CollectionEnd ==> r is Ok && r->Ok_0@ == (
                NodeView::Uri { uri: spec_rdf_term_str(RdfSyntaxDataTypes::ListNil) }) && final(cursor).at() == i + 1 && *final(graph) == *old(graph))
            }),
            ({
                // a non-empty collection starts at the fresh blank node it returns
                let toks = old(cursor).toks();
                let i = old(cursor).at() as int;
                i < toks.len() ==> (!(toks[i] is CollectionEnd) ==> (r is Ok ==> r->Ok_0@ == (
                NodeView::Blank { id: crate::graph::blank_node_id_str(old(graph)@.next_id) })))
            }),
            ({
                // a one-element list of a plain object is owed its success: the
                // cell points to the element with rdf:first and closes with
                // rdf:rest to rdf:nil, and exactly those two triples are added
                let toks = old(cursor).toks();
                let i = old(cursor).at() as int;
                let n = old(graph)@.next_id;
                let cell = NodeView::Blank { id: crate::graph::blank_node_id_str(n) };
                (i + 2 <= toks.len() && tt_flat_object(toks[i]) is Some && toks[i + 1]
                    is CollectionEnd && n + 2 <= u64::MAX) ==> r is Ok && final(cursor).at() == i
                    + 2 && final(graph)@ == (crate::graph::GraphView {
                    triples: old(graph)@.triples + seq![
                        TripleView {
                            subject: cell,
                            predicate: NodeView::Uri {
                                uri: spec_rdf_term_str(RdfSyntaxDataTypes::ListFirst),
                            },
                            object: tt_flat_object(toks[i])->0,
                        },
                        TripleView {
                            subject: cell,
                            predicate: NodeView::Uri {
                                uri: spec_rdf_term_str(RdfSyntaxDataTypes::ListRest),
                            },
                            object: NodeView::Uri {
                                uri: spec_rdf_term_str(RdfSyntaxDataTypes::ListNil),
                            },
                        },
                    ],
                    next_id: (n + 2) as nat,
                    ..old(graph)@
                })
            }),
        decreases cursor.rem(), 2int,
    {
        // an empty list is the nil node and adds no triples
        let peeked = match cursor.peek() {
            Ok(t) => t,
            Err(e) => {
                return Err(e);
            },
        };
        match peeked {
            Token::CollectionEnd => {
                let _ = cursor.next();  // consume the collection end ')'
                return Ok(Node::UriNode { uri: RdfSyntaxDataTypes::ListNil.to_uri() });
            },
            _ => {},
        }
        // a non-empty list starts at a fresh blank node
        let ghost entry = cursor.at() as int;
        let ghost toks = cursor.toks();
        let ghost n0 = graph@.next_id;
        let ghost single = entry + 2 <= toks.len() && tt_flat_object(toks[entry]) is Some
            && toks[entry + 1] is CollectionEnd && n0 + 2 <= u64::MAX;
        let subject = graph.create_blank_node();
        let mut next_subject = subject.clone();
        loop
            invariant
                cursor.toks() == old(cursor).toks(),
                cursor.at() >= old(cursor).at(),
                cursor.terminal_kind() == old(cursor).terminal_kind(),
                graph@.base_uri == old(graph)@.base_uri,
                graph@.namespaces == old(graph)@.namespaces,
                old(graph)@.triples.is_prefix_of(graph@.triples),
                subject@ == (NodeView::Blank {
                    id: crate::graph::blank_node_id_str(old(graph)@.next_id),
                }),
                single ==> cursor.at() as int == entry && graph@ == (crate::graph::GraphView {
                    next_id: (n0 + 1) as nat,
                    ..old(graph)@
                }) && next_subject@ == subject@,
            decreases cursor.rem(),
        {
            let rest = graph.create_blank_node();
            let object = match TurtleParser::read_object(cursor, graph) {
                Ok(o) => o,
                Err(e) => {
                    return Err(e);
                },
            };
            proof {
                cursor.lemma_at_bounded();
            }
            graph.add_triple(
                &Triple::new(
                    &next_subject,
                    &Node::UriNode { uri: RdfSyntaxDataTypes::ListFirst.to_uri() },
                    &object,
                ),
            );
            // check if the rest of the list is nil
            let peeked2 = match cursor.peek() {
                Ok(t) => t,
                Err(e) => {
                    return Err(e);
                },
            };
            match peeked2 {
                Token::CollectionEnd => {
                    let _ = cursor.next();  // consume the collection end ')'
                    graph.add_triple(
                        &Triple::new(
                            &next_subject,
                            &Node::UriNode { uri: RdfSyntaxDataTypes::ListRest.to_uri() },
                            &Node::UriNode { uri: RdfSyntaxDataTypes::ListNil.to_uri() },
                        ),
                    );
                    proof {
                        if single {
                            let cell = NodeView::Blank {
                                id: crate::graph::blank_node_id_str(n0),
                            };
                            assert(graph@.triples =~= old(graph)@.triples + seq![
                                TripleView {
                                    subject: cell,
                                    predicate: NodeView::Uri {
                                        uri: spec_rdf_term_str(RdfSyntaxDataTypes::ListFirst),
                                    },
                                    object: tt_flat_object(toks[entry])->0,
                                },
                                TripleView {
                                    subject: cell,
                                    predicate: NodeView::Uri {
                                        uri: spec_rdf_term_str(RdfSyntaxDataTypes::ListRest),
                                    },
                                    object: NodeView::Uri {
                                        uri: spec_rdf_term_str(RdfSyntaxDataTypes::ListNil),
                                    },
                                },
                            ]);
                        }
                    }
                    return Ok(subject);
                },
                _ => {
                    graph.add_triple(
                        &Triple::new(
                            &next_subject,
                            &Node::UriNode { uri: RdfSyntaxDataTypes::ListRest.to_uri() },
                            &rest,
                        ),
                    );
                },
            }
            next_subject = rest;
        }
    }
}

} // verus!
