use vstd::prelude::*;

use crate::error::{Error, ErrorType};
use crate::helper::{colon_to_slash, replace_colons};
use crate::lexer::sparql_lexer::SparqlLexer;
use crate::lexer::token::{Token, TokenView};
use crate::namespace::find_prefix_idx;
use crate::node::{Node, NodeView};
use crate::reader::input_reader::{prefix_len_skippable, InputChar, InputReader};
use crate::reader::token_cursor::TokenCursor;
use crate::sparql::pattern::{GroupPattern, NodePattern, NodePatternView, Pattern, PatternView, TriplePattern, TriplePatternView};
use crate::sparql::query::{SparqlQuery, SparqlQueryType};
use crate::specs::rdf_syntax_specs::RdfSyntaxDataTypes;
use crate::uri::Uri;

verus! {

/// Index of the first token that is not a comment, or the length of the
/// stream if there is none.
pub open spec fn skip_comments(toks: Seq<TokenView>, i: int) -> int
    decreases toks.len() - i,
{
    if i < 0 || i >= toks.len() {
        toks.len() as int
    } else if toks[i] is Comment {
        skip_comments(toks, i + 1)
    } else {
        i
    }
}

/// The run of variable names standing at the given position, in order.
pub open spec fn sparql_var_run(toks: Seq<TokenView>, i: int) -> Seq<Seq<char>>
    decreases toks.len() - i,
{
    if 0 <= i < toks.len() {
        match toks[i] {
            TokenView::SparqlVariable(name) => seq![name] + sparql_var_run(toks, i + 1),
            _ => Seq::empty(),
        }
    } else {
        Seq::empty()
    }
}

/// Index of the first token after the run of variables at the given
/// position, or the length of the stream if the run reaches its end.
pub open spec fn var_run_end(toks: Seq<TokenView>, i: int) -> int
    decreases toks.len() - i,
{
    if 0 <= i < toks.len() && toks[i] is SparqlVariable {
        var_run_end(toks, i + 1)
    } else if i < 0 {
        0
    } else if i > toks.len() {
        toks.len() as int
    } else {
        i
    }
}

pub proof fn lemma_var_run_end(toks: Seq<TokenView>, i: int)
    requires
        0 <= i <= toks.len(),
    ensures
        i <= var_run_end(toks, i) <= toks.len(),
        forall|q: int| i <= q < var_run_end(toks, i) ==> (#[trigger] toks[q]) is SparqlVariable,
        var_run_end(toks, i) < toks.len() ==> !(toks[var_run_end(toks, i)] is SparqlVariable),
    decreases toks.len() - i,
{
    if i < toks.len() && toks[i] is SparqlVariable {
        lemma_var_run_end(toks, i + 1);
    }
}

/// Index of the first token after the projection: past `*`, or past the
/// run of projected variables.
pub open spec fn projection_end(toks: Seq<TokenView>, i: int) -> int {
    let j = if 0 <= i < toks.len() && (toks[i] is Reduced || toks[i] is Distinct) {
        i + 1
    } else {
        i
    };
    if 0 <= j < toks.len() && toks[j] is Asterisk {
        j + 1
    } else {
        var_run_end(toks, j)
    }
}

/// The projection that the tokens after the SELECT keyword settle: the
/// query type, as the optional DISTINCT or REDUCED modifier and `*` or the
/// projected variables fix it, with those variables in order. A stream
/// that ends or goes on with any other token settles nothing.
pub open spec fn sparql_projection(toks: Seq<TokenView>, i: int) -> Option<
    (SparqlQueryType, Seq<Seq<char>>),
> {
    if i < 0 || i >= toks.len() {
        None
    } else {
        let qt0 = if toks[i] is Reduced {
            SparqlQueryType::SelectReduced
        } else if toks[i] is Distinct {
            SparqlQueryType::SelectDistinct
        } else {
            SparqlQueryType::Select
        };
        let j = if toks[i] is Reduced || toks[i] is Distinct {
            i + 1
        } else {
            i
        };
        if j >= toks.len() {
            None
        } else if toks[j] is Asterisk {
            let qt = match qt0 {
                SparqlQueryType::SelectDistinct => SparqlQueryType::SelectAllDistinct,
                SparqlQueryType::SelectReduced => SparqlQueryType::SelectAllReduced,
                _ => SparqlQueryType::SelectAll,
            };
            Some((qt, Seq::empty()))
        } else {
            match toks[j] {
                TokenView::SparqlVariable(name) => Some(
                    (qt0, seq![name] + sparql_var_run(toks, j + 1)),
                ),
                _ => None,
            }
        }
    }
}

/// The pattern a namespace-free subject token stands for: a variable, a
/// URI, or a blank node.
pub open spec fn sp_flat_subject(t: TokenView) -> Option<NodePatternView> {
    match t {
        TokenView::SparqlVariable(name) => Some(NodePatternView::Variable(name)),
        TokenView::Uri(uri) => Some(NodePatternView::Fixed(NodeView::Uri { uri })),
        TokenView::BlankNode(id) => Some(NodePatternView::Fixed(NodeView::Blank { id })),
        _ => None,
    }
}

/// The pattern a namespace-free predicate token stands for: a variable, a
/// URI, the `a` shorthand for `rdf:type`, or a blank node.
pub open spec fn sp_flat_predicate(t: TokenView) -> Option<NodePatternView> {
    match t {
        TokenView::SparqlVariable(name) => Some(NodePatternView::Variable(name)),
        TokenView::Uri(uri) => Some(NodePatternView::Fixed(NodeView::Uri { uri })),
        TokenView::KeywordA => Some(
            NodePatternView::Fixed(
                NodeView::Uri {
                    uri: crate::specs::rdf_syntax_specs::spec_rdf_term_str(
                        RdfSyntaxDataTypes::A,
                    ),
                },
            ),
        ),
        TokenView::BlankNode(id) => Some(NodePatternView::Fixed(NodeView::Blank { id })),
        _ => None,
    }
}

/// The pattern a namespace-free object token stands for: a variable, a
/// URI, a blank node, or one of the literal forms.
pub open spec fn sp_flat_object(t: TokenView) -> Option<NodePatternView> {
    match t {
        TokenView::SparqlVariable(name) => Some(NodePatternView::Variable(name)),
        TokenView::Uri(uri) => Some(NodePatternView::Fixed(NodeView::Uri { uri })),
        TokenView::BlankNode(id) => Some(NodePatternView::Fixed(NodeView::Blank { id })),
        TokenView::Literal(lit) => Some(
            NodePatternView::Fixed(
                NodeView::Literal { literal: lit, data_type: None, language: None },
            ),
        ),
        TokenView::LiteralWithUrlDatatype(lit, dt) => Some(
            NodePatternView::Fixed(
                NodeView::Literal { literal: lit, data_type: Some(dt), language: None },
            ),
        ),
        TokenView::LiteralWithLanguageSpecification(lit, lang) => Some(
            NodePatternView::Fixed(
                NodeView::Literal { literal: lit, data_type: None, language: Some(lang) },
            ),
        ),
        _ => None,
    }
}

/// SPARQL parser that generates a `SparqlQuery` from SPARQL syntax.
pub struct SparqlParser {
    lexer: SparqlLexer,
}

impl SparqlParser {
    /// The characters still to be read.
    pub closed spec fn pending(&self) -> Seq<InputChar> {
        self.lexer.pending()
    }

    /// The token read ahead and not yet consumed, if any.
    pub closed spec fn cached(&self) -> Option<Token> {
        self.lexer.cached()
    }

    /// Constructor of `SparqlParser` from an input string.
    pub fn from_string(input: &str) -> (r: SparqlParser)
        ensures
            r.pending() == input@.map_values(|c: char| Some(c)),
            r.cached() is None,
    {
        SparqlParser { lexer: SparqlLexer::new(input) }
    }

    /// Constructor of `SparqlParser` from an input reader.
    pub fn from_reader(input: InputReader) -> (r: SparqlParser)
        ensures
            r.pending() == input.pending(),
            r.cached() is None,
    {
        SparqlParser { lexer: SparqlLexer::from_reader(input) }
    }

    /// Reads all tokens of the input ahead of parsing; an input of
    /// whitespace alone lexes to no tokens and a clean end.
    #[verifier::loop_isolation(false)]
    fn tokenize(&mut self) -> (r: TokenCursor)
        ensures
            ({
                let p = old(self).pending();
                (old(self).cached() is None && prefix_len_skippable(p) == p.len()) ==> r.toks()
                    == Seq::<TokenView>::empty() && r.terminal_kind() is None && r.at() == 0
            }),
    {
        let ghost blank = old(self).cached() is None && prefix_len_skippable(
            old(self).pending(),
        ) == old(self).pending().len();
        let mut tokens: Vec<Token> = Vec::new();
        let mut terminal: Option<Error> = None;
        let mut done = false;
        // each round consumes input, so the budget is never exhausted in practice
        let mut rounds_left: usize = usize::MAX;
        while !done && rounds_left > 0
            invariant
                blank ==> tokens@.len() == 0 && terminal is None,
                blank && !done ==> self.cached() is None && prefix_len_skippable(
                    self.pending(),
                ) == self.pending().len() && rounds_left == usize::MAX,
            decreases rounds_left,
        {
            rounds_left = rounds_left - 1;
            match self.lexer.get_next_token() {
                Ok(Token::EndOfInput) => {
                    done = true;
                },
                Ok(t) => {
                    tokens.push(t);
                },
                Err(e) => {
                    terminal = Some(e);
                    done = true;
                },
            }
        }
        if !done {
            terminal = Some(
                Error::new(ErrorType::InvalidReaderInput, "Input could not be tokenized."),
            );
        }
        let cursor = TokenCursor::new(tokens, terminal);
        proof {
            if blank {
                assert(cursor.toks() =~= Seq::<TokenView>::empty());
            }
        }
        cursor
    }

    /// Transforms a SPARQL query string into a `SparqlQuery`; only SELECT
    /// queries are accepted. The tokens are read ahead and handed to
    /// `parse_stream`, which carries the token-level contract.
    pub fn decode(&mut self) -> (r: Result<SparqlQuery, Error>)
        ensures
            r is Ok ==> r->Ok_0@.base_uri is None && r->Ok_0@.patterns.len() == 1,
            r is Ok ==> (r->Ok_0@.query_type is Select || r->Ok_0@.query_type is SelectDistinct
                || r->Ok_0@.query_type is SelectReduced || r->Ok_0@.query_type is SelectAll
                || r->Ok_0@.query_type is SelectAllDistinct
                || r->Ok_0@.query_type is SelectAllReduced),
            ({
                // a document of whitespace alone holds no SELECT and is refused
                let p = old(self).pending();
                (old(self).cached() is None && prefix_len_skippable(p) == p.len()) ==> r
                    is Err
            }),
    {
        let mut cursor = self.tokenize();
        SparqlParser::parse_stream(&mut cursor)
    }

    /// Parses the token stream: comments are skipped, only a SELECT query
    /// is accepted, and its projection fixes the query type and the
    /// variable list.
    #[verifier::loop_isolation(false)]
    pub fn parse_stream(cursor: &mut TokenCursor) -> (r: Result<SparqlQuery, Error>)
        ensures
            r is Ok ==> r->Ok_0@.base_uri is None && r->Ok_0@.patterns.len() == 1,
            ({
                let toks = old(cursor).toks();
                let c = skip_comments(toks, old(cursor).at() as int);
                &&& (!(c < toks.len() && toks[c] is Select) ==> r is Err)
                &&& (r is Ok ==> (sparql_projection(toks, c + 1) matches Some((qt, vars))
                    && r->Ok_0@.query_type == qt && r->Ok_0@.variables == vars))
                &&& (c < toks.len() && toks[c] is Select && sparql_projection(toks, c + 1)
                    is None ==> r is Err)
                &&& ({
                    let k = projection_end(toks, c + 1);
                    let k2 = if k < toks.len() && toks[k] is Where {
                        k + 1
                    } else {
                        k
                    };
                    (c < toks.len() && toks[c] is Select && sparql_projection(toks, c + 1)
                        is Some && k2 + 2 <= toks.len() && toks[k2] is GroupStart && toks[k2
                        + 1] is GroupEnd) ==> r is Ok
                })
            }),
    {
        let ghost toks = old(cursor).toks();
        let ghost c = skip_comments(toks, old(cursor).at() as int);
        proof {
            cursor.lemma_at_bounded();
        }
        loop
            invariant
                cursor.toks() == toks,
                cursor.at() <= toks.len(),
                cursor.terminal_kind() == old(cursor).terminal_kind(),
                c == skip_comments(toks, cursor.at() as int),
            decreases cursor.rem(),
        {
            let ghost cur = cursor.at() as int;
            let peeked = match cursor.peek() {
                Ok(t) => t,
                Err(e) => {
                    proof {
                        assert(cur >= toks.len());
                        assert(c == toks.len() as int);
                    }
                    return Err(e);
                },
            };
            match peeked {
                Token::Comment(_) => {
                    let _ = cursor.next();
                },
                Token::Select => {
                    proof {
                        assert(cur < toks.len() && toks[cur] is Select);
                        assert(c == cur);
                    }
                    let _ = cursor.next();
                    return SparqlParser::read_select_query(cursor);
                },
                _ => {
                    proof {
                        if cur < toks.len() {
                            assert(!(toks[cur] is Comment) && !(toks[cur] is Select));
                            assert(c == cur);
                        } else {
                            assert(c == toks.len() as int);
                        }
                    }
                    return Err(
                        Error::new(
                            ErrorType::InvalidToken,
                            "Invalid token while parsing SPARQL syntax.",
                        ),
                    );
                },
            }
        }
    }

    /// Parses a SELECT query after its keyword: the optional DISTINCT or
    /// REDUCED modifier, `*` or the projected variables, the optional
    /// WHERE keyword, and the braced group.
    #[verifier::loop_isolation(false)]
    pub fn read_select_query(cursor: &mut TokenCursor) -> (r: Result<SparqlQuery, Error>)
        ensures
            final(cursor).toks() == old(cursor).toks(),
            final(cursor).at() >= old(cursor).at(),
            r is Ok ==> r->Ok_0@.base_uri is None && r->Ok_0@.patterns.len() == 1,
            r is Ok ==> (sparql_projection(old(cursor).toks(), old(cursor).at() as int) matches
                Some((qt, vars)) && r->Ok_0@.query_type == qt && r->Ok_0@.variables == vars),
            sparql_projection(old(cursor).toks(), old(cursor).at() as int) is None ==> r is Err,
            ({
                // the least well-formed query is owed its success: a settled
                // projection followed by an optional WHERE and an empty group
                let toks = old(cursor).toks();
                let i0 = old(cursor).at() as int;
                let k = projection_end(toks, i0);
                let k2 = if k < toks.len() && toks[k] is Where {
                    k + 1
                } else {
                    k
                };
                (sparql_projection(toks, i0) is Some && k2 + 2 <= toks.len() && toks[k2]
                    is GroupStart && toks[k2 + 1] is GroupEnd) ==> r is Ok
            }),
    {
        let ghost toks = old(cursor).toks();
        let ghost i0 = old(cursor).at() as int;
        let mut query_type = SparqlQueryType::Select;
        let mut variables: Vec<String> = Vec::new();
        // check for REDUCED or DISTINCT
        let peeked = match cursor.peek() {
            Ok(t) => t,
            Err(e) => {
                proof {
                    assert(i0 >= toks.len());
                }
                return Err(e);
            },
        };
        match peeked {
            Token::Reduced => {
                let _ = cursor.next();
                query_type = SparqlQueryType::SelectReduced;
            },
            Token::Distinct => {
                let _ = cursor.next();
                query_type = SparqlQueryType::SelectDistinct;
            },
            _ => {},
        }
        let ghost j = cursor.at() as int;
        proof {
            if i0 < toks.len() {
                assert(j == if toks[i0] is Reduced || toks[i0] is Distinct {
                    i0 + 1
                } else {
                    i0
                });
            }
        }
        // check whether everything or specific variables are selected
        let selector = match cursor.next() {
            Ok(t) => t,
            Err(e) => {
                proof {
                    assert(sparql_projection(toks, i0) is None);
                }
                return Err(e);
            },
        };
        match selector {
            Token::Asterisk => {
                query_type = match query_type {
                    SparqlQueryType::SelectDistinct => SparqlQueryType::SelectAllDistinct,
                    SparqlQueryType::SelectReduced => SparqlQueryType::SelectAllReduced,
                    _ => SparqlQueryType::SelectAll,
                };
                proof {
                    assert(j < toks.len() && toks[j] is Asterisk);
                    assert(variables@.map_values(|v: String| v@) =~= Seq::<Seq<char>>::empty());
                    assert(cursor.at() as int == projection_end(toks, i0));
                }
            },
            Token::SparqlVariable(var_name) => {
                proof {
                    assert(j < toks.len());
                }
                let ghost target = seq![var_name@] + sparql_var_run(toks, j + 1);
                proof {
                    assert(variables@.map_values(|v: String| v@) =~= Seq::<Seq<char>>::empty());
                    crate::helper::lemma_map_values_push(variables@, |v: String| v@, var_name);
                }
                variables.push(var_name);
                proof {
                    assert(variables@.map_values(|v: String| v@) + sparql_var_run(
                        toks,
                        cursor.at() as int,
                    ) =~= target);
                }
                let mut done = false;
                while !done
                    invariant
                        cursor.toks() == toks,
                        cursor.at() <= toks.len(),
                        cursor.at() as int >= i0,
                        cursor.at() as int == j + variables@.len(),
                        variables@.len() >= 1,
                        forall|q: int| j + 1 <= q < cursor.at() as int ==> (#[trigger] toks[
                            q
                        ]) is SparqlVariable,
                        variables@.map_values(|v: String| v@) + sparql_var_run(
                            toks,
                            cursor.at() as int,
                        ) == target,
                        done ==> cursor.at() as int == var_run_end(toks, j + 1)
                            && variables@.map_values(|v: String| v@) == target,
                    decreases cursor.rem(), (if done {
                        0int
                    } else {
                        1int
                    }),
                {
                    let ghost cur = cursor.at() as int;
                    let next_var_read: Option<Token> = match cursor.peek() {
                        Ok(t) => Some(t),
                        Err(err) => {
                            match err.error_type() {
                                ErrorType::EndOfInput(_) => {
                                    proof {
                                        assert(cur >= toks.len());
                                        assert(sparql_var_run(toks, cur) =~= Seq::<
                                            Seq<char>,
                                        >::empty());
                                        assert(variables@.map_values(|v: String| v@)
                                            =~= target);
                                        lemma_var_run_end(toks, j + 1);
                                        assert(cur == var_run_end(toks, j + 1)) by {
                                            if var_run_end(toks, j + 1) < cur {
                                                assert(toks[var_run_end(toks, j + 1)]
                                                    is SparqlVariable);
                                            }
                                        }
                                    }
                                    done = true;
                                    None
                                },
                                _ => {
                                    proof {
                                        lemma_var_run_end(toks, j + 1);
                                        assert(cursor.at() as int <= var_run_end(
                                            toks,
                                            j + 1,
                                        )) by {
                                            if var_run_end(toks, j + 1) < cursor.at() {
                                                assert(toks[var_run_end(toks, j + 1)]
                                                    is SparqlVariable);
                                            }
                                        }
                                        assert(var_run_end(toks, j) == var_run_end(
                                            toks,
                                            j + 1,
                                        ));
                                    }
                                    return Err(
                                        Error::new(
                                            ErrorType::InvalidReaderInput,
                                            "Error while parsing SPARQL variables.",
                                        ),
                                    );
                                },
                            }
                        },
                    };
                    if !done {
                        match next_var_read {
                            Some(Token::SparqlVariable(name)) => {
                                proof {
                                    assert(cur < toks.len());
                                    assert(toks[cur] matches TokenView::SparqlVariable(nm)
                                        && nm == name@);
                                    crate::helper::lemma_map_values_push(
                                        variables@,
                                        |v: String| v@,
                                        name,
                                    );
                                    assert(variables@.map_values(|v: String| v@).push(name@)
                                        + sparql_var_run(toks, cur + 1)
                                        =~= variables@.map_values(|v: String| v@) + (seq![
                                        name@,
                                    ] + sparql_var_run(toks, cur + 1)));
                                }
                                variables.push(name);
                                let _ = cursor.next();
                            },
                            _ => {
                                proof {
                                    assert(sparql_var_run(toks, cur) =~= Seq::<
                                        Seq<char>,
                                    >::empty());
                                    assert(variables@.map_values(|v: String| v@) =~= target);
                                    lemma_var_run_end(toks, j + 1);
                                    assert(cur == var_run_end(toks, j + 1)) by {
                                        if var_run_end(toks, j + 1) < cur {
                                            assert(toks[var_run_end(toks, j + 1)]
                                                is SparqlVariable);
                                        }
                                        if cur < var_run_end(toks, j + 1) {
                                            assert(toks[cur] is SparqlVariable);
                                        }
                                    }
                                }
                                done = true;
                            },
                        }
                    }
                }
                proof {
                    assert(var_run_end(toks, j) == var_run_end(toks, j + 1));
                    assert(cursor.at() as int == projection_end(toks, i0));
                }
            },
            _ => {
                proof {
                    assert(sparql_projection(toks, i0) is None);
                }
                return Err(
                    Error::new(
                        ErrorType::InvalidToken,
                        "Unexpected end while parsing SPARQL SELECT syntax.",
                    ),
                );
            },
        }
        let ghost varviews = variables@.map_values(|v: String| v@);
        proof {
            assert(sparql_projection(toks, i0) matches Some((qt, vars)) && qt == query_type
                && vars == varviews);
        }
        // instantiate the query
        let mut query = SparqlQuery::new(query_type);
        // the WHERE keyword is optional but always followed by a group
        let peeked_where = match cursor.peek() {
            Ok(t) => t,
            Err(e) => {
                return Err(e);
            },
        };
        match peeked_where {
            Token::Where => {
                let _ = cursor.next();
            },
            _ => {},
        }
        // parse the group
        let group_start = match cursor.next() {
            Ok(t) => t,
            Err(e) => {
                return Err(e);
            },
        };
        match group_start {
            Token::GroupStart => {
                let group_pattern = match SparqlParser::parse_group(cursor, &query) {
                    Ok(g) => g,
                    Err(e) => {
                        return Err(e);
                    },
                };
                query.add_pattern(Pattern::Group(group_pattern));
            },
            _ => {
                return Err(
                    Error::new(
                        ErrorType::InvalidToken,
                        "Unexpected token while parsing WHERE group",
                    ),
                );
            },
        }
        query.add_variables(variables);
        Ok(query)
    }

    /// Parses the patterns of a group up to its closing brace; a group
    /// that closes at once is the empty group.
    #[verifier::loop_isolation(false)]
    fn parse_group(cursor: &mut TokenCursor, query: &SparqlQuery) -> (r: Result<
        GroupPattern,
        Error,
    >)
        ensures
            final(cursor).toks() == old(cursor).toks(),
            final(cursor).at() >= old(cursor).at(),
            ({
                let toks = old(cursor).toks();
                let i = old(cursor).at() as int;
                i < toks.len() && toks[i] is GroupEnd ==> r is Ok && r->Ok_0@
                    == PatternView::Group(Seq::<Pattern>::empty(), false, false) && final(cursor).at() == i + 1
            }),
            ({
                // a group of one plain statement closed by its brace is owed
                // its success: it holds exactly that triple pattern
                let toks = old(cursor).toks();
                let i = old(cursor).at() as int;
                (i + 4 <= toks.len() && sp_flat_subject(toks[i]) is Some && sp_flat_predicate(
                    toks[i + 1],
                ) is Some && sp_flat_object(toks[i + 2]) is Some && toks[i + 3] is GroupEnd)
                    ==> r is Ok && final(cursor).at() == i + 4 && (r->Ok_0@ matches
                    PatternView::Group(ps, false, false) && ps.len() == 1 && ps[0]@
                    == PatternView::Triple(
                    TriplePatternView {
                        subject: sp_flat_subject(toks[i])->0,
                        predicate: sp_flat_predicate(toks[i + 1])->0,
                        object: sp_flat_object(toks[i + 2])->0,
                        is_union: false,
                        is_optional: false,
                    },
                ))
            }),
        decreases cursor.rem(),
    {
        let ghost entry = cursor.at() as int;
        let ghost toks = cursor.toks();
        let ghost one = entry + 4 <= toks.len() && sp_flat_subject(toks[entry]) is Some
            && sp_flat_predicate(toks[entry + 1]) is Some && sp_flat_object(toks[entry + 2])
            is Some && toks[entry + 3] is GroupEnd;
        let ghost one_pattern = PatternView::Triple(
            TriplePatternView {
                subject: sp_flat_subject(toks[entry])->0,
                predicate: sp_flat_predicate(toks[entry + 1])->0,
                object: sp_flat_object(toks[entry + 2])->0,
                is_union: false,
                is_optional: false,
            },
        );
        let ghost mut looped: bool = false;
        let mut group_pattern = GroupPattern::new();
        // each continuing round consumes input, so the budget is never
        // exhausted in practice; FILTER and UNION tokens are recognized but
        // not handled
        let mut rounds_left: usize = usize::MAX;
        loop
            invariant
                cursor.toks() == old(cursor).toks(),
                cursor.at() >= old(cursor).at(),
                looped ==> !(entry < toks.len() && toks[entry] is GroupEnd),
                !looped ==> cursor.at() as int == entry && rounds_left == usize::MAX
                    && group_pattern@ == PatternView::Group(Seq::<Pattern>::empty(), false, false),
                one && looped ==> cursor.at() as int == entry + 3 && rounds_left >= 1 && (
                group_pattern@ matches PatternView::Group(ps, false, false) && ps.len() == 1
                    && ps[0]@ == one_pattern),
            decreases rounds_left,
        {
            if rounds_left == 0 {
                return Err(
                    Error::new(
                        ErrorType::InvalidToken,
                        "Group parsing made no progress.",
                    ),
                );
            }
            rounds_left = rounds_left - 1;
            let peeked = match cursor.peek() {
                Ok(t) => t,
                Err(e) => {
                    return Err(e);
                },
            };
            match peeked {
                Token::SparqlVariable(_) | Token::BlankNode(_) | Token::QName(_, _)
                    | Token::Uri(_) => {
                    let patterns = match SparqlParser::read_triples_pattern(cursor, query) {
                        Ok(ps) => ps,
                        Err(e) => {
                            return Err(e);
                        },
                    };
                    let mut i: usize = 0;
                    while i < patterns.len()
                        invariant
                            cursor.toks() == old(cursor).toks(),
                            cursor.at() >= old(cursor).at(),
                            i <= patterns@.len(),
                            one && !looped ==> patterns@.len() == 1 && patterns@[0]@ == (
                            TriplePatternView {
                                subject: sp_flat_subject(toks[entry])->0,
                                predicate: sp_flat_predicate(toks[entry + 1])->0,
                                object: sp_flat_object(toks[entry + 2])->0,
                                is_union: false,
                                is_optional: false,
                            }) && (group_pattern@ matches PatternView::Group(ps, false, false)
                                && ps.len() == i && (i == 1 ==> ps[0]@ == one_pattern)),
                        decreases patterns@.len() - i,
                    {
                        let cloned = patterns[i].clone();
                        let ghost before_group = group_pattern@;
                        group_pattern.add_pattern(Pattern::Triple(cloned));
                        proof {
                            if one && !looped {
                                assert(cloned@ == patterns@[i as int]@);
                                assert(Pattern::Triple(cloned)@ == PatternView::Triple(
                                    cloned@,
                                ));
                                assert(before_group matches PatternView::Group(ps0, false, false)
                                    ==> (group_pattern@ matches PatternView::Group(
                                    ps1,
                                    false,
                                    false,
                                ) && ps1 == ps0.push(Pattern::Triple(cloned))));
                            }
                        }
                        i = i + 1;
                    }
                },
                Token::Optional => {
                    let _ = cursor.next();  // consume OPTIONAL
                    let _ = cursor.next();  // the start of a new group always follows
                    let mut optional_group = match SparqlParser::parse_group(cursor, query) {
                        Ok(g) => g,
                        Err(e) => {
                            return Err(e);
                        },
                    };
                    optional_group.set_is_optional();
                    group_pattern.add_pattern(Pattern::Group(optional_group));
                },
                Token::GroupStart => {
                    let _ = cursor.next();  // consume '{'
                    let nested_group = match SparqlParser::parse_group(cursor, query) {
                        Ok(g) => g,
                        Err(e) => {
                            return Err(e);
                        },
                    };
                    group_pattern.add_pattern(Pattern::Group(nested_group));
                },
                Token::GroupEnd => {
                    let ghost cur = cursor.at() as int;
                    let _ = cursor.next();  // consume '}'
                    proof {
                        if !looped {
                            assert(cur == entry);
                            assert(entry < toks.len() && toks[entry] is GroupEnd);
                            assert(cursor.at() as int == entry + 1);
                        }
                    }
                    return Ok(group_pattern);
                },
                _ => {},
            }
            proof {
                looped = true;
            }
        }
    }

    /// Creates the triple patterns of one statement.
    fn read_triples_pattern(cursor: &mut TokenCursor, query: &SparqlQuery) -> (r: Result<
        Vec<TriplePattern>,
        Error,
    >)
        ensures
            final(cursor).toks() == old(cursor).toks(),
            final(cursor).at() >= old(cursor).at(),
            r is Ok ==> final(cursor).at() > old(cursor).at(),
            ({
                // the least statement is owed its success: a plain subject and
                // one plain pair closed by the delimiter or the group's brace
                let toks = old(cursor).toks();
                let i = old(cursor).at() as int;
                (i + 4 <= toks.len() && sp_flat_subject(toks[i]) is Some && sp_flat_predicate(
                    toks[i + 1],
                ) is Some && sp_flat_object(toks[i + 2]) is Some && (toks[i + 3]
                    is TripleDelimiter || toks[i + 3] is GroupEnd)) ==> r is Ok
                    && final(cursor).at() == (if toks[i + 3] is TripleDelimiter {
                    i + 4
                } else {
                    i + 3
                }) && r->Ok_0@.len() == 1 && r->Ok_0@[0]@ == (TriplePatternView {
                    subject: sp_flat_subject(toks[i])->0,
                    predicate: sp_flat_predicate(toks[i + 1])->0,
                    object: sp_flat_object(toks[i + 2])->0,
                    is_union: false,
                    is_optional: false,
                })
            }),
    {
        let subject = match SparqlParser::read_subject_pattern(cursor, query) {
            Ok(s) => s,
            Err(e) => {
                return Err(e);
            },
        };
        SparqlParser::read_predicate_object_list_pattern(cursor, &subject, query)
    }

    /// Reads the next token as a subject pattern.
    fn read_subject_pattern(cursor: &mut TokenCursor, query: &SparqlQuery) -> (r: Result<
        NodePattern,
        Error,
    >)
        ensures
            final(cursor).toks() == old(cursor).toks(),
            final(cursor).at() >= old(cursor).at(),
            r is Ok ==> final(cursor).at() > old(cursor).at(),
            ({
                let toks = old(cursor).toks();
                let i = old(cursor).at() as int;
                (i < toks.len() && sp_flat_subject(toks[i]) is Some) ==> r is Ok && r->Ok_0@
                    == sp_flat_subject(toks[i])->0 && final(cursor).at() == i + 1
            }),
            ({
                let toks = old(cursor).toks();
                let i = old(cursor).at() as int;
                &&& (i < toks.len() ==> (toks[i] matches TokenView::BlankNode(id) ==> r
                    is Ok && r->Ok_0@ == NodePatternView::Fixed(NodeView::Blank { id })))
                &&& (i < toks.len() ==> (toks[i] matches TokenView::Uri(uri) ==> r is Ok
                    && r->Ok_0@ == NodePatternView::Fixed(NodeView::Uri { uri })))
                &&& (i < toks.len() ==> (toks[i] matches TokenView::SparqlVariable(name)
                    ==> r is Ok && r->Ok_0@ == NodePatternView::Variable(name)))
                &&& (i < toks.len() ==> (toks[i] matches TokenView::QName(prefix, path)
                    ==> ({
                    let k = find_prefix_idx(query@.namespaces, prefix);
                    if k < query@.namespaces.len() {
                        r is Ok && r->Ok_0@ == NodePatternView::Fixed(
                            NodeView::Uri {
                                uri: query@.namespaces[k as int].uri + replace_colons(path),
                            },
                        )
                    } else {
                        r is Err && r->Err_0.kind() is InvalidNamespace
                    }
                })))
            }),
    {
        let token = match cursor.next() {
            Ok(t) => t,
            Err(e) => {
                return Err(e);
            },
        };
        match token {
            Token::BlankNode(id) => Ok(NodePattern::FixedNode(Node::BlankNode { id })),
            Token::QName(prefix, path) => {
                let mut uri = match query.get_namespace_uri_by_prefix(prefix.as_str()) {
                    Ok(u) => u.clone(),
                    Err(e) => {
                        return Err(e);
                    },
                };
                let replaced = colon_to_slash(&path);
                uri.append_resource_path(replaced.as_str());
                Ok(NodePattern::FixedNode(Node::UriNode { uri }))
            },
            Token::Uri(uri) => Ok(NodePattern::FixedNode(Node::UriNode { uri: Uri::new(uri) })),
            Token::SparqlVariable(variable_name) => Ok(
                NodePattern::VariableNode(variable_name),
            ),
            _ => Err(
                Error::new(ErrorType::InvalidToken, "Invalid token for SPARQL subject pattern."),
            ),
        }
    }

    /// Reads one pair of predicate and object patterns, and every further
    /// pair or object that `;` and `,` introduce.
    #[verifier::loop_isolation(false)]
    fn read_predicate_object_list_pattern(
        cursor: &mut TokenCursor,
        subject: &NodePattern,
        query: &SparqlQuery,
    ) -> (r: Result<Vec<TriplePattern>, Error>)
        ensures
            final(cursor).toks() == old(cursor).toks(),
            final(cursor).at() >= old(cursor).at(),
            r is Ok ==> final(cursor).at() > old(cursor).at(),
            r is Ok ==> forall|k: int| 0 <= k < r->Ok_0@.len() ==> (#[trigger] r->Ok_0@[
                k
            ])@.subject == subject@,
            ({
                // the least pattern list is owed its success: one plain pair
                // closed by the statement delimiter or the group's brace
                let toks = old(cursor).toks();
                let i = old(cursor).at() as int;
                let tp = TriplePatternView {
                    subject: subject@,
                    predicate: sp_flat_predicate(toks[i])->0,
                    object: sp_flat_object(toks[i + 1])->0,
                    is_union: false,
                    is_optional: false,
                };
                (i + 3 <= toks.len() && sp_flat_predicate(toks[i]) is Some && sp_flat_object(
                    toks[i + 1],
                ) is Some && (toks[i + 2] is TripleDelimiter || toks[i + 2] is GroupEnd)) ==> r
                    is Ok && r->Ok_0@.len() == 1 && r->Ok_0@[0]@ == tp && final(cursor).at()
                    == (if toks[i + 2] is TripleDelimiter {
                    i + 3
                } else {
                    i + 2
                })
            }),
    {
        let ghost toks = cursor.toks();
        let ghost entry = cursor.at() as int;
        let ghost minimal = entry + 3 <= toks.len() && sp_flat_predicate(toks[entry]) is Some
            && sp_flat_object(toks[entry + 1]) is Some && (toks[entry + 2] is TripleDelimiter
            || toks[entry + 2] is GroupEnd);
        let mut triples: Vec<TriplePattern> = Vec::new();
        let (predicate, object) = match SparqlParser::read_predicate_with_object_pattern(
            cursor,
            query,
        ) {
            Ok(po) => po,
            Err(e) => {
                return Err(e);
            },
        };
        triples.push(TriplePattern::new(subject, &predicate, &object));
        loop
            invariant
                cursor.toks() == old(cursor).toks(),
                cursor.at() > old(cursor).at(),
                forall|k: int| 0 <= k < triples@.len() ==> (#[trigger] triples@[k])@.subject
                    == subject@,
                minimal ==> cursor.at() as int == entry + 2 && triples@.len() == 1 && triples@[
                    0
                ]@ == (TriplePatternView {
                    subject: subject@,
                    predicate: sp_flat_predicate(toks[entry])->0,
                    object: sp_flat_object(toks[entry + 1])->0,
                    is_union: false,
                    is_optional: false,
                }),
            decreases cursor.rem(),
        {
            let peeked = match cursor.peek() {
                Ok(t) => t,
                Err(e) => {
                    return Err(e);
                },
            };
            match peeked {
                Token::TripleDelimiter => {
                    let _ = cursor.next();
                    return Ok(triples);
                },
                Token::GroupEnd => {
                    return Ok(triples);
                },
                Token::PredicateListDelimiter => {
                    let _ = cursor.next();
                    let (predicate, object) = match
                        SparqlParser::read_predicate_with_object_pattern(cursor, query) {
                        Ok(po) => po,
                        Err(e) => {
                            return Err(e);
                        },
                    };
                    triples.push(TriplePattern::new(subject, &predicate, &object));
                },
                Token::ObjectListDelimiter => {
                    let _ = cursor.next();
                    let object = match SparqlParser::read_object_pattern(cursor, query) {
                        Ok(o) => o,
                        Err(e) => {
                            return Err(e);
                        },
                    };
                    triples.push(TriplePattern::new(subject, &predicate, &object));
                },
                _ => {
                    return Err(
                        Error::new(
                            ErrorType::InvalidToken,
                            "Invalid token while reading SPARQL triples patterns",
                        ),
                    );
                },
            }
        }
    }

    /// Reads the next token as a predicate pattern (`a` stands for
    /// `rdf:type`), then the object pattern that follows it.
    fn read_predicate_with_object_pattern(cursor: &mut TokenCursor, query: &SparqlQuery) -> (r:
        Result<(NodePattern, NodePattern), Error>)
        ensures
            final(cursor).toks() == old(cursor).toks(),
            final(cursor).at() >= old(cursor).at(),
            r is Ok ==> final(cursor).at() > old(cursor).at(),
            ({
                // a plain predicate-object pair is owed its patterns
                let toks = old(cursor).toks();
                let i = old(cursor).at() as int;
                (i + 2 <= toks.len() && sp_flat_predicate(toks[i]) is Some && sp_flat_object(
                    toks[i + 1],
                ) is Some) ==> r is Ok && r->Ok_0.0@ == sp_flat_predicate(toks[i])->0
                    && r->Ok_0.1@ == sp_flat_object(toks[i + 1])->0 && final(cursor).at() == i
                    + 2
            }),
    {
        let token = match cursor.next() {
            Ok(t) => t,
            Err(e) => {
                return Err(e);
            },
        };
        let predicate = match token {
            Token::Uri(uri) => NodePattern::FixedNode(Node::UriNode { uri: Uri::new(uri) }),
            Token::KeywordA => NodePattern::FixedNode(
                Node::UriNode { uri: RdfSyntaxDataTypes::A.to_uri() },
            ),
            Token::QName(prefix, path) => {
                let mut uri = match query.get_namespace_uri_by_prefix(prefix.as_str()) {
                    Ok(u) => u.clone(),
                    Err(e) => {
                        return Err(e);
                    },
                };
                let replaced = colon_to_slash(&path);
                uri.append_resource_path(replaced.as_str());
                NodePattern::FixedNode(Node::UriNode { uri })
            },
            Token::BlankNode(id) => NodePattern::FixedNode(Node::BlankNode { id }),
            Token::SparqlVariable(variable_name) => NodePattern::VariableNode(variable_name),
            _ => {
                return Err(
                    Error::new(
                        ErrorType::InvalidToken,
                        "Invalid token for SPARQL triple pattern predicate.",
                    ),
                );
            },
        };
        let object = match SparqlParser::read_object_pattern(cursor, query) {
            Ok(o) => o,
            Err(e) => {
                return Err(e);
            },
        };
        Ok((predicate, object))
    }

    /// Reads the next token as an object pattern.
    fn read_object_pattern(cursor: &mut TokenCursor, query: &SparqlQuery) -> (r: Result<
        NodePattern,
        Error,
    >)
        ensures
            final(cursor).toks() == old(cursor).toks(),
            final(cursor).at() >= old(cursor).at(),
            r is Ok ==> final(cursor).at() > old(cursor).at(),
            ({
                let toks = old(cursor).toks();
                let i = old(cursor).at() as int;
                (i < toks.len() && sp_flat_object(toks[i]) is Some) ==> r is Ok && r->Ok_0@
                    == sp_flat_object(toks[i])->0 && final(cursor).at() == i + 1
            }),
            ({
                let toks = old(cursor).toks();
                let i = old(cursor).at() as int;
                &&& (i < toks.len() ==> (toks[i] matches TokenView::SparqlVariable(name)
                    ==> r is Ok && r->Ok_0@ == NodePatternView::Variable(name)))
                &&& (i < toks.len() ==> (toks[i] matches TokenView::BlankNode(id) ==> r is Ok
                    && r->Ok_0@ == NodePatternView::Fixed(NodeView::Blank { id })))
                &&& (i < toks.len() ==> (toks[i] matches TokenView::Uri(uri) ==> r is Ok
                    && r->Ok_0@ == NodePatternView::Fixed(NodeView::Uri { uri })))
                &&& (i < toks.len() ==> (toks[i] matches TokenView::QName(prefix, path) ==> ({
                    let k = find_prefix_idx(query@.namespaces, prefix);
                    if k < query@.namespaces.len() {
                        r is Ok && r->Ok_0@ == NodePatternView::Fixed(
                            NodeView::Uri {
                                uri: query@.namespaces[k as int].uri + replace_colons(path),
                            },
                        )
                    } else {
                        r is Err && r->Err_0.kind() is InvalidNamespace
                    }
                })))
                &&& (i < toks.len() ==> (toks[i] matches
                    TokenView::LiteralWithUrlDatatype(lit, dt) ==> r is Ok && r->Ok_0@
                    == NodePatternView::Fixed(
                    NodeView::Literal { literal: lit, data_type: Some(dt), language: None },
                )))
                &&& (i < toks.len() ==> (toks[i] matches
                    TokenView::LiteralWithLanguageSpecification(lit, lang) ==> r is Ok
                    && r->Ok_0@ == NodePatternView::Fixed(
                    NodeView::Literal { literal: lit, data_type: None, language: Some(lang) },
                )))
                &&& (i < toks.len() ==> (toks[i] matches TokenView::Literal(lit) ==> r
                    is Ok && r->Ok_0@ == NodePatternView::Fixed(
                    NodeView::Literal { literal: lit, data_type: None, language: None },
                )))
            }),
    {
        let token = match cursor.next() {
            Ok(t) => t,
            Err(e) => {
                return Err(e);
            },
        };
        match token {
            Token::BlankNode(id) => Ok(NodePattern::FixedNode(Node::BlankNode { id })),
            Token::Uri(uri) => Ok(NodePattern::FixedNode(Node::UriNode { uri: Uri::new(uri) })),
            Token::QName(prefix, path) => {
                let mut uri = match query.get_namespace_uri_by_prefix(prefix.as_str()) {
                    Ok(u) => u.clone(),
                    Err(e) => {
                        return Err(e);
                    },
                };
                let replaced = colon_to_slash(&path);
                uri.append_resource_path(replaced.as_str());
                Ok(NodePattern::FixedNode(Node::UriNode { uri }))
            },
            Token::SparqlVariable(variable_name) => Ok(
                NodePattern::VariableNode(variable_name),
            ),
            Token::LiteralWithLanguageSpecification(literal, lang) => Ok(
                NodePattern::FixedNode(
                    Node::LiteralNode { literal, data_type: None, language: Some(lang) },
                ),
            ),
            Token::LiteralWithUrlDatatype(literal, datatype) => Ok(
                NodePattern::FixedNode(
                    Node::LiteralNode {
                        literal,
                        data_type: Some(Uri::new(datatype)),
                        language: None,
                    },
                ),
            ),
            Token::Literal(literal) => Ok(
                NodePattern::FixedNode(
                    Node::LiteralNode { literal, data_type: None, language: None },
                ),
            ),
            _ => Err(
                Error::new(ErrorType::InvalidToken, "Invalid token for SPARQL object pattern."),
            ),
        }
    }
}

} // verus!
