use vstd::prelude::*;

use crate::error::{Error, ErrorType};
use crate::helper::{flatten_chars, push_char};
use crate::lexer::token::{Token, TokenView};
use crate::reader::input_reader::{
    lemma_scan_idx, prefix_len_whitespace, scan_idx, sub_or_zero, trim_entries, Delim, InputChar,
    InputReader,
};
use crate::specs::sparql_specs::SparqlKeyword;
use crate::specs::turtle_specs::{
    spec_is_boolean_literal, spec_is_double_literal, spec_is_integer_literal, TurtleSpecs,
};
use crate::specs::xml_specs::{spec_xml_type_str, XmlDataTypes};

verus! {

/// A token that names one of the SPARQL keywords.
pub open spec fn spec_is_keyword_token(t: TokenView) -> bool {
    ||| t is Select
    ||| t is Where
    ||| t is Distinct
    ||| t is Reduced
    ||| t is Construct
    ||| t is Describe
    ||| t is Ask
    ||| t is From
    ||| t is Named
    ||| t is Order
    ||| t is By
    ||| t is Asc
    ||| t is Desc
    ||| t is Offset
    ||| t is Optional
    ||| t is Filter
    ||| t is Graph
    ||| t is Union
    ||| t is Regex
}

/// Consumes the next character of the input reader.
pub(crate) fn consume_next_char(input_reader: &mut InputReader)
    ensures
        old(input_reader).pending().len() > 0 ==> final(input_reader).pending() == old(input_reader).pending().skip(1) && final(input_reader).buffered_len() == sub_or_zero(
            old(input_reader).buffered_len(),
            1,
        ),
        old(input_reader).pending().len() == 0 ==> *final(input_reader) == *old(input_reader),
{
    let _ = input_reader.get_next_char();
}

/// Whether two possibly absent characters are the same.
pub(crate) fn input_char_eq(a: InputChar, b: InputChar) -> (r: bool)
    ensures
        r == (a == b),
{
    match (a, b) {
        (Some(x), Some(y)) => x == y,
        (None, None) => true,
        _ => false,
    }
}

/// Reads the body of a comment: everything up to the line break.
pub(crate) fn get_comment(input_reader: &mut InputReader) -> (r: Result<Token, Error>)
    ensures
        r is Ok && r->Ok_0@ is Comment,
        ({
            // the comment text is exactly what stands before the line break
            // (or the end), leading whitespace dropped and both ends trimmed
            let p = old(input_reader).pending();
            let q0 = p.skip(1);
            let q = q0.skip(prefix_len_whitespace(q0) as int);
            let j = scan_idx(Delim::LineBreak, q);
            p.len() >= 1 ==> r->Ok_0@ == TokenView::Comment(
                flatten_chars(trim_entries(q.take(j as int))),
            )
        }),
{
    consume_next_char(input_reader);  // consume '#'
    proof {
        let p = input_reader.pending();
        let q = p.skip(prefix_len_whitespace(p) as int);
        lemma_scan_idx(Delim::LineBreak, q);
        if scan_idx(Delim::LineBreak, q) == q.len() {
            assert(q.take(scan_idx(Delim::LineBreak, q) as int) =~= q);
        }
    }
    match input_reader.get_until_discard_leading_spaces(Delim::LineBreak) {
        Ok(chars) => {
            consume_next_char(input_reader);  // consume comment delimiter
            Ok(Token::Comment(chars.to_string()))
        },
        Err(err) => {
            match err.error_type() {
                ErrorType::EndOfInput(chars) => Ok(Token::Comment(chars.to_string())),
                _ => Err(
                    Error::new(
                        ErrorType::InvalidReaderInput,
                        "Invalid input for lexer while parsing comment.",
                    ),
                ),
            }
        },
    }
}

/// Reads a language tag: everything up to the next node delimiter.
pub(crate) fn get_language_specification(input_reader: &mut InputReader) -> Result<String, Error> {
    match input_reader.get_until(Delim::NodeDelimiter) {
        Ok(chars) => Ok(chars.to_string()),
        Err(err) => {
            match err.error_type() {
                ErrorType::EndOfInput(chars) => Ok(chars.to_string()),
                _ => Err(
                    Error::new(
                        ErrorType::InvalidReaderInput,
                        "Invalid input for lexer while parsing language specification.",
                    ),
                ),
            }
        },
    }
}

/// Reads a bracketed URI: everything up to the closing angle bracket.
pub(crate) fn get_uri(input_reader: &mut InputReader) -> (r: Result<Token, Error>)
    ensures
        r is Ok ==> r->Ok_0@ is Uri,
        r is Err ==> r->Err_0.kind() is EndOfInput,
        ({
            // a closed bracket is owed its URI token, carrying exactly the
            // characters up to it, which are consumed with both brackets
            let p = old(input_reader).pending();
            let q = p.skip(1);
            let j = scan_idx(Delim::Char('>'), q);
            (p.len() >= 1 && j < q.len() && q[j as int] is Some) ==> r is Ok && r->Ok_0@
                == TokenView::Uri(flatten_chars(q.take(j as int))) && final(input_reader).pending() == q.skip(j + 1 as int) && (old(input_reader).buffered_len() == 0
                ==> final(input_reader).buffered_len() == 0)
        }),
{
    consume_next_char(input_reader);  // consume '<'
    proof {
        lemma_scan_idx(Delim::Char('>'), input_reader.pending());
    }
    let chars = match input_reader.get_until(Delim::Char('>')) {
        Ok(c) => c,
        Err(e) => {
            return Err(e);
        },
    };
    consume_next_char(input_reader);  // consume '>'
    Ok(Token::Uri(chars.to_string()))
}

/// Reads a blank-node label: `_:` and the identifier up to the next node
/// delimiter.
pub(crate) fn get_blank_node(input_reader: &mut InputReader) -> (r: Result<Token, Error>)
    ensures
        r is Ok ==> r->Ok_0@ is BlankNode,
        ({
            // an underscore and colon are owed the label token, carrying
            // exactly the characters up to the next delimiter, which stays
            let p = old(input_reader).pending();
            let q = p.skip(2);
            let j = scan_idx(Delim::NodeDelimiter, q);
            &&& ((p.len() >= 2 && p[1] == Some(':') && j < q.len() && q[j as int] is Some)
                ==> r is Ok && r->Ok_0@ == TokenView::BlankNode(
                flatten_chars(q.take(j as int)),
            ) && final(input_reader).pending() == seq![q[j as int]] + q.skip(j + 1 as int))
            &&& ((p.len() >= 2 && p[1] == Some(':') && j == q.len()) ==> r is Ok && r->Ok_0@
                == TokenView::BlankNode(flatten_chars(q)) && final(input_reader).pending()
                == Seq::<InputChar>::empty())
        }),
{
    proof {
        lemma_scan_idx(Delim::NodeDelimiter, old(input_reader).pending().skip(2));
    }
    consume_next_char(input_reader);  // consume '_'
    // get the colon after the underscore
    match input_reader.get_next_char() {
        Ok(Some(':')) => {
            proof {
                if old(input_reader).pending().len() >= 2 {
                    assert(input_reader.pending() =~= old(input_reader).pending().skip(2));
                }
            }
        },
        Ok(Some(_)) => {
            return Err(
                Error::new(
                    ErrorType::InvalidReaderInput,
                    "Invalid character while parsing blank node.",
                ),
            );
        },
        Ok(None) => {
            return Err(
                Error::new(ErrorType::InvalidReaderInput, "Error while parsing blank node."),
            );
        },
        Err(e) => {
            return Err(e);
        },
    }
    match input_reader.get_until(Delim::NodeDelimiter) {
        Ok(chars) => Ok(Token::BlankNode(chars.to_string())),
        Err(err) => {
            match err.error_type() {
                ErrorType::EndOfInput(chars) => Ok(Token::BlankNode(chars.to_string())),
                _ => Err(
                    Error::new(
                        ErrorType::InvalidReaderInput,
                        "Invalid input for lexer while parsing blank node.",
                    ),
                ),
            }
        },
    }
}

/// Reads a single-quoted literal and its optional language or data-type
/// suffix, as N-Triples has them.
pub(crate) fn get_flat_literal(input_reader: &mut InputReader) -> (r: Result<Token, Error>)
    ensures
        r is Ok ==> r->Ok_0@ is Literal || r->Ok_0@ is LiteralWithLanguageSpecification
            || r->Ok_0@ is LiteralWithUrlDatatype,
{
    consume_next_char(input_reader);  // consume '"'
    let literal = match input_reader.get_until(Delim::Char('"')) {
        Ok(c) => c.to_string(),
        Err(e) => {
            return Err(e);
        },
    };
    consume_next_char(input_reader);  // consume '"'
    let peeked = match input_reader.peek_next_char() {
        Ok(c) => c,
        Err(e) => {
            return Err(e);
        },
    };
    match peeked {
        Some('@') => {
            consume_next_char(input_reader);  // consume '@'
            let language = match get_language_specification(input_reader) {
                Ok(l) => l,
                Err(e) => {
                    return Err(e);
                },
            };
            Ok(Token::LiteralWithLanguageSpecification(literal, language))
        },
        Some('^') => {
            consume_next_char(input_reader);  // consume '^'
            consume_next_char(input_reader);  // consume '^'
            let next = match input_reader.peek_next_char() {
                Ok(c) => c,
                Err(e) => {
                    return Err(e);
                },
            };
            match next {
                Some('<') => {
                    // the data type is a URI (N-Triples allows only URI data types)
                    match get_uri(input_reader) {
                        Ok(Token::Uri(datatype_uri)) => Ok(
                            Token::LiteralWithUrlDatatype(literal, datatype_uri),
                        ),
                        Ok(_) => Err(
                            Error::new(
                                ErrorType::InvalidReaderInput,
                                "Invalid data type URI for literal.",
                            ),
                        ),
                        Err(e) => Err(e),
                    }
                },
                Some(_) => Err(
                    Error::new(
                        ErrorType::InvalidReaderInput,
                        "Invalid data type token for literal.",
                    ),
                ),
                None => Err(Error::new(ErrorType::InvalidReaderInput, "Invalid input.")),
            }
        },
        _ => {
            consume_next_char(input_reader);  // consume the character after the literal
            Ok(Token::Literal(literal))
        },
    }
}

/// Reads a quoted literal, single- or triple-quoted with either quote
/// character, and its optional language or data-type suffix, as Turtle has
/// them.
#[verifier::loop_isolation(false)]
pub(crate) fn get_turtle_literal(input_reader: &mut InputReader) -> (r: Result<Token, Error>)
    ensures
        r is Ok ==> r->Ok_0@ is Literal || r->Ok_0@ is LiteralWithLanguageSpecification
            || r->Ok_0@ is LiteralWithUrlDatatype || r->Ok_0@ is LiteralWithQNameDatatype,
        ({
            // a plainly quoted body with no language or data-type suffix is
            // owed its token, carrying exactly the characters between the
            // quotes
            let p = old(input_reader).pending();
            let body_scan = scan_idx(Delim::Char('"'), p.skip(1));
            let rest = p.skip(1).skip(body_scan + 1 as int);
            (p.len() >= 1 && p[0] == Some('"') && 1 <= body_scan < p.skip(1).len() && p.skip(
                1,
            )[body_scan as int] is Some && !(rest.len() > 0 && (rest[0] == Some('@') || rest[0]
                == Some('^')))) ==> r is Ok && r->Ok_0@ == TokenView::Literal(
                flatten_chars(p.skip(1).take(body_scan as int)),
            )
        }),
{
    let ghost p0 = old(input_reader).pending();
    let ghost body_scan = scan_idx(Delim::Char('"'), p0.skip(1));
    let ghost simple = p0.len() >= 1 && p0[0] == Some('"') && 1 <= body_scan < p0.skip(1).len()
        && p0.skip(1)[body_scan as int] is Some && !({
        let rest = p0.skip(1).skip(body_scan + 1 as int);
        rest.len() > 0 && (rest[0] == Some('@') || rest[0] == Some('^'))
    });
    proof {
        lemma_scan_idx(Delim::Char('"'), p0.skip(1));
    }
    let literal_delimiter = match input_reader.get_next_char() {
        Ok(c) => c,
        Err(e) => {
            return Err(e);
        },
    };
    let delimiter_char = match literal_delimiter {
        Some(d) => d,
        None => {
            return Err(
                Error::new(ErrorType::InvalidReaderInput, "Invalid input for literal."),
            );
        },
    };
    let mut is_multiline = false;
    let potential_literal_quotes = match input_reader.peek_next_k_chars(2) {
        Ok(c) => c,
        Err(e) => {
            return Err(e);
        },
    };
    // check if the literal is multiline
    if input_char_eq(potential_literal_quotes.get_at(0), literal_delimiter) && input_char_eq(
        potential_literal_quotes.get_at(1),
        literal_delimiter,
    ) {
        is_multiline = true;
        let _ = input_reader.get_next_k_chars(2);  // consume
    }
    let mut found_literal_end = false;
    let mut literal = String::new();
    // each round consumes input, so the budget is never exhausted in practice
    let mut rounds_left: usize = usize::MAX;
    while !found_literal_end && rounds_left > 0
        invariant
            simple && !found_literal_end ==> rounds_left == usize::MAX && !is_multiline
                && delimiter_char == '"' && literal@ == Seq::<char>::empty()
                && input_reader.pending() == p0.skip(1),
            simple && found_literal_end ==> literal@ == flatten_chars(
                p0.skip(1).take(body_scan as int),
            ) && input_reader.pending() == seq![p0.skip(1)[body_scan as int]] + p0.skip(1).skip(
                body_scan + 1 as int,
            ),
        decreases rounds_left,
    {
        rounds_left = rounds_left - 1;
        let part = match input_reader.get_until(Delim::Char(delimiter_char)) {
            Ok(c) => c,
            Err(e) => {
                return Err(e);
            },
        };
        let part_string = part.to_string();
        literal.append(part_string.as_str());
        if is_multiline {
            // if not escaped, check if the literal is complete
            let potential_literal_delimiters = match input_reader.peek_next_k_chars(2) {
                Ok(c) => c,
                Err(e) => {
                    return Err(e);
                },
            };
            if input_char_eq(potential_literal_delimiters.get_at(0), literal_delimiter)
                && input_char_eq(potential_literal_delimiters.get_at(1), literal_delimiter) {
                consume_next_char(input_reader);
                consume_next_char(input_reader);
                found_literal_end = true;
            } else {
                let one = match input_reader.get_next_k_chars(1) {
                    Ok(c) => c,
                    Err(e) => {
                        return Err(e);
                    },
                };
                let one_string = one.to_string();
                literal.append(one_string.as_str());
            }
        } else {
            found_literal_end = true;
        }
    }
    if !found_literal_end {
        return Err(Error::new(ErrorType::InvalidReaderInput, "Unterminated literal."));
    }
    consume_next_char(input_reader);  // consume the closing quote
    let peeked = match input_reader.peek_next_char() {
        Ok(c) => c,
        Err(e) => {
            return Err(e);
        },
    };
    match peeked {
        Some('@') => {
            consume_next_char(input_reader);  // consume '@'
            let language = match get_language_specification(input_reader) {
                Ok(l) => l,
                Err(e) => {
                    return Err(e);
                },
            };
            Ok(Token::LiteralWithLanguageSpecification(literal, language))
        },
        Some('^') => {
            consume_next_char(input_reader);  // consume '^'
            consume_next_char(input_reader);  // consume '^'
            let next = match input_reader.peek_next_char() {
                Ok(c) => c,
                Err(e) => {
                    return Err(e);
                },
            };
            match next {
                Some('<') => {
                    // the data type is a URI
                    match get_uri(input_reader) {
                        Ok(Token::Uri(datatype_uri)) => Ok(
                            Token::LiteralWithUrlDatatype(literal, datatype_uri),
                        ),
                        Ok(_) => Err(
                            Error::new(
                                ErrorType::InvalidReaderInput,
                                "Invalid data type URI for Turtle literal.",
                            ),
                        ),
                        Err(e) => Err(e),
                    }
                },
                Some(_) => {
                    match get_qname(input_reader) {
                        Ok(Token::QName(prefix, path)) => Ok(
                            Token::LiteralWithQNameDatatype(literal, prefix, path),
                        ),
                        Ok(_) => Err(
                            Error::new(
                                ErrorType::InvalidReaderInput,
                                "Invalid Turtle input for parsing QName data type.",
                            ),
                        ),
                        Err(e) => Err(e),
                    }
                },
                None => Err(
                    Error::new(ErrorType::InvalidReaderInput, "Invalid Turtle input."),
                ),
            }
        },
        _ => Ok(Token::Literal(literal)),
    }
}

/// Reads a QName: the prefix up to and including the colon, then the path
/// up to the next node delimiter.
pub(crate) fn get_qname(input_reader: &mut InputReader) -> (r: Result<Token, Error>)
    ensures
        r is Ok ==> r->Ok_0@ is QName,
        ({
            // a colon splits the name: the prefix carries the characters up
            // to and with the colon, the path those up to the next delimiter
            let p = old(input_reader).pending();
            let k = scan_idx(Delim::Char(':'), p);
            let q = p.skip(k + 1 as int);
            let j = scan_idx(Delim::NodeDelimiter, q);
            &&& ((k < p.len() && p[k as int] is Some && j < q.len() && q[j as int] is Some)
                ==> r is Ok && r->Ok_0@ == TokenView::QName(
                flatten_chars(p.take(k as int)).push(':'),
                flatten_chars(q.take(j as int)),
            ))
            &&& ((k < p.len() && p[k as int] is Some && j == q.len()) ==> r is Ok && r->Ok_0@
                == TokenView::QName(
                flatten_chars(p.take(k as int)).push(':'),
                flatten_chars(q),
            ))
        }),
{
    proof {
        lemma_scan_idx(Delim::Char(':'), old(input_reader).pending());
    }
    let prefix_chars = match input_reader.get_until(Delim::Char(':')) {
        Ok(c) => c,
        Err(e) => {
            return Err(e);
        },
    };
    let mut prefix = prefix_chars.to_string();
    push_char(&mut prefix, ':');  // the colon is part of the prefix name
    consume_next_char(input_reader);  // consume ':'
    proof {
        let p = old(input_reader).pending();
        let k = scan_idx(Delim::Char(':'), p);
        if k < p.len() && p[k as int] is Some {
            assert((seq![p[k as int]] + p.skip(k + 1 as int)).skip(1) =~= p.skip(
                k + 1 as int,
            ));
        }
    }
    match input_reader.get_until(Delim::NodeDelimiter) {
        Ok(chars) => Ok(Token::QName(prefix, chars.to_string())),
        Err(err) => {
            match err.error_type() {
                ErrorType::EndOfInput(chars) => Ok(Token::QName(prefix, chars.to_string())),
                _ => Err(
                    Error::new(
                        ErrorType::InvalidReaderInput,
                        "Invalid input for Turtle lexer while parsing QName.",
                    ),
                ),
            }
        },
    }
}

/// Checks that the next five characters spell `base` (in either case)
/// followed by a space.
fn looks_like_base(chars: &crate::reader::input_reader::InputChars) -> bool {
    if chars.len() < 5 {
        return false;
    }
    let ok0 = match chars.get_at(0) {
        Some(c) => c == 'b' || c == 'B',
        None => false,
    };
    let ok1 = match chars.get_at(1) {
        Some(c) => c == 'a' || c == 'A',
        None => false,
    };
    let ok2 = match chars.get_at(2) {
        Some(c) => c == 's' || c == 'S',
        None => false,
    };
    let ok3 = match chars.get_at(3) {
        Some(c) => c == 'e' || c == 'E',
        None => false,
    };
    let ok4 = match chars.get_at(4) {
        Some(c) => c == ' ',
        None => false,
    };
    ok0 && ok1 && ok2 && ok3 && ok4
}

/// Checks that the next seven characters spell `prefix` (in either case)
/// followed by a space.
fn looks_like_prefix(chars: &crate::reader::input_reader::InputChars) -> bool {
    if chars.len() < 7 {
        return false;
    }
    let ok0 = match chars.get_at(0) {
        Some(c) => c == 'p' || c == 'P',
        None => false,
    };
    let ok1 = match chars.get_at(1) {
        Some(c) => c == 'r' || c == 'R',
        None => false,
    };
    let ok2 = match chars.get_at(2) {
        Some(c) => c == 'e' || c == 'E',
        None => false,
    };
    let ok3 = match chars.get_at(3) {
        Some(c) => c == 'f' || c == 'F',
        None => false,
    };
    let ok4 = match chars.get_at(4) {
        Some(c) => c == 'i' || c == 'I',
        None => false,
    };
    let ok5 = match chars.get_at(5) {
        Some(c) => c == 'x' || c == 'X',
        None => false,
    };
    let ok6 = match chars.get_at(6) {
        Some(c) => c == ' ',
        None => false,
    };
    ok0 && ok1 && ok2 && ok3 && ok4 && ok5 && ok6
}

/// Reads a base directive: the word `base` and a bracketed URI.
pub(crate) fn get_base_directive(input_reader: &mut InputReader) -> (r: Result<Token, Error>)
    ensures
        r is Ok ==> r->Ok_0@ is BaseDirective,
{
    let base_directive = match input_reader.peek_next_k_chars(5) {
        Ok(c) => c,
        Err(e) => {
            return Err(e);
        },
    };
    if !looks_like_base(&base_directive) {
        return Err(
            Error::new(ErrorType::InvalidReaderInput, "Invalid URI for base directive."),
        );
    }
    let _ = input_reader.get_until(Delim::Char('<'));  // consume 'base'
    match get_uri(input_reader) {
        Ok(Token::Uri(base_uri)) => Ok(Token::BaseDirective(base_uri)),
        Ok(_) => Err(
            Error::new(ErrorType::InvalidReaderInput, "Invalid URI for base directive."),
        ),
        Err(e) => Err(e),
    }
}

/// Reads a prefix directive: the word `prefix`, a name ending in a colon,
/// and a bracketed URI.
pub(crate) fn get_prefix_directive(input_reader: &mut InputReader) -> (r: Result<Token, Error>)
    ensures
        r is Ok ==> r->Ok_0@ is PrefixDirective,
{
    let prefix_directive = match input_reader.peek_next_k_chars(7) {
        Ok(c) => c,
        Err(e) => {
            return Err(e);
        },
    };
    if !looks_like_prefix(&prefix_directive) {
        return Err(
            Error::new(ErrorType::InvalidReaderInput, "Invalid URI for prefix directive."),
        );
    }
    let _ = input_reader.get_until(Delim::Char(' '));  // consume 'prefix'
    // get the prefix name including ':'
    let name_chars = match input_reader.get_until_discard_leading_spaces(Delim::Char(':')) {
        Ok(c) => c,
        Err(e) => {
            return Err(e);
        },
    };
    let mut name = name_chars.to_string();
    push_char(&mut name, ':');
    let _ = input_reader.get_until(Delim::Char('<'));  // consume the characters up to the URI
    match get_uri(input_reader) {
        Ok(Token::Uri(prefix_uri)) => Ok(Token::PrefixDirective(name, prefix_uri)),
        Ok(_) => Err(
            Error::new(ErrorType::InvalidReaderInput, "Invalid URI for prefix directive."),
        ),
        Err(e) => Err(e),
    }
}

/// Whether the entry can open a base or prefix directive word.
pub open spec fn opens_base_or_prefix(e: InputChar) -> bool {
    e matches Some(c) && (c == 'b' || c == 'B' || c == 'p' || c == 'P')
}

/// Reads a base or prefix definition, in either case.
pub(crate) fn get_base_or_prefix(input_reader: &mut InputReader) -> (r: Result<Token, Error>)
    ensures
        r is Ok ==> r->Ok_0@ is BaseDirective || r->Ok_0@ is PrefixDirective,
        ({
            let p = old(input_reader).pending();
            (p.len() == 0 || !opens_base_or_prefix(p[0])) ==> r is Err && r->Err_0.kind()
                is InvalidReaderInput
        }),
{
    let peeked = match input_reader.peek_next_char() {
        Ok(c) => c,
        Err(e) => {
            return Err(e);
        },
    };
    match peeked {
        Some('b') | Some('B') => get_base_directive(input_reader),
        Some('p') | Some('P') => get_prefix_directive(input_reader),
        _ => Err(
            Error::new(
                ErrorType::InvalidReaderInput,
                "Invalid input while trying to parse base or prefix definition.",
            ),
        ),
    }
}

/// Reads a base or prefix definition, upper case only, as SPARQL has them.
pub(crate) fn get_sparql_base_or_prefix(input_reader: &mut InputReader) -> (r: Result<
    Token,
    Error,
>)
    ensures
        r is Ok ==> r->Ok_0@ is BaseDirective || r->Ok_0@ is PrefixDirective,
{
    let peeked = match input_reader.peek_next_char() {
        Ok(c) => c,
        Err(e) => {
            return Err(e);
        },
    };
    match peeked {
        Some('B') => get_base_directive(input_reader),
        Some('P') => get_prefix_directive(input_reader),
        _ => Err(
            Error::new(
                ErrorType::InvalidReaderInput,
                "Invalid input while trying to parse base or prefix definition.",
            ),
        ),
    }
}

/// Reads an integer or double literal: the token carries the text and the
/// data type its grammar settles.
pub(crate) fn get_numeric(input_reader: &mut InputReader) -> (r: Result<Token, Error>)
    ensures
        r is Ok ==> (r->Ok_0@ matches TokenView::LiteralWithUrlDatatype(lit, dt) && ((dt
            == spec_xml_type_str(XmlDataTypes::Integer) && spec_is_integer_literal(lit)) || (dt
            == spec_xml_type_str(XmlDataTypes::Double) && spec_is_double_literal(lit)))),
        ({
            // an integer before a delimiter other than the dot is owed its
            // token, carrying exactly its characters
            let p = old(input_reader).pending();
            let q = p.skip(prefix_len_whitespace(p) as int);
            let j = scan_idx(Delim::NodeDelimiter, q);
            let word = flatten_chars(trim_entries(q.take(j as int)));
            (j < q.len() && q[j as int] is Some && q[j as int] != Some('.')
                && spec_is_integer_literal(word)) ==> r is Ok && r->Ok_0@
                == TokenView::LiteralWithUrlDatatype(
                word,
                spec_xml_type_str(XmlDataTypes::Integer),
            )
        }),
        ({
            // so is a double that is not an integer, as a double
            let p = old(input_reader).pending();
            let q = p.skip(prefix_len_whitespace(p) as int);
            let j = scan_idx(Delim::NodeDelimiter, q);
            let word = flatten_chars(trim_entries(q.take(j as int)));
            (j < q.len() && q[j as int] is Some && q[j as int] != Some('.')
                && !spec_is_integer_literal(word) && spec_is_double_literal(word)) ==> r is Ok
                && r->Ok_0@ == TokenView::LiteralWithUrlDatatype(
                word,
                spec_xml_type_str(XmlDataTypes::Double),
            )
        }),
{
    proof {
        let p = old(input_reader).pending();
        lemma_scan_idx(Delim::NodeDelimiter, p.skip(prefix_len_whitespace(p) as int));
    }
    let numeric = match input_reader.get_until_discard_leading_spaces(Delim::NodeDelimiter) {
        Ok(c) => c,
        Err(e) => {
            return Err(e);
        },
    };
    // check if the delimiter was '.' and if it is part of a decimal or a
    // statement delimiter
    let after = match input_reader.get_next_char() {
        Ok(c) => c,
        Err(e) => {
            return Err(e);
        },
    };
    let after_is_dot = match after {
        Some('.') => true,
        _ => false,
    };
    if after_is_dot {
        let mut complete_numeric = numeric.clone();
        match input_reader.peek_until(Delim::NodeDelimiter) {
            Ok(mut input_chars) => {
                complete_numeric.push(Some('.'));
                complete_numeric.append(&mut input_chars);
                let complete_string = complete_numeric.to_string();
                if TurtleSpecs::is_double_literal(complete_string.as_str()) {
                    // consume what was peeked
                    let consumed = input_reader.get_until_discard_leading_spaces(
                        Delim::NodeDelimiter,
                    );
                    match consumed {
                        Ok(_) => {},
                        Err(e) => {
                            return Err(e);
                        },
                    }
                    return Ok(
                        Token::LiteralWithUrlDatatype(
                            complete_string,
                            XmlDataTypes::Double.to_string(),
                        ),
                    );
                }
            },
            _ => {},
        }
    }
    let numeric_string = numeric.to_string();
    if TurtleSpecs::is_integer_literal(numeric_string.as_str()) {
        Ok(Token::LiteralWithUrlDatatype(numeric_string, XmlDataTypes::Integer.to_string()))
    } else if TurtleSpecs::is_double_literal(numeric_string.as_str()) {
        Ok(Token::LiteralWithUrlDatatype(numeric_string, XmlDataTypes::Double.to_string()))
    } else {
        Err(Error::new(ErrorType::InvalidReaderInput, "Invalid input for numeric literal."))
    }
}

/// Reads a boolean literal without consuming it: the token carries exactly
/// `true` or `false`, typed as a boolean.
pub(crate) fn get_boolean_literal(input_reader: &mut InputReader) -> (r: Result<Token, Error>)
    ensures
        r is Ok ==> (r->Ok_0@ matches TokenView::LiteralWithUrlDatatype(lit, dt)
            && spec_is_boolean_literal(lit) && dt == spec_xml_type_str(XmlDataTypes::Boolean)),
        ({
            // the words true and false before a delimiter are owed their token
            let p = old(input_reader).pending();
            let q = p.skip(prefix_len_whitespace(p) as int);
            let j = scan_idx(Delim::NodeDelimiter, q);
            let word = flatten_chars(trim_entries(q.take(j as int)));
            (j < q.len() && q[j as int] is Some && spec_is_boolean_literal(word)) ==> r is Ok
                && r->Ok_0@ == TokenView::LiteralWithUrlDatatype(
                word,
                spec_xml_type_str(XmlDataTypes::Boolean),
            )
        }),
{
    proof {
        let p = old(input_reader).pending();
        lemma_scan_idx(Delim::NodeDelimiter, p.skip(prefix_len_whitespace(p) as int));
    }
    let boolean = match input_reader.peek_until_discard_leading_spaces(Delim::NodeDelimiter) {
        Ok(c) => c,
        Err(e) => {
            return Err(e);
        },
    };
    let boolean_string = boolean.to_string();
    if TurtleSpecs::is_boolean_literal(boolean_string.as_str()) {
        Ok(Token::LiteralWithUrlDatatype(boolean_string, XmlDataTypes::Boolean.to_string()))
    } else {
        Err(Error::new(ErrorType::InvalidReaderInput, "Invalid input for boolean."))
    }
}

/// Recognizes the bare `a` keyword without consuming it.
pub(crate) fn get_a_keyword(input_reader: &mut InputReader) -> (r: Result<Token, Error>)
    ensures
        r is Ok ==> r->Ok_0@ is KeywordA,
{
    let a = match input_reader.peek_until_discard_leading_spaces(Delim::NodeDelimiter) {
        Ok(c) => c,
        Err(e) => {
            return Err(e);
        },
    };
    let is_a = if a.len() == 1 {
        match a.get_at(0) {
            Some(c) => c == 'a',
            None => false,
        }
    } else {
        false
    };
    if is_a {
        Ok(Token::KeywordA)
    } else {
        Err(Error::new(ErrorType::InvalidReaderInput, "Invalid input for keyword 'a'."))
    }
}

/// Reads the next whitespace-delimited word and matches it against the
/// SPARQL keywords; any other word is read as a QName.
pub(crate) fn get_qname_or_keyword(input_reader: &mut InputReader) -> (r: Result<Token, Error>)
    ensures
        r is Ok ==> r->Ok_0@ is QName || spec_is_keyword_token(r->Ok_0@),
{
    let input = match input_reader.get_until(Delim::Char(' ')) {
        Ok(c) => c,
        Err(e) => {
            return Err(e);
        },
    };
    let word = input.to_string();
    let keyword = match SparqlKeyword::from_str(&word) {
        Ok(k) => k,
        Err(e) => {
            return Err(e);
        },
    };
    match keyword {
        SparqlKeyword::Select => Ok(Token::Select),
        SparqlKeyword::Where => Ok(Token::Where),
        SparqlKeyword::Distinct => Ok(Token::Distinct),
        SparqlKeyword::Reduced => Ok(Token::Reduced),
        SparqlKeyword::Construct => Ok(Token::Construct),
        SparqlKeyword::Describe => Ok(Token::Describe),
        SparqlKeyword::Ask => Ok(Token::Ask),
        SparqlKeyword::From => Ok(Token::From),
        SparqlKeyword::Named => Ok(Token::Named),
        SparqlKeyword::Order => Ok(Token::Order),
        SparqlKeyword::By => Ok(Token::By),
        SparqlKeyword::Asc => Ok(Token::Asc),
        SparqlKeyword::Desc => Ok(Token::Desc),
        SparqlKeyword::Offset => Ok(Token::Offset),
        SparqlKeyword::Optional => Ok(Token::Optional),
        SparqlKeyword::Filter => Ok(Token::Filter),
        SparqlKeyword::Graph => Ok(Token::Graph),
        SparqlKeyword::Union => Ok(Token::Union),
        SparqlKeyword::Regex => Ok(Token::Regex),
        _ => get_qname(input_reader),
    }
}

/// Reads a SPARQL variable name.
pub(crate) fn get_variable(input_reader: &mut InputReader) -> (r: Result<Token, Error>)
    ensures
        r is Ok ==> r->Ok_0@ is SparqlVariable,
{
    let variable_name = match input_reader.get_until_discard_leading_spaces(
        Delim::NodeDelimiter,
    ) {
        Ok(c) => c,
        Err(e) => {
            return Err(e);
        },
    };
    Ok(Token::SparqlVariable(variable_name.to_string()))
}

} // verus!
