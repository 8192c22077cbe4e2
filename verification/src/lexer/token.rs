use vstd::prelude::*;

verus! {

/// Tokens produced by the RDF and SPARQL lexers.
#[derive(PartialEq, Debug)]
pub enum Token {
    Comment(String),
    Literal(String),
    /// The literal and its data type URI.
    LiteralWithUrlDatatype(String, String),
    /// The literal, the prefix of the QName data type, and the QName path.
    LiteralWithQNameDatatype(String, String, String),
    /// The literal and its language tag.
    LiteralWithLanguageSpecification(String, String),
    Uri(String),
    BlankNode(String),
    TripleDelimiter,
    /// The prefix name (with its colon) and the namespace URI.
    PrefixDirective(String, String),
    BaseDirective(String),
    /// The prefix (with its colon) and the path.
    QName(String, String),
    Prefix(String),
    /// The bare `a` shorthand for `rdf:type`.
    KeywordA,
    /// `;` in Turtle syntax.
    PredicateListDelimiter,
    /// `,` in Turtle syntax.
    ObjectListDelimiter,
    /// `(` in Turtle syntax.
    CollectionStart,
    /// `)` in Turtle syntax.
    CollectionEnd,
    /// `[` in Turtle syntax.
    UnlabeledBlankNodeStart,
    /// `]` in Turtle syntax.
    UnlabeledBlankNodeEnd,
    EndOfInput,
    Select,
    Distinct,
    Reduced,
    Construct,
    Describe,
    Ask,
    From,
    Named,
    Order,
    By,
    Asc,
    Desc,
    Offset,
    Optional,
    Filter,
    Graph,
    Union,
    Regex,
    Where,
    /// `{` in SPARQL syntax.
    GroupStart,
    /// `}` in SPARQL syntax.
    GroupEnd,
    Asterisk,
    /// A SPARQL variable with its name.
    SparqlVariable(String),
}

/// The mathematical value of a token: its text as character sequences.
pub enum TokenView {
    Comment(Seq<char>),
    Literal(Seq<char>),
    LiteralWithUrlDatatype(Seq<char>, Seq<char>),
    LiteralWithQNameDatatype(Seq<char>, Seq<char>, Seq<char>),
    LiteralWithLanguageSpecification(Seq<char>, Seq<char>),
    Uri(Seq<char>),
    BlankNode(Seq<char>),
    TripleDelimiter,
    PrefixDirective(Seq<char>, Seq<char>),
    BaseDirective(Seq<char>),
    QName(Seq<char>, Seq<char>),
    Prefix(Seq<char>),
    KeywordA,
    PredicateListDelimiter,
    ObjectListDelimiter,
    CollectionStart,
    CollectionEnd,
    UnlabeledBlankNodeStart,
    UnlabeledBlankNodeEnd,
    EndOfInput,
    Select,
    Distinct,
    Reduced,
    Construct,
    Describe,
    Ask,
    From,
    Named,
    Order,
    By,
    Asc,
    Desc,
    Offset,
    Optional,
    Filter,
    Graph,
    Union,
    Regex,
    Where,
    GroupStart,
    GroupEnd,
    Asterisk,
    SparqlVariable(Seq<char>),
}

impl View for Token {
    type V = TokenView;

    open spec fn view(&self) -> TokenView {
        match self {
            Token::Comment(s) => TokenView::Comment(s@),
            Token::Literal(s) => TokenView::Literal(s@),
            Token::LiteralWithUrlDatatype(s, d) => TokenView::LiteralWithUrlDatatype(s@, d@),
            Token::LiteralWithQNameDatatype(s, p, q) => TokenView::LiteralWithQNameDatatype(
                s@,
                p@,
                q@,
            ),
            Token::LiteralWithLanguageSpecification(s, l) =>
                TokenView::LiteralWithLanguageSpecification(s@, l@),
            Token::Uri(s) => TokenView::Uri(s@),
            Token::BlankNode(s) => TokenView::BlankNode(s@),
            Token::TripleDelimiter => TokenView::TripleDelimiter,
            Token::PrefixDirective(p, u) => TokenView::PrefixDirective(p@, u@),
            Token::BaseDirective(u) => TokenView::BaseDirective(u@),
            Token::QName(p, q) => TokenView::QName(p@, q@),
            Token::Prefix(p) => TokenView::Prefix(p@),
            Token::KeywordA => TokenView::KeywordA,
            Token::PredicateListDelimiter => TokenView::PredicateListDelimiter,
            Token::ObjectListDelimiter => TokenView::ObjectListDelimiter,
            Token::CollectionStart => TokenView::CollectionStart,
            Token::CollectionEnd => TokenView::CollectionEnd,
            Token::UnlabeledBlankNodeStart => TokenView::UnlabeledBlankNodeStart,
            Token::UnlabeledBlankNodeEnd => TokenView::UnlabeledBlankNodeEnd,
            Token::EndOfInput => TokenView::EndOfInput,
            Token::Select => TokenView::Select,
            Token::Distinct => TokenView::Distinct,
            Token::Reduced => TokenView::Reduced,
            Token::Construct => TokenView::Construct,
            Token::Describe => TokenView::Describe,
            Token::Ask => TokenView::Ask,
            Token::From => TokenView::From,
            Token::Named => TokenView::Named,
            Token::Order => TokenView::Order,
            Token::By => TokenView::By,
            Token::Asc => TokenView::Asc,
            Token::Desc => TokenView::Desc,
            Token::Offset => TokenView::Offset,
            Token::Optional => TokenView::Optional,
            Token::Filter => TokenView::Filter,
            Token::Graph => TokenView::Graph,
            Token::Union => TokenView::Union,
            Token::Regex => TokenView::Regex,
            Token::Where => TokenView::Where,
            Token::GroupStart => TokenView::GroupStart,
            Token::GroupEnd => TokenView::GroupEnd,
            Token::Asterisk => TokenView::Asterisk,
            Token::SparqlVariable(s) => TokenView::SparqlVariable(s@),
        }
    }
}

impl Clone for Token {
    fn clone(&self) -> (r: Self)
        ensures
            r@ == self@,
    {
        match self {
            Token::Comment(s) => Token::Comment(s.clone()),
            Token::Literal(s) => Token::Literal(s.clone()),
            Token::LiteralWithUrlDatatype(s, d) => Token::LiteralWithUrlDatatype(
                s.clone(),
                d.clone(),
            ),
            Token::LiteralWithQNameDatatype(s, p, q) => Token::LiteralWithQNameDatatype(
                s.clone(),
                p.clone(),
                q.clone(),
            ),
            Token::LiteralWithLanguageSpecification(s, l) =>
                Token::LiteralWithLanguageSpecification(s.clone(), l.clone()),
            Token::Uri(s) => Token::Uri(s.clone()),
            Token::BlankNode(s) => Token::BlankNode(s.clone()),
            Token::TripleDelimiter => Token::TripleDelimiter,
            Token::PrefixDirective(p, u) => Token::PrefixDirective(p.clone(), u.clone()),
            Token::BaseDirective(u) => Token::BaseDirective(u.clone()),
            Token::QName(p, q) => Token::QName(p.clone(), q.clone()),
            Token::Prefix(p) => Token::Prefix(p.clone()),
            Token::KeywordA => Token::KeywordA,
            Token::PredicateListDelimiter => Token::PredicateListDelimiter,
            Token::ObjectListDelimiter => Token::ObjectListDelimiter,
            Token::CollectionStart => Token::CollectionStart,
            Token::CollectionEnd => Token::CollectionEnd,
            Token::UnlabeledBlankNodeStart => Token::UnlabeledBlankNodeStart,
            Token::UnlabeledBlankNodeEnd => Token::UnlabeledBlankNodeEnd,
            Token::EndOfInput => Token::EndOfInput,
            Token::Select => Token::Select,
            Token::Distinct => Token::Distinct,
            Token::Reduced => Token::Reduced,
            Token::Construct => Token::Construct,
            Token::Describe => Token::Describe,
            Token::Ask => Token::Ask,
            Token::From => Token::From,
            Token::Named => Token::Named,
            Token::Order => Token::Order,
            Token::By => Token::By,
            Token::Asc => Token::Asc,
            Token::Desc => Token::Desc,
            Token::Offset => Token::Offset,
            Token::Optional => Token::Optional,
            Token::Filter => Token::Filter,
            Token::Graph => Token::Graph,
            Token::Union => Token::Union,
            Token::Regex => Token::Regex,
            Token::Where => Token::Where,
            Token::GroupStart => Token::GroupStart,
            Token::GroupEnd => Token::GroupEnd,
            Token::Asterisk => Token::Asterisk,
            Token::SparqlVariable(s) => Token::SparqlVariable(s.clone()),
        }
    }
}

} // verus!
