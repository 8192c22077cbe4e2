use vstd::prelude::*;

use crate::uri::Uri;

verus! {

/// Node representation.
#[derive(Debug)]
pub enum Node {
    /// Node for representing a URI.
    UriNode { uri: Uri },
    /// Node for representing literals.
    LiteralNode { literal: String, data_type: Option<Uri>, language: Option<String> },
    /// Node for representing blanks.
    BlankNode { id: String },
}

/// The mathematical value of a node: its text as character sequences.
pub enum NodeView {
    Uri { uri: Seq<char> },
    Literal { literal: Seq<char>, data_type: Option<Seq<char>>, language: Option<Seq<char>> },
    Blank { id: Seq<char> },
}

impl View for Node {
    type V = NodeView;

    open spec fn view(&self) -> NodeView {
        match self {
            Node::UriNode { uri } => NodeView::Uri { uri: uri@ },
            Node::LiteralNode { literal, data_type, language } => NodeView::Literal {
                literal: literal@,
                data_type: match data_type {
                    Some(dt) => Some(dt@),
                    None => None,
                },
                language: match language {
                    Some(l) => Some(l@),
                    None => None,
                },
            },
            Node::BlankNode { id } => NodeView::Blank { id: id@ },
        }
    }
}

impl Clone for Node {
    fn clone(&self) -> (r: Self)
        ensures
            r@ == self@,
    {
        match self {
            Node::UriNode { uri } => Node::UriNode { uri: uri.clone() },
            Node::LiteralNode { literal, data_type, language } => Node::LiteralNode {
                literal: literal.clone(),
                data_type: match data_type {
                    Some(dt) => Some(dt.clone()),
                    None => None,
                },
                language: match language {
                    Some(l) => Some(l.clone()),
                    None => None,
                },
            },
            Node::BlankNode { id } => Node::BlankNode { id: id.clone() },
        }
    }
}

impl PartialEq for Node {
    fn eq(&self, other: &Node) -> (r: bool)
    {
        match (self, other) {
            (Node::UriNode { uri: u1 }, Node::UriNode { uri: u2 }) => *u1 == *u2,
            (
                Node::LiteralNode { literal: l1, data_type: d1, language: g1 },
                Node::LiteralNode { literal: l2, data_type: d2, language: g2 },
            ) => {
                let dt_eq = match (d1, d2) {
                    (Some(a), Some(b)) => *a == *b,
                    (None, None) => true,
                    _ => false,
                };
                let lang_eq = match (g1, g2) {
                    (Some(a), Some(b)) => *a == *b,
                    (None, None) => true,
                    _ => false,
                };
                *l1 == *l2 && dt_eq && lang_eq
            },
            (Node::BlankNode { id: i1 }, Node::BlankNode { id: i2 }) => *i1 == *i2,
            _ => false,
        }
    }
}

impl Eq for Node {
}

impl vstd::std_specs::cmp::PartialEqSpecImpl for Node {
    open spec fn obeys_eq_spec() -> bool {
        true
    }

    open spec fn eq_spec(&self, other: &Node) -> bool {
        self@ == other@
    }
}

} // verus!
