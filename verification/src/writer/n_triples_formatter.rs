use vstd::prelude::*;

use crate::helper::{chars_of_str, push_char};
use crate::node::{Node, NodeView};
use crate::uri::Uri;

verus! {

/// The escaped form of one character in a quoted N-Triples literal:
/// quotes, backslashes and the common control characters get a backslash
/// escape.
pub open spec fn nt_escape_char(c: char) -> Seq<char> {
    if c == '\n' {
        seq!['\\', 'n']
    } else if c == '\r' {
        seq!['\\', 'r']
    } else if c == '\t' {
        seq!['\\', 't']
    } else if c == '\\' {
        seq!['\\', '\\']
    } else if c == '\'' {
        seq!['\\', '\'']
    } else if c == '"' {
        seq!['\\', '"']
    } else {
        seq![c]
    }
}

/// The escaped form of a quoted N-Triples literal body.
pub open spec fn nt_escape(s: Seq<char>) -> Seq<char>
    decreases s.len(),
{
    if s.len() == 0 {
        Seq::empty()
    } else {
        nt_escape(s.drop_last()) + nt_escape_char(s.last())
    }
}

/// The N-Triples text of a node: a bracketed URI, a quoted and escaped
/// literal with its optional language tag or data type, or a blank-node
/// label.
pub open spec fn nt_format_node(nv: NodeView) -> Seq<char> {
    match nv {
        NodeView::Blank { id } => seq!['_', ':'] + id,
        NodeView::Uri { uri } => seq!['<'] + uri + seq!['>'],
        NodeView::Literal { literal, data_type, language } => seq!['"'] + nt_escape(literal)
            + seq!['"'] + (match language {
            Some(lang) => seq!['@'] + lang,
            None => Seq::empty(),
        }) + (match data_type {
            Some(dt) => seq!['^', '^', '<'] + dt + seq!['>'],
            None => Seq::empty(),
        }),
    }
}

/// Formatter for formatting nodes to N-Triples syntax; used by the
/// N-Triples writer.
pub struct NTriplesFormatter {}

impl NTriplesFormatter {
    /// Constructor of `NTriplesFormatter`.
    pub fn new() -> NTriplesFormatter {
        NTriplesFormatter {}
    }

    /// Returns the corresponding N-Triples text for a node.
    pub fn format_node(&self, node: &Node) -> (r: String)
        ensures
            r@ == nt_format_node(node@),
    {
        match node {
            Node::BlankNode { id } => self.format_blank(id.as_str()),
            Node::LiteralNode { literal, data_type, language } => self.format_literal(
                literal.as_str(),
                data_type,
                language,
            ),
            Node::UriNode { uri } => self.format_uri(uri),
        }
    }

    /// Formats a literal to the corresponding N-Triples syntax, with its
    /// optional language tag or data type.
    pub fn format_literal(
        &self,
        literal: &str,
        data_type: &Option<Uri>,
        language: &Option<String>,
    ) -> (r: String)
        ensures
            r@ == nt_format_node(
                NodeView::Literal {
                    literal: literal@,
                    data_type: match data_type {
                        Some(dt) => Some(dt@),
                        None => None,
                    },
                    language: match language {
                        Some(l) => Some(l@),
                        None => None,
                    },
                },
            ),
    {
        let mut output_string = String::new();
        push_char(&mut output_string, '"');
        let cs = chars_of_str(literal);
        let mut i: usize = 0;
        while i < cs.len()
            invariant
                i <= cs@.len(),
                cs@ == literal@,
                output_string@ == seq!['"'] + nt_escape(literal@.take(i as int)),
            decreases cs@.len() - i,
        {
            let c = cs[i];
            proof {
                assert(literal@.take(i as int + 1).drop_last() =~= literal@.take(i as int));
                assert(literal@.take(i as int + 1).last() == literal@[i as int]);
            }
            if c == '\n' {
                push_char(&mut output_string, '\\');
                push_char(&mut output_string, 'n');
            } else if c == '\r' {
                push_char(&mut output_string, '\\');
                push_char(&mut output_string, 'r');
            } else if c == '\t' {
                push_char(&mut output_string, '\\');
                push_char(&mut output_string, 't');
            } else if c == '\\' {
                push_char(&mut output_string, '\\');
                push_char(&mut output_string, '\\');
            } else if c == '\'' {
                push_char(&mut output_string, '\\');
                push_char(&mut output_string, '\'');
            } else if c == '"' {
                push_char(&mut output_string, '\\');
                push_char(&mut output_string, '"');
            } else {
                push_char(&mut output_string, c);
            }
            proof {
                assert(output_string@ =~= seq!['"'] + nt_escape(literal@.take(i as int + 1)));
            }
            i = i + 1;
        }
        proof {
            assert(literal@.take(literal@.len() as int) =~= literal@);
        }
        push_char(&mut output_string, '"');
        match language {
            Some(lang) => {
                push_char(&mut output_string, '@');
                output_string.append(lang.as_str());
            },
            None => {},
        }
        match data_type {
            Some(dt) => {
                push_char(&mut output_string, '^');
                push_char(&mut output_string, '^');
                let formatted = self.format_uri(dt);
                output_string.append(formatted.as_str());
            },
            None => {},
        }
        proof {
            assert(output_string@ =~= nt_format_node(
                NodeView::Literal {
                    literal: literal@,
                    data_type: match data_type {
                        Some(dt) => Some(dt@),
                        None => None,
                    },
                    language: match language {
                        Some(l) => Some(l@),
                        None => None,
                    },
                },
            ));
        }
        output_string
    }

    /// Formats the content of a blank node to the corresponding N-Triples
    /// syntax.
    pub fn format_blank(&self, id: &str) -> (r: String)
        ensures
            r@ == nt_format_node(NodeView::Blank { id: id@ }),
    {
        let mut output_string = String::new();
        push_char(&mut output_string, '_');
        push_char(&mut output_string, ':');
        output_string.append(id);
        proof {
            assert(output_string@ =~= nt_format_node(NodeView::Blank { id: id@ }));
        }
        output_string
    }

    /// Formats a URI to N-Triples syntax.
    pub fn format_uri(&self, uri: &Uri) -> (r: String)
        ensures
            r@ == nt_format_node(NodeView::Uri { uri: uri@ }),
    {
        let mut output_string = String::new();
        push_char(&mut output_string, '<');
        output_string.append(uri.to_string().as_str());
        push_char(&mut output_string, '>');
        proof {
            assert(output_string@ =~= nt_format_node(NodeView::Uri { uri: uri@ }));
        }
        output_string
    }
}

} // verus!
