use vstd::prelude::*;

use crate::helper::{chars_of_str, push_char};
use crate::namespace::{NamespaceStore, NamespaceView};
use crate::node::{Node, NodeView};
use crate::specs::turtle_specs::{spec_is_plain_literal, TurtleSpecs};
use crate::uri::Uri;

verus! {

/// The escaped form of one character in a quoted Turtle literal:
/// backslashes and the common control characters get a backslash escape.
pub open spec fn turtle_escape_char(c: char) -> Seq<char> {
    if c == '\n' {
        seq!['\\', 'n']
    } else if c == '\r' {
        seq!['\\', 'r']
    } else if c == '\t' {
        seq!['\\', 't']
    } else if c == '\\' {
        seq!['\\', '\\']
    } else {
        seq![c]
    }
}

/// The escaped form of a quoted Turtle literal body.
pub open spec fn turtle_escape(s: Seq<char>) -> Seq<char>
    decreases s.len(),
{
    if s.len() == 0 {
        Seq::empty()
    } else {
        turtle_escape(s.drop_last()) + turtle_escape_char(s.last())
    }
}

/// The sequence with every slash replaced by a colon.
pub open spec fn slashes_to_colons(s: Seq<char>) -> Seq<char> {
    s.map_values(|c: char| if c == '/' { ':' } else { c })
}

/// Index of the first namespace whose URI the given URI starts with, or
/// the length of the sequence if there is none.
pub open spec fn find_covering_ns(s: Seq<NamespaceView>, uri: Seq<char>) -> nat
    decreases s.len(),
{
    if s.len() == 0 {
        0
    } else if s[0].uri.is_prefix_of(uri) {
        0
    } else {
        1 + find_covering_ns(s.skip(1), uri)
    }
}

pub proof fn lemma_find_covering_ns(s: Seq<NamespaceView>, uri: Seq<char>)
    ensures
        find_covering_ns(s, uri) <= s.len(),
        forall|i: int| 0 <= i < find_covering_ns(s, uri) ==> !(#[trigger] s[i]).uri.is_prefix_of(
            uri,
        ),
        find_covering_ns(s, uri) < s.len() ==> s[find_covering_ns(s, uri) as int].uri.is_prefix_of(
            uri,
        ),
    decreases s.len(),
{
    if s.len() == 0 {
    } else if s[0].uri.is_prefix_of(uri) {
    } else {
        lemma_find_covering_ns(s.skip(1), uri);
        assert forall|i: int| 0 <= i < find_covering_ns(s, uri) implies !(
        #[trigger] s[i]).uri.is_prefix_of(uri) by {
            if i > 0 {
                assert(s[i] == s.skip(1)[i - 1]);
            }
        }
        if find_covering_ns(s, uri) < s.len() {
            assert(s[find_covering_ns(s, uri) as int] == s.skip(1)[find_covering_ns(
                s.skip(1),
                uri,
            ) as int]);
        }
    }
}

/// The Turtle text of a URI: a QName through the first matching namespace,
/// or the bracketed URI.
pub open spec fn turtle_format_uri(ns: Seq<NamespaceView>, uri: Seq<char>) -> Seq<char> {
    let k = find_covering_ns(ns, uri);
    if k < ns.len() {
        ns[k as int].prefix + seq![':'] + slashes_to_colons(uri.skip(ns[k as int].uri.len() as int))
    } else {
        seq!['<'] + uri + seq!['>']
    }
}

/// The Turtle text of a node: plain literals stand bare, other literals
/// quoted and escaped with their optional language tag or data type, URIs
/// as QNames where a namespace covers them.
pub open spec fn turtle_format_node(ns: Seq<NamespaceView>, nv: NodeView) -> Seq<char> {
    match nv {
        NodeView::Blank { id } => seq!['_', ':'] + id,
        NodeView::Uri { uri } => turtle_format_uri(ns, uri),
        NodeView::Literal { literal, data_type, language } => (if spec_is_plain_literal(
            literal,
            data_type,
        ) && language is None {
            literal
        } else {
            seq!['"'] + turtle_escape(literal) + seq!['"']
        }) + (match language {
            Some(lang) => seq!['@'] + lang,
            None => Seq::empty(),
        }) + (match data_type {
            Some(dt) => seq!['^', '^'] + turtle_format_uri(ns, dt),
            None => Seq::empty(),
        }),
    }
}

/// Whether one string starts with another.
pub fn starts_with_str(a: &str, b: &str) -> (r: bool)
    ensures
        r == b@.is_prefix_of(a@),
{
    let alen = a.unicode_len();
    let blen = b.unicode_len();
    if blen > alen {
        return false;
    }
    let mut i: usize = 0;
    while i < blen
        invariant
            i <= blen,
            blen == b@.len(),
            blen <= a@.len(),
            forall|q: int| 0 <= q < i ==> a@[q] == b@[q],
        decreases blen - i,
    {
        if a.get_char(i) != b.get_char(i) {
            return false;
        }
        i = i + 1;
    }
    proof {
        assert(a@.subrange(0, b@.len() as int) =~= b@);
    }
    true
}

/// Replaces every slash in the string with a colon.
pub fn slash_to_colon(s: &str) -> (r: String)
    ensures
        r@ == slashes_to_colons(s@),
{
    let cs = chars_of_str(s);
    let mut r = String::new();
    let mut i: usize = 0;
    while i < cs.len()
        invariant
            i <= cs@.len(),
            cs@ == s@,
            r@ == slashes_to_colons(s@.take(i as int)),
        decreases cs@.len() - i,
    {
        let c = cs[i];
        let mapped: char = if c == '/' {
            ':'
        } else {
            c
        };
        push_char(&mut r, mapped);
        proof {
            assert(slashes_to_colons(s@.take(i as int + 1)) =~= slashes_to_colons(
                s@.take(i as int),
            ).push(mapped));
        }
        i = i + 1;
    }
    proof {
        assert(s@.take(s@.len() as int) =~= s@);
    }
    r
}

/// Formatter for formatting nodes to Turtle syntax; used by the Turtle
/// writer. It holds the namespaces under which URIs shorten to QNames.
pub struct TurtleFormatter<'a> {
    namespaces: &'a NamespaceStore,
}

impl<'a> TurtleFormatter<'a> {
    /// Constructor of `TurtleFormatter`.
    pub fn new(namespaces: &'a NamespaceStore) -> (r: TurtleFormatter<'a>)
        ensures
            r.spec_namespaces() == namespaces@,
    {
        TurtleFormatter { namespaces }
    }

    /// The namespaces the formatter shortens URIs under.
    pub closed spec fn spec_namespaces(&self) -> Seq<NamespaceView> {
        self.namespaces@
    }

    /// Returns the corresponding Turtle text for a node.
    pub fn format_node(&self, node: &Node) -> (r: String)
        ensures
            r@ == turtle_format_node(self.spec_namespaces(), node@),
    {
        match node {
            Node::BlankNode { id } => self.format_blank(id.as_str()),
            Node::LiteralNode { literal, data_type, language } => self.format_literal(
                literal.as_str(),
                data_type,
                language,
            ),
            Node::UriNode { uri } => self.format_uri(uri),
        }
    }

    /// Formats a literal to the corresponding Turtle syntax; a number or
    /// boolean with the matching data type stands bare.
    pub fn format_literal(
        &self,
        literal: &str,
        data_type: &Option<Uri>,
        language: &Option<String>,
    ) -> (r: String)
        ensures
            r@ == turtle_format_node(
                self.spec_namespaces(),
                NodeView::Literal {
                    literal: literal@,
                    data_type: match data_type {
                        Some(dt) => Some(dt@),
                        None => None,
                    },
                    language: match language {
                        Some(l) => Some(l@),
                        None => None,
                    },
                },
            ),
    {
        let mut output_string = String::new();
        let lang_absent = match language {
            Some(_) => false,
            None => true,
        };
        if TurtleSpecs::is_plain_literal(literal, data_type) && lang_absent {
            // a number or boolean stands bare
            output_string.append(literal);
        } else {
            push_char(&mut output_string, '"');
            let cs = chars_of_str(literal);
            let mut i: usize = 0;
            while i < cs.len()
                invariant
                    i <= cs@.len(),
                    cs@ == literal@,
                    output_string@ == seq!['"'] + turtle_escape(literal@.take(i as int)),
                decreases cs@.len() - i,
            {
                let c = cs[i];
                proof {
                    assert(literal@.take(i as int + 1).drop_last() =~= literal@.take(i as int));
                    assert(literal@.take(i as int + 1).last() == literal@[i as int]);
                }
                if c == '\n' {
                    push_char(&mut output_string, '\\');
                    push_char(&mut output_string, 'n');
                } else if c == '\r' {
                    push_char(&mut output_string, '\\');
                    push_char(&mut output_string, 'r');
                } else if c == '\t' {
                    push_char(&mut output_string, '\\');
                    push_char(&mut output_string, 't');
                } else if c == '\\' {
                    push_char(&mut output_string, '\\');
                    push_char(&mut output_string, '\\');
                } else {
                    push_char(&mut output_string, c);
                }
                proof {
                    assert(output_string@ =~= seq!['"'] + turtle_escape(
                        literal@.take(i as int + 1),
                    ));
                }
                i = i + 1;
            }
            proof {
                assert(literal@.take(literal@.len() as int) =~= literal@);
            }
            push_char(&mut output_string, '"');
        }
        match language {
            Some(lang) => {
                push_char(&mut output_string, '@');
                output_string.append(lang.as_str());
            },
            None => {},
        }
        match data_type {
            Some(dt) => {
                push_char(&mut output_string, '^');
                push_char(&mut output_string, '^');
                let formatted = self.format_uri(dt);
                output_string.append(formatted.as_str());
            },
            None => {},
        }
        proof {
            assert(output_string@ =~= turtle_format_node(
                self.namespaces@,
                NodeView::Literal {
                    literal: literal@,
                    data_type: match data_type {
                        Some(dt) => Some(dt@),
                        None => None,
                    },
                    language: match language {
                        Some(l) => Some(l@),
                        None => None,
                    },
                },
            ));
        }
        output_string
    }

    /// Formats the content of a blank node to the corresponding Turtle
    /// syntax.
    pub fn format_blank(&self, id: &str) -> (r: String)
        ensures
            r@ == turtle_format_node(self.spec_namespaces(), NodeView::Blank { id: id@ }),
    {
        let mut output_string = String::new();
        push_char(&mut output_string, '_');
        push_char(&mut output_string, ':');
        output_string.append(id);
        proof {
            assert(output_string@ =~= turtle_format_node(
                self.namespaces@,
                NodeView::Blank { id: id@ },
            ));
        }
        output_string
    }

    /// Formats a URI to Turtle syntax: a QName where a registered
    /// namespace covers the URI, the bracketed URI otherwise.
    #[verifier::loop_isolation(false)]
    pub fn format_uri(&self, uri: &Uri) -> (r: String)
        ensures
            r@ == turtle_format_uri(self.spec_namespaces(), uri@),
    {
        let ghost nss = self.namespaces@;
        let ghost k = find_covering_ns(nss, uri@);
        proof {
            lemma_find_covering_ns(nss, uri@);
        }
        let bindings = self.namespaces.namespaces();
        let mut i: usize = 0;
        while i < bindings.len()
            invariant
                i <= bindings@.len(),
                bindings@.map_values(|ns: crate::namespace::Namespace| ns@) == nss,
                i <= k,
            decreases bindings@.len() - i,
        {
            proof {
                assert(nss[i as int] == bindings@[i as int]@);
            }
            let ns_uri = bindings[i].uri();
            if starts_with_str(uri.to_string().as_str(), ns_uri.to_string().as_str()) {
                proof {
                    assert(nss[i as int].uri.is_prefix_of(uri@));
                    assert(i == k);
                }
                let mut output_string = String::new();
                output_string.append(bindings[i].prefix().as_str());
                push_char(&mut output_string, ':');
                let ns_len = ns_uri.to_string().as_str().unicode_len();
                let full = uri.to_string().as_str();
                let path = full.substring_char(ns_len, full.unicode_len());
                let replaced = slash_to_colon(path);
                output_string.append(replaced.as_str());
                proof {
                    assert(path@ =~= uri@.skip(nss[k as int].uri.len() as int));
                    assert(output_string@ =~= turtle_format_uri(nss, uri@));
                }
                return output_string;
            }
            proof {
                assert(i < k) by {
                    if i >= k {
                        assert(i == k);
                        assert(k < nss.len());
                    }
                }
            }
            i = i + 1;
        }
        proof {
            assert(k == nss.len());
        }
        let mut output_string = String::new();
        push_char(&mut output_string, '<');
        output_string.append(uri.to_string().as_str());
        push_char(&mut output_string, '>');
        proof {
            assert(output_string@ =~= turtle_format_uri(nss, uri@));
        }
        output_string
    }
}

} // verus!
