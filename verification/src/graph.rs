use vstd::prelude::*;

use crate::error::Error;
use crate::helper::{dec_str, dec_str_signed, i32_to_dec_string, lemma_dec_str_injective, u64_to_dec_string};
use crate::namespace::{find_prefix_idx, Namespace, NamespaceStore, NamespaceView};
use crate::node::{Node, NodeView};
use crate::specs::xml_specs::{spec_xml_type_str, XmlDataTypes};
use crate::triple::{sel_matches, Triple, TripleSelector, TripleStore, TripleView};
use crate::uri::Uri;

verus! {

/// The views of an optional URI.
pub open spec fn view_opt_uri(o: Option<Uri>) -> Option<Seq<char>> {
    match o {
        Some(u) => Some(u@),
        None => None,
    }
}

/// The identifier minted for the `n`-th fresh blank node of a graph.
pub open spec fn blank_node_id_str(n: nat) -> Seq<char> {
    seq!['a', 'u', 't', 'o'] + dec_str(n)
}

/// The identifiers of the first `n` fresh blank nodes of a new graph, in
/// minting order.
pub open spec fn minted_ids(n: nat) -> Seq<Seq<char>> {
    Seq::new(n, |i: int| blank_node_id_str(i as nat))
}

/// Blank-node minting: the `i`-th fresh blank node of a new graph carries
/// the identifier `auto` followed by `i` in decimal, and all the minted
/// identifiers are distinct.
pub proof fn lemma_blank_node_minting(n: nat)
    ensures
        forall|i: int| 0 <= i < n ==> (#[trigger] minted_ids(n)[i]) == blank_node_id_str(
            i as nat,
        ),
        forall|i: int, j: int| 0 <= i < j < n ==> minted_ids(n)[i] != minted_ids(n)[j],
{
    assert forall|i: int, j: int| 0 <= i < j < n implies minted_ids(n)[i] != minted_ids(n)[j] by {
        lemma_blank_node_ids_distinct(i as nat, j as nat);
    }
}

/// Distinct counters mint distinct blank-node identifiers.
pub proof fn lemma_blank_node_ids_distinct(a: nat, b: nat)
    requires
        a != b,
    ensures
        blank_node_id_str(a) != blank_node_id_str(b),
{
    if blank_node_id_str(a) == blank_node_id_str(b) {
        assert(dec_str(a) =~= dec_str(b)) by {
            assert(blank_node_id_str(a).len() == 4 + dec_str(a).len());
            assert(blank_node_id_str(b).len() == 4 + dec_str(b).len());
            assert forall|k: int| 0 <= k < dec_str(a).len() implies dec_str(a)[k] == dec_str(
                b,
            )[k] by {
                assert(blank_node_id_str(a)[k + 4] == dec_str(a)[k]);
                assert(blank_node_id_str(b)[k + 4] == dec_str(b)[k]);
            }
        }
        lemma_dec_str_injective(a, b);
    }
}

/// The mathematical value of a graph.
pub struct GraphView {
    /// Base URI of the graph.
    pub base_uri: Option<Seq<char>>,
    /// The stored triples, in insertion order.
    pub triples: Seq<TripleView>,
    /// The namespace bindings, in insertion order.
    pub namespaces: Seq<NamespaceView>,
    /// The counter for the next fresh blank node.
    pub next_id: nat,
}

/// Representation of an RDF graph: a triple store, a namespace table, an
/// optional base URI, and a counter minting fresh blank-node identifiers.
#[derive(Debug)]
pub struct Graph {
    base_uri: Option<Uri>,
    triples: TripleStore,
    namespaces: NamespaceStore,
    next_id: u64,
}

impl View for Graph {
    type V = GraphView;

    closed spec fn view(&self) -> GraphView {
        GraphView {
            base_uri: view_opt_uri(self.base_uri),
            triples: self.triples@,
            namespaces: self.namespaces@,
            next_id: self.next_id as nat,
        }
    }
}

impl Graph {
    /// Constructor for the RDF graph.
    pub fn new(base_uri: Option<&Uri>) -> (r: Graph)
        ensures
            r@.base_uri == match base_uri {
                Some(u) => Some(u@),
                None => None::<Seq<char>>,
            },
            r@.triples == Seq::<TripleView>::empty(),
            r@.namespaces == Seq::<NamespaceView>::empty(),
            r@.next_id == 0,
    {
        let cloned_uri = match base_uri {
            None => None,
            Some(u) => Some(u.clone()),
        };
        Graph {
            base_uri: cloned_uri,
            triples: TripleStore::new(),
            namespaces: NamespaceStore::new(),
            next_id: 0,
        }
    }

    /// Returns `true` if the graph does not contain any triples.
    pub fn is_empty(&self) -> (r: bool)
        ensures
            r == (self@.triples.len() == 0),
    {
        self.triples.is_empty()
    }

    /// Returns the number of triples that are stored in the graph.
    pub fn count(&self) -> (r: usize)
        ensures
            r == self@.triples.len(),
    {
        self.triples.count()
    }

    /// Returns the base URI of the graph.
    pub fn base_uri(&self) -> (r: &Option<Uri>)
        ensures
            view_opt_uri(*r) == self@.base_uri,
    {
        &self.base_uri
    }

    /// Sets the base URI of the graph.
    pub fn set_base_uri(&mut self, uri: &Uri)
        ensures
            final(self)@ == (GraphView { base_uri: Some(uri@), ..old(self)@ }),
    {
        self.base_uri = Some(uri.clone());
    }

    /// Returns the namespace table of the graph.
    pub fn namespaces(&self) -> (r: &NamespaceStore)
        ensures
            r@ == self@.namespaces,
    {
        &self.namespaces
    }

    /// Adds a new namespace with a specific prefix to the graph; a prefix
    /// that is already bound gets the new URI in place.
    pub fn add_namespace(&mut self, ns: &Namespace)
        ensures
            ({
                let i = find_prefix_idx(old(self)@.namespaces, ns@.prefix);
                if i < old(self)@.namespaces.len() {
                    final(self)@ == (GraphView {
                        namespaces: old(self)@.namespaces.update(i as int, ns@),
                        ..old(self)@
                    })
                } else {
                    final(self)@ == (GraphView {
                        namespaces: old(self)@.namespaces.push(ns@),
                        ..old(self)@
                    })
                }
            }),
    {
        self.namespaces.add(ns);
    }

    /// Returns the URI of a namespace with the provided prefix; fails with
    /// a namespace error when the prefix is not bound.
    pub fn get_namespace_uri_by_prefix(&self, prefix: &str) -> (r: Result<&Uri, Error>)
        ensures
            ({
                let i = find_prefix_idx(self@.namespaces, prefix@);
                if i < self@.namespaces.len() {
                    r is Ok && r->Ok_0@ == self@.namespaces[i as int].uri
                } else {
                    r is Err && r->Err_0.kind() is InvalidNamespace
                }
            }),
    {
        self.namespaces.get_uri_by_prefix(prefix)
    }

    /// Returns a plain literal node.
    pub fn create_literal_node(&self, literal: String) -> (r: Node)
        ensures
            r@ == (NodeView::Literal { literal: literal@, data_type: None, language: None }),
    {
        Node::LiteralNode { literal, data_type: None, language: None }
    }

    /// Returns a literal node holding the number in decimal, typed as an
    /// integer.
    pub fn create_integer_node(&self, literal: i32) -> (r: Node)
        ensures
            r@ == (NodeView::Literal {
                literal: dec_str_signed(literal as int),
                data_type: Some(spec_xml_type_str(XmlDataTypes::Integer)),
                language: None,
            }),
    {
        Node::LiteralNode {
            literal: i32_to_dec_string(literal),
            data_type: Some(XmlDataTypes::Integer.to_uri()),
            language: None,
        }
    }

    /// Returns a literal node with a specified data type.
    pub fn create_literal_node_with_data_type(&self, literal: String, data_type: &Uri) -> (r:
        Node)
        ensures
            r@ == (NodeView::Literal {
                literal: literal@,
                data_type: Some(data_type@),
                language: None,
            }),
    {
        Node::LiteralNode { literal, data_type: Some(data_type.clone()), language: None }
    }

    /// Returns a literal node with a specified language.
    pub fn create_literal_node_with_language(&self, literal: String, language: String) -> (r:
        Node)
        ensures
            r@ == (NodeView::Literal {
                literal: literal@,
                data_type: None,
                language: Some(language@),
            }),
    {
        Node::LiteralNode { literal, data_type: None, language: Some(language) }
    }

    /// Creates a blank node with a fresh identifier: `auto` followed by the
    /// counter in decimal; the counter then advances (it stops at the
    /// largest representable value).
    pub fn create_blank_node(&mut self) -> (r: Node)
        ensures
            r@ == (NodeView::Blank { id: blank_node_id_str(old(self)@.next_id) }),
            final(self)@ == (GraphView {
                next_id: if old(self)@.next_id < u64::MAX {
                    old(self)@.next_id + 1
                } else {
                    old(self)@.next_id
                },
                ..old(self)@
            }),
    {
        let id = self.next_id;
        if id < u64::MAX {
            self.next_id = id + 1;
        }
        let mut id_string = String::from_str("auto");
        let digits = u64_to_dec_string(id);
        id_string.append(digits.as_str());
        proof {
            reveal_strlit("auto");
            assert(id_string@ =~= blank_node_id_str(id as nat));
        }
        Node::BlankNode { id: id_string }
    }

    /// Creates a blank node with the specified identifier.
    pub fn create_blank_node_with_id(&self, id: String) -> (r: Node)
        ensures
            r@ == (NodeView::Blank { id: id@ }),
    {
        Node::BlankNode { id }
    }

    /// Creates a new URI node.
    pub fn create_uri_node(&self, uri: &Uri) -> (r: Node)
        ensures
            r@ == (NodeView::Uri { uri: uri@ }),
    {
        Node::UriNode { uri: uri.clone() }
    }

    /// Creates a new URI node from a string slice; a fragment (starting
    /// with `#`) is resolved against the base URI when one is set.
    pub fn create_uri_node_str(&self, uri: &str) -> (r: Node)
        ensures
            r@ == (NodeView::Uri {
                uri: if uri@.len() > 0 && uri@[0] == '#' && self@.base_uri is Some {
                    self@.base_uri->0 + uri@
                } else {
                    uri@
                },
            }),
    {
        let starts_with_hash = uri.unicode_len() > 0 && uri.get_char(0) == '#';
        let resolved = match (starts_with_hash, &self.base_uri) {
            (true, Some(base)) => {
                let mut s = base.to_string().clone();
                s.append(uri);
                Uri::new(s)
            },
            _ => Uri::new(uri.to_owned()),
        };
        Node::UriNode { uri: resolved }
    }

    /// Adds a triple to the graph.
    pub fn add_triple(&mut self, triple: &Triple)
        ensures
            final(self)@ == (GraphView { triples: old(self)@.triples.push(triple@), ..old(self)@ }),
    {
        self.triples.add_triple(triple);
    }

    /// Adds a sequence of triples to the graph, in order.
    #[verifier::loop_isolation(false)]
    pub fn add_triples(&mut self, triples: &[Triple])
        ensures
            final(self)@ == (GraphView {
                triples: old(self)@.triples + triples@.map_values(|t: Triple| t@),
                ..old(self)@
            }),
    {
        let mut i: usize = 0;
        while i < triples.len()
            invariant
                i <= triples@.len(),
                self@ == (GraphView {
                    triples: old(self)@.triples + triples@.map_values(|t: Triple| t@).take(
                        i as int,
                    ),
                    ..old(self)@
                }),
            decreases triples@.len() - i,
        {
            let t = &triples[i];
            self.add_triple(t);
            proof {
                assert(old(self)@.triples + triples@.map_values(|t: Triple| t@).take(i as int + 1)
                    =~= (old(self)@.triples + triples@.map_values(|t: Triple| t@).take(
                    i as int,
                )).push(triples@[i as int]@));
            }
            i = i + 1;
        }
        proof {
            assert(triples@.map_values(|t: Triple| t@).take(triples@.len() as int)
                =~= triples@.map_values(|t: Triple| t@));
        }
    }

    /// Deletes every triple equal to the given one from the graph.
    pub fn remove_triple(&mut self, triple: &Triple)
        ensures
            final(self)@ == (GraphView {
                triples: old(self)@.triples.filter(|tv: TripleView| tv != triple@),
                ..old(self)@
            }),
    {
        self.triples.remove_triple(triple);
    }

    /// Returns all triples from the store that have the specified subject
    /// node.
    pub fn get_triples_with_subject(&self, node: &Node) -> (r: Vec<Triple>)
        ensures
            r@.map_values(|t: Triple| t@) == self@.triples.filter(
                |tv: TripleView| sel_matches(TripleSelector::Subject(node), tv),
            ),
    {
        self.triples.get_triples_with_subject(node)
    }

    /// Returns all triples from the store that have the specified predicate
    /// node.
    pub fn get_triples_with_predicate(&self, node: &Node) -> (r: Vec<Triple>)
        ensures
            r@.map_values(|t: Triple| t@) == self@.triples.filter(
                |tv: TripleView| sel_matches(TripleSelector::Predicate(node), tv),
            ),
    {
        self.triples.get_triples_with_predicate(node)
    }

    /// Returns all triples from the store that have the specified object
    /// node.
    pub fn get_triples_with_object(&self, node: &Node) -> (r: Vec<Triple>)
        ensures
            r@.map_values(|t: Triple| t@) == self@.triples.filter(
                |tv: TripleView| sel_matches(TripleSelector::Object(node), tv),
            ),
    {
        self.triples.get_triples_with_object(node)
    }

    /// Returns all triples where the subject and object nodes match the
    /// provided nodes.
    pub fn get_triples_with_subject_and_object(
        &self,
        subject_node: &Node,
        object_node: &Node,
    ) -> (r: Vec<Triple>)
        ensures
            r@.map_values(|t: Triple| t@) == self@.triples.filter(
                |tv: TripleView| sel_matches(
                    TripleSelector::SubjectObject(subject_node, object_node),
                    tv,
                ),
            ),
    {
        self.triples.get_triples_with_subject_and_object(subject_node, object_node)
    }

    /// Returns all triples where the subject and predicate nodes match the
    /// provided nodes.
    pub fn get_triples_with_subject_and_predicate(
        &self,
        subject_node: &Node,
        predicate_node: &Node,
    ) -> (r: Vec<Triple>)
        ensures
            r@.map_values(|t: Triple| t@) == self@.triples.filter(
                |tv: TripleView| sel_matches(
                    TripleSelector::SubjectPredicate(subject_node, predicate_node),
                    tv,
                ),
            ),
    {
        self.triples.get_triples_with_subject_and_predicate(subject_node, predicate_node)
    }

    /// Returns all triples where the predicate and object nodes match the
    /// provided nodes.
    pub fn get_triples_with_predicate_and_object(
        &self,
        predicate_node: &Node,
        object_node: &Node,
    ) -> (r: Vec<Triple>)
        ensures
            r@.map_values(|t: Triple| t@) == self@.triples.filter(
                |tv: TripleView| sel_matches(
                    TripleSelector::PredicateObject(predicate_node, object_node),
                    tv,
                ),
            ),
    {
        self.triples.get_triples_with_predicate_and_object(predicate_node, object_node)
    }

    /// Returns the triples of the graph, in insertion order.
    pub fn triples_iter(&self) -> (r: &Vec<Triple>)
        ensures
            r@.map_values(|t: Triple| t@) == self@.triples,
    {
        self.triples.iter()
    }
}

} // verus!
