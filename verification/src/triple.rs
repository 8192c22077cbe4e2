use vstd::prelude::*;

use crate::node::{Node, NodeView};

verus! {

/// Triple segment.
#[derive(PartialEq, Eq, Structural, Debug)]
pub enum TripleSegment {
    Subject,
    Predicate,
    Object,
}

/// Triple representation.
#[derive(Debug)]
pub struct Triple {
    subject: Node,
    predicate: Node,
    object: Node,
}

/// The mathematical value of a triple.
pub struct TripleView {
    pub subject: NodeView,
    pub predicate: NodeView,
    pub object: NodeView,
}

impl View for Triple {
    type V = TripleView;

    closed spec fn view(&self) -> TripleView {
        TripleView { subject: self.subject@, predicate: self.predicate@, object: self.object@ }
    }
}

impl Triple {
    /// Constructor for the triple; requires subject, predicate and object
    /// nodes.
    pub fn new(subject: &Node, predicate: &Node, object: &Node) -> (r: Triple)
        ensures
            r@ == (TripleView { subject: subject@, predicate: predicate@, object: object@ }),
    {
        Triple { subject: subject.clone(), predicate: predicate.clone(), object: object.clone() }
    }

    /// Returns a reference to the subject node of the triple.
    pub fn subject(&self) -> (r: &Node)
        ensures
            r@ == self@.subject,
    {
        &self.subject
    }

    /// Returns a reference to the predicate node of the triple.
    pub fn predicate(&self) -> (r: &Node)
        ensures
            r@ == self@.predicate,
    {
        &self.predicate
    }

    /// Returns a reference to the object node of the triple.
    pub fn object(&self) -> (r: &Node)
        ensures
            r@ == self@.object,
    {
        &self.object
    }
}

impl Clone for Triple {
    fn clone(&self) -> (r: Self)
        ensures
            r@ == self@,
    {
        Triple {
            subject: self.subject.clone(),
            predicate: self.predicate.clone(),
            object: self.object.clone(),
        }
    }
}

impl PartialEq for Triple {
    fn eq(&self, other: &Triple) -> (r: bool)
    {
        self.subject == other.subject && self.predicate == other.predicate && self.object
            == other.object
    }
}

impl Eq for Triple {
}

impl vstd::std_specs::cmp::PartialEqSpecImpl for Triple {
    open spec fn obeys_eq_spec() -> bool {
        true
    }

    open spec fn eq_spec(&self, other: &Triple) -> bool {
        self@ == other@
    }
}

/// What a filtered lookup matches a triple on.
pub enum TripleSelector<'a> {
    Subject(&'a Node),
    Predicate(&'a Node),
    Object(&'a Node),
    SubjectObject(&'a Node, &'a Node),
    SubjectPredicate(&'a Node, &'a Node),
    PredicateObject(&'a Node, &'a Node),
}

/// Whether a triple matches the selector.
pub open spec fn sel_matches(sel: TripleSelector, tv: TripleView) -> bool {
    match sel {
        TripleSelector::Subject(n) => tv.subject == n@,
        TripleSelector::Predicate(n) => tv.predicate == n@,
        TripleSelector::Object(n) => tv.object == n@,
        TripleSelector::SubjectObject(s, o) => tv.subject == s@ && tv.object == o@,
        TripleSelector::SubjectPredicate(s, p) => tv.subject == s@ && tv.predicate == p@,
        TripleSelector::PredicateObject(p, o) => tv.predicate == p@ && tv.object == o@,
    }
}

/// Whether a triple matches the selector.
fn triple_matches(sel: &TripleSelector, t: &Triple) -> (r: bool)
    ensures
        r == sel_matches(*sel, t@),
{
    match sel {
        TripleSelector::Subject(n) => *t.subject() == **n,
        TripleSelector::Predicate(n) => *t.predicate() == **n,
        TripleSelector::Object(n) => *t.object() == **n,
        TripleSelector::SubjectObject(s, o) => *t.object() == **o && *t.subject() == **s,
        TripleSelector::SubjectPredicate(s, p) => *t.predicate() == **p && *t.subject() == **s,
        TripleSelector::PredicateObject(p, o) => *t.predicate() == **p && *t.object() == **o,
    }
}

/// Storage for triples: an insertion-ordered sequence.
#[derive(Debug)]
pub struct TripleStore {
    triples: Vec<Triple>,
}

impl View for TripleStore {
    type V = Seq<TripleView>;

    closed spec fn view(&self) -> Seq<TripleView> {
        self.triples@.map_values(|t: Triple| t@)
    }
}

impl TripleStore {
    /// Constructs a new triple store.
    pub fn new() -> (r: TripleStore)
        ensures
            r@ == Seq::<TripleView>::empty(),
    {
        let r = TripleStore { triples: Vec::new() };
        proof {
            assert(r@ =~= Seq::<TripleView>::empty());
        }
        r
    }

    /// Returns the number of triples that are stored.
    pub fn count(&self) -> (r: usize)
        ensures
            r == self@.len(),
    {
        self.triples.len()
    }

    /// Checks if the triple store is empty.
    pub fn is_empty(&self) -> (r: bool)
        ensures
            r == (self@.len() == 0),
    {
        self.count() == 0
    }

    /// Adds a new triple to the store.
    pub fn add_triple(&mut self, triple: &Triple)
        ensures
            final(self)@ == old(self)@.push(triple@),
    {
        proof {
            crate::helper::lemma_map_values_push(
                self.triples@,
                |t: Triple| t@,
                *triple,
            );
        }
        self.triples.push(triple.clone());
        proof {
            assert(self@ =~= old(self)@.push(triple@));
        }
    }

    /// Deletes every triple equal to the given one from the store.
    #[verifier::loop_isolation(false)]
    pub fn remove_triple(&mut self, triple: &Triple)
        ensures
            final(self)@ == old(self)@.filter(|tv: TripleView| tv != triple@),
    {
        let ghost s = self@;
        let ghost pred = |tv: TripleView| tv != triple@;
        let mut kept: Vec<Triple> = Vec::new();
        let mut i: usize = 0;
        proof {
            assert(kept@.map_values(|t: Triple| t@) =~= s.take(0).filter(pred));
        }
        while i < self.triples.len()
            invariant
                i <= self.triples@.len(),
                s == self@,
                self@.len() == self.triples@.len(),
                kept@.map_values(|t: Triple| t@) == s.take(i as int).filter(pred),
            decreases self.triples@.len() - i,
        {
            proof {
                crate::helper::lemma_filter_step(s, pred, i as int);
                assert(s[i as int] == self.triples@[i as int]@);
            }
            let t = &self.triples[i];
            if !(*t == *triple) {
                proof {
                    crate::helper::lemma_map_values_push(kept@, |t: Triple| t@, *t);
                }
                kept.push(t.clone());
            }
            i = i + 1;
        }
        proof {
            assert(s.take(s.len() as int) =~= s);
        }
        self.triples = kept;
    }

    /// Returns the triples matching the selector, in insertion order.
    #[verifier::loop_isolation(false)]
    fn select(&self, sel: TripleSelector) -> (r: Vec<Triple>)
        ensures
            r@.map_values(|t: Triple| t@) == self@.filter(
                |tv: TripleView| sel_matches(sel, tv),
            ),
    {
        let ghost s = self@;
        let ghost pred = |tv: TripleView| sel_matches(sel, tv);
        let mut picked: Vec<Triple> = Vec::new();
        let mut i: usize = 0;
        proof {
            assert(picked@.map_values(|t: Triple| t@) =~= s.take(0).filter(pred));
        }
        while i < self.triples.len()
            invariant
                i <= self.triples@.len(),
                s == self@,
                self@.len() == self.triples@.len(),
                picked@.map_values(|t: Triple| t@) == s.take(i as int).filter(pred),
            decreases self.triples@.len() - i,
        {
            proof {
                crate::helper::lemma_filter_step(s, pred, i as int);
                assert(s[i as int] == self.triples@[i as int]@);
            }
            let t = &self.triples[i];
            if triple_matches(&sel, t) {
                proof {
                    crate::helper::lemma_map_values_push(picked@, |t: Triple| t@, *t);
                }
                picked.push(t.clone());
            }
            i = i + 1;
        }
        proof {
            assert(s.take(s.len() as int) =~= s);
        }
        picked
    }

    /// Returns all triples where the subject node matches the provided node.
    pub fn get_triples_with_subject(&self, node: &Node) -> (r: Vec<Triple>)
        ensures
            r@.map_values(|t: Triple| t@) == self@.filter(
                |tv: TripleView| sel_matches(TripleSelector::Subject(node), tv),
            ),
    {
        self.select(TripleSelector::Subject(node))
    }

    /// Returns all triples where the predicate node matches the provided node.
    pub fn get_triples_with_predicate(&self, node: &Node) -> (r: Vec<Triple>)
        ensures
            r@.map_values(|t: Triple| t@) == self@.filter(
                |tv: TripleView| sel_matches(TripleSelector::Predicate(node), tv),
            ),
    {
        self.select(TripleSelector::Predicate(node))
    }

    /// Returns all triples where the object node matches the provided node.
    pub fn get_triples_with_object(&self, node: &Node) -> (r: Vec<Triple>)
        ensures
            r@.map_values(|t: Triple| t@) == self@.filter(
                |tv: TripleView| sel_matches(TripleSelector::Object(node), tv),
            ),
    {
        self.select(TripleSelector::Object(node))
    }

    /// Returns all triples where the subject and object nodes match the
    /// provided nodes.
    pub fn get_triples_with_subject_and_object(
        &self,
        subject_node: &Node,
        object_node: &Node,
    ) -> (r: Vec<Triple>)
        ensures
            r@.map_values(|t: Triple| t@) == self@.filter(
                |tv: TripleView| sel_matches(
                    TripleSelector::SubjectObject(subject_node, object_node),
                    tv,
                ),
            ),
    {
        self.select(TripleSelector::SubjectObject(subject_node, object_node))
    }

    /// Returns all triples where the subject and predicate nodes match the
    /// provided nodes.
    pub fn get_triples_with_subject_and_predicate(
        &self,
        subject_node: &Node,
        predicate_node: &Node,
    ) -> (r: Vec<Triple>)
        ensures
            r@.map_values(|t: Triple| t@) == self@.filter(
                |tv: TripleView| sel_matches(
                    TripleSelector::SubjectPredicate(subject_node, predicate_node),
                    tv,
                ),
            ),
    {
        self.select(TripleSelector::SubjectPredicate(subject_node, predicate_node))
    }

    /// Returns all triples where the predicate and object nodes match the
    /// provided nodes.
    pub fn get_triples_with_predicate_and_object(
        &self,
        predicate_node: &Node,
        object_node: &Node,
    ) -> (r: Vec<Triple>)
        ensures
            r@.map_values(|t: Triple| t@) == self@.filter(
                |tv: TripleView| sel_matches(
                    TripleSelector::PredicateObject(predicate_node, object_node),
                    tv,
                ),
            ),
    {
        self.select(TripleSelector::PredicateObject(predicate_node, object_node))
    }

    /// Returns all blank nodes of the store: for each triple with a blank
    /// subject or object, those blank nodes in triple order.
    #[verifier::loop_isolation(false)]
    pub fn get_blank_nodes(&self) -> (r: Vec<Node>)
        ensures
            r@.map_values(|n: Node| n@) == blank_nodes_of(self@),
    {
        let ghost s = self@;
        let mut blank_nodes: Vec<Node> = Vec::new();
        let mut i: usize = 0;
        proof {
            assert(blank_nodes@.map_values(|n: Node| n@) =~= blank_nodes_of(s.take(0)));
        }
        while i < self.triples.len()
            invariant
                i <= self.triples@.len(),
                s == self@,
                self@.len() == self.triples@.len(),
                blank_nodes@.map_values(|n: Node| n@) == blank_nodes_of(s.take(i as int)),
            decreases self.triples@.len() - i,
        {
            proof {
                lemma_blank_nodes_step(s, i as int);
                assert(s[i as int] == self.triples@[i as int]@);
            }
            let t = &self.triples[i];
            let subject_blank = match t.subject() {
                Node::BlankNode { .. } => true,
                _ => false,
            };
            let object_blank = match t.object() {
                Node::BlankNode { .. } => true,
                _ => false,
            };
            if subject_blank {
                let sub = t.subject().clone();
                proof {
                    crate::helper::lemma_map_values_push(blank_nodes@, |n: Node| n@, sub);
                }
                blank_nodes.push(sub);
            }
            if object_blank {
                let ob = t.object().clone();
                proof {
                    crate::helper::lemma_map_values_push(blank_nodes@, |n: Node| n@, ob);
                }
                blank_nodes.push(ob);
            }
            i = i + 1;
        }
        proof {
            assert(s.take(s.len() as int) =~= s);
        }
        blank_nodes
    }

    /// Returns the stored triples as a vector.
    pub fn into_vec(self) -> (r: Vec<Triple>)
        ensures
            r@.map_values(|t: Triple| t@) == self@,
    {
        self.triples
    }

    /// Returns the stored triples, in insertion order.
    pub fn iter(&self) -> (r: &Vec<Triple>)
        ensures
            r@.map_values(|t: Triple| t@) == self@,
    {
        &self.triples
    }
}

/// The blank nodes that stand in the subject or object position of each
/// triple, in triple order: the subject first when both are blank.
pub open spec fn blank_nodes_of(s: Seq<TripleView>) -> Seq<NodeView>
    decreases s.len(),
{
    if s.len() == 0 {
        Seq::empty()
    } else {
        blank_nodes_of(s.drop_last()) + blank_nodes_in(s.last())
    }
}

/// The blank nodes of one triple: subject and object where blank.
pub open spec fn blank_nodes_in(tv: TripleView) -> Seq<NodeView> {
    let subj: Seq<NodeView> = if tv.subject is Blank {
        seq![tv.subject]
    } else {
        Seq::empty()
    };
    let obj: Seq<NodeView> = if tv.object is Blank {
        seq![tv.object]
    } else {
        Seq::empty()
    };
    subj + obj
}

pub proof fn lemma_blank_nodes_step(s: Seq<TripleView>, i: int)
    requires
        0 <= i < s.len(),
    ensures
        blank_nodes_of(s.take(i + 1)) == blank_nodes_of(s.take(i)) + blank_nodes_in(s[i]),
{
    assert(s.take(i + 1).drop_last() =~= s.take(i));
    assert(s.take(i + 1).last() == s[i]);
}

} // verus!
