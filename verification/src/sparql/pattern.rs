use vstd::prelude::*;

use crate::node::{Node, NodeView};

verus! {

/// A node in a triple pattern: either a variable or a fixed node.
#[derive(Debug)]
pub enum NodePattern {
    /// A variable with its name.
    VariableNode(String),
    /// A node with a specific value.
    FixedNode(Node),
}

/// The mathematical value of a node pattern.
pub enum NodePatternView {
    Variable(Seq<char>),
    Fixed(NodeView),
}

impl View for NodePattern {
    type V = NodePatternView;

    open spec fn view(&self) -> NodePatternView {
        match self {
            NodePattern::VariableNode(name) => NodePatternView::Variable(name@),
            NodePattern::FixedNode(node) => NodePatternView::Fixed(node@),
        }
    }
}

impl Clone for NodePattern {
    fn clone(&self) -> (r: Self)
        ensures
            r@ == self@,
    {
        match self {
            NodePattern::VariableNode(name) => NodePattern::VariableNode(name.clone()),
            NodePattern::FixedNode(node) => NodePattern::FixedNode(node.clone()),
        }
    }
}

/// Describes a triple that a SPARQL `WHERE` clause should match.
#[derive(Debug)]
pub struct TriplePattern {
    subject: NodePattern,
    predicate: NodePattern,
    object: NodePattern,
    is_union: bool,
    is_optional: bool,
}

/// The mathematical value of a triple pattern.
pub struct TriplePatternView {
    pub subject: NodePatternView,
    pub predicate: NodePatternView,
    pub object: NodePatternView,
    pub is_union: bool,
    pub is_optional: bool,
}

impl View for TriplePattern {
    type V = TriplePatternView;

    closed spec fn view(&self) -> TriplePatternView {
        TriplePatternView {
            subject: self.subject@,
            predicate: self.predicate@,
            object: self.object@,
            is_union: self.is_union,
            is_optional: self.is_optional,
        }
    }
}

impl TriplePattern {
    /// Constructor of `TriplePattern`.
    pub fn new(subject: &NodePattern, predicate: &NodePattern, object: &NodePattern) -> (r:
        TriplePattern)
        ensures
            r@ == (TriplePatternView {
                subject: subject@,
                predicate: predicate@,
                object: object@,
                is_union: false,
                is_optional: false,
            }),
    {
        TriplePattern {
            subject: subject.clone(),
            predicate: predicate.clone(),
            object: object.clone(),
            is_optional: false,
            is_union: false,
        }
    }

    /// Returns the subject pattern.
    pub fn subject(&self) -> (r: &NodePattern)
        ensures
            r@ == self@.subject,
    {
        &self.subject
    }

    /// Returns the predicate pattern.
    pub fn predicate(&self) -> (r: &NodePattern)
        ensures
            r@ == self@.predicate,
    {
        &self.predicate
    }

    /// Returns the object pattern.
    pub fn object(&self) -> (r: &NodePattern)
        ensures
            r@ == self@.object,
    {
        &self.object
    }
}

impl Clone for TriplePattern {
    fn clone(&self) -> (r: Self)
        ensures
            r@ == self@,
    {
        TriplePattern {
            subject: self.subject.clone(),
            predicate: self.predicate.clone(),
            object: self.object.clone(),
            is_union: self.is_union,
            is_optional: self.is_optional,
        }
    }
}

/// A pattern in a `WHERE` clause: a nested group, a triple pattern, or a
/// bare node pattern.
#[derive(Debug)]
pub enum Pattern {
    Group(GroupPattern),
    Triple(TriplePattern),
    Node(NodePattern),
}

/// The mathematical value of a pattern. A group is a sequence of the
/// patterns it holds, with its union and optional flags.
pub enum PatternView {
    Group(Seq<Pattern>, bool, bool),
    Triple(TriplePatternView),
    Node(NodePatternView),
}

impl View for Pattern {
    type V = PatternView;

    open spec fn view(&self) -> PatternView {
        match self {
            Pattern::Group(g) => PatternView::Group(g.patterns@, g.is_union, g.is_optional),
            Pattern::Triple(t) => PatternView::Triple(t@),
            Pattern::Node(n) => PatternView::Node(n@),
        }
    }
}

impl Clone for Pattern {
    fn clone(&self) -> (r: Self)
        ensures
            pattern_equiv(*self, r),
        decreases self,
    {
        match self {
            Pattern::Group(g) => Pattern::Group(g.clone()),
            Pattern::Triple(t) => Pattern::Triple(t.clone()),
            Pattern::Node(n) => Pattern::Node(n.clone()),
        }
    }
}

/// Describes a group of patterns that a SPARQL `WHERE` clause should
/// match.
#[derive(Debug)]
pub struct GroupPattern {
    pub patterns: Vec<Pattern>,
    pub is_union: bool,
    pub is_optional: bool,
}

impl View for GroupPattern {
    type V = PatternView;

    open spec fn view(&self) -> PatternView {
        PatternView::Group(self.patterns@, self.is_union, self.is_optional)
    }
}

impl GroupPattern {
    /// Constructor for `GroupPattern`.
    pub fn new() -> (r: GroupPattern)
        ensures
            r@ == PatternView::Group(Seq::<Pattern>::empty(), false, false),
    {
        let r = GroupPattern { patterns: Vec::new(), is_union: false, is_optional: false };
        r
    }

    /// Stores that the group pattern is preceded by `UNION`.
    pub fn set_is_union(&mut self)
        ensures
            final(self)@ == (match old(self)@ {
                PatternView::Group(ps, _, opt) => PatternView::Group(ps, true, opt),
                v => v,
            }),
    {
        self.is_union = true;
    }

    /// Stores that the group pattern is preceded by `OPTIONAL`.
    pub fn set_is_optional(&mut self)
        ensures
            final(self)@ == (match old(self)@ {
                PatternView::Group(ps, uni, _) => PatternView::Group(ps, uni, true),
                v => v,
            }),
    {
        self.is_optional = true;
    }

    /// Returns the patterns of the group, in order.
    pub fn patterns(&self) -> (r: &Vec<Pattern>)
        ensures
            self@ matches PatternView::Group(ps, _, _) ==> r@ == ps,
    {
        &self.patterns
    }

    /// Adds a new pattern to the group.
    pub fn add_pattern(&mut self, pattern: Pattern)
        ensures
            final(self)@ == (match old(self)@ {
                PatternView::Group(ps, uni, opt) => PatternView::Group(ps.push(pattern), uni, opt),
                v => v,
            }),
    {
        self.patterns.push(pattern);
    }
}

impl Clone for GroupPattern {
    fn clone(&self) -> (r: Self)
        ensures
            r.is_union == self.is_union,
            r.is_optional == self.is_optional,
            r.patterns@.len() == self.patterns@.len(),
            forall|i: int| 0 <= i < self.patterns@.len() ==> pattern_equiv(
                #[trigger] self.patterns@[i],
                r.patterns@[i],
            ),
        decreases self,
    {
        let mut patterns: Vec<Pattern> = Vec::new();
        let mut i: usize = 0;
        while i < self.patterns.len()
            invariant
                i <= self.patterns@.len(),
                patterns@.len() == i,
                forall|q: int| 0 <= q < i ==> pattern_equiv(
                    #[trigger] self.patterns@[q],
                    patterns@[q],
                ),
            decreases self.patterns@.len() - i,
        {
            let p = self.patterns[i].clone();
            patterns.push(p);
            i = i + 1;
        }
        GroupPattern { patterns, is_union: self.is_union, is_optional: self.is_optional }
    }
}

broadcast use vstd::std_specs::vec::axiom_vec_decreases_to_view, vstd::seq::axiom_seq_index_decreases;

/// Whether two patterns hold the same content, group structure included.
pub open spec fn pattern_equiv(a: Pattern, b: Pattern) -> bool
    decreases a,
{
    match (a, b) {
        (Pattern::Group(ga), Pattern::Group(gb)) => {
            &&& ga.is_union == gb.is_union
            &&& ga.is_optional == gb.is_optional
            &&& ga.patterns@.len() == gb.patterns@.len()
            &&& forall|i: int| 0 <= i < ga.patterns@.len() ==> pattern_equiv(
                #[trigger] ga.patterns@[i],
                gb.patterns@[i],
            )
        },
        (Pattern::Triple(ta), Pattern::Triple(tb)) => ta@ == tb@,
        (Pattern::Node(na), Pattern::Node(nb)) => na@ == nb@,
        _ => false,
    }
}

/// A `FILTER` constraint; its expression grammar is not implemented.
#[derive(Debug)]
pub struct FilterPattern {}

} // verus!
