use vstd::prelude::*;

use crate::error::{Error, ErrorType};
use crate::graph::Graph;
use crate::helper::push_char;
use crate::namespace::{Namespace, NamespaceStore, NamespaceView};
use crate::node::{Node, NodeView};
use crate::triple::{Triple, TripleSegment, TripleView};
use crate::uri::Uri;
use crate::writer::n_triples_writer::{node_valid_for_segment, triple_valid};
use vstd::multiset::Multiset;
use crate::writer::turtle_formatter::{turtle_format_node, turtle_format_uri, TurtleFormatter};

verus! {

/// The prefix directives for the given namespaces, one line each, in
/// order.
pub open spec fn turtle_prefixes_text(ns: Seq<NamespaceView>) -> Seq<char>
    decreases ns.len(),
{
    if ns.len() == 0 {
        Seq::empty()
    } else {
        turtle_prefixes_text(ns.drop_last()) + seq!['@', 'p', 'r', 'e', 'f', 'i', 'x', ' ']
            + ns.last().prefix + seq![':', ' ', '<'] + ns.last().uri + seq!['>', ' ', '.', '\n']
    }
}

/// The base directive line for the given base URI, if one is set.
pub open spec fn turtle_base_text(ns: Seq<NamespaceView>, base: Option<Seq<char>>) -> Seq<char> {
    match base {
        Some(u) => seq!['@', 'b', 'a', 's', 'e', ' '] + turtle_format_uri(ns, u) + seq![
            ' ',
            '.',
            '\n',
        ],
        None => Seq::empty(),
    }
}

/// The lexicographic order on character sequences by scalar value.
pub open spec fn spec_str_lt(a: Seq<char>, b: Seq<char>) -> bool
    decreases a.len(),
{
    if b.len() == 0 {
        false
    } else if a.len() == 0 {
        true
    } else if (a[0] as u32) < (b[0] as u32) {
        true
    } else if (a[0] as u32) > (b[0] as u32) {
        false
    } else {
        spec_str_lt(a.skip(1), b.skip(1))
    }
}

/// The order on optional character sequences: an absent one comes first.
pub open spec fn spec_opt_lt(a: Option<Seq<char>>, b: Option<Seq<char>>) -> bool {
    match (a, b) {
        (Option::None, Option::Some(_)) => true,
        (Option::Some(x), Option::Some(y)) => spec_str_lt(x, y),
        _ => false,
    }
}

/// The order rank of a node kind: URIs, then literals, then blanks.
pub open spec fn spec_node_rank(n: NodeView) -> int {
    match n {
        NodeView::Uri { .. } => 0,
        NodeView::Literal { .. } => 1,
        NodeView::Blank { .. } => 2,
    }
}

/// The order on node values: by kind, then by their texts.
pub open spec fn spec_node_lt(a: NodeView, b: NodeView) -> bool {
    if spec_node_rank(a) < spec_node_rank(b) {
        true
    } else if spec_node_rank(a) > spec_node_rank(b) {
        false
    } else {
        match (a, b) {
            (NodeView::Uri { uri: ua }, NodeView::Uri { uri: ub }) => spec_str_lt(ua, ub),
            (NodeView::Blank { id: ia }, NodeView::Blank { id: ib }) => spec_str_lt(ia, ib),
            (
                NodeView::Literal { literal: la, data_type: da, language: ga },
                NodeView::Literal { literal: lb, data_type: db, language: gb },
            ) => {
                if spec_str_lt(la, lb) {
                    true
                } else if spec_str_lt(lb, la) {
                    false
                } else if spec_opt_lt(da, db) {
                    true
                } else if spec_opt_lt(db, da) {
                    false
                } else {
                    spec_opt_lt(ga, gb)
                }
            },
            _ => false,
        }
    }
}

/// The order on triple values: by subject, then predicate, then object.
pub open spec fn spec_triple_lt(a: TripleView, b: TripleView) -> bool {
    if spec_node_lt(a.subject, b.subject) {
        true
    } else if spec_node_lt(b.subject, a.subject) {
        false
    } else if spec_node_lt(a.predicate, b.predicate) {
        true
    } else if spec_node_lt(b.predicate, a.predicate) {
        false
    } else {
        spec_node_lt(a.object, b.object)
    }
}

/// Whether a sequence of triple values carries no inversion of the triple
/// order.
pub open spec fn triples_sorted(s: Seq<TripleView>) -> bool {
    forall|i: int, j: int| 0 <= i < j < s.len() ==> !spec_triple_lt(s[j], s[i])
}

/// Characters with the same scalar value are the same character.
proof fn lemma_char_eq(c: char, d: char)
    requires
        (c as u32) == (d as u32),
    ensures
        c == d,
{
}

/// The string order admits no cycle of two.
proof fn lemma_str_lt_asym(a: Seq<char>, b: Seq<char>)
    ensures
        spec_str_lt(a, b) ==> !spec_str_lt(b, a),
    decreases a.len(),
{
    if a.len() > 0 && b.len() > 0 && (a[0] as u32) == (b[0] as u32) {
        lemma_str_lt_asym(a.skip(1), b.skip(1));
    }
}

/// Two strings that neither order below the other are equal.
proof fn lemma_str_lt_connex(a: Seq<char>, b: Seq<char>)
    ensures
        !spec_str_lt(a, b) && !spec_str_lt(b, a) ==> a == b,
    decreases a.len(),
{
    if a.len() > 0 && b.len() > 0 && (a[0] as u32) == (b[0] as u32) {
        lemma_str_lt_connex(a.skip(1), b.skip(1));
        if !spec_str_lt(a, b) && !spec_str_lt(b, a) {
            lemma_char_eq(a[0], b[0]);
            assert(a.skip(1) == b.skip(1));
            assert(a.len() == b.len());
            assert forall|k: int| 0 <= k < a.len() implies a[k] == b[k] by {
                if k > 0 {
                    assert(a.skip(1)[k - 1] == a[k]);
                    assert(b.skip(1)[k - 1] == b[k]);
                }
            }
            assert(a =~= b);
        }
    } else if !spec_str_lt(a, b) && !spec_str_lt(b, a) {
        assert(a.len() == 0 && b.len() == 0);
        assert(a =~= b);
    }
}

/// The string order carries over a middle string.
proof fn lemma_str_lt_trans(a: Seq<char>, b: Seq<char>, c: Seq<char>)
    ensures
        spec_str_lt(a, b) && spec_str_lt(b, c) ==> spec_str_lt(a, c),
    decreases a.len(),
{
    if a.len() > 0 && b.len() > 0 && c.len() > 0 {
        lemma_str_lt_trans(a.skip(1), b.skip(1), c.skip(1));
    }
}

/// Compares two strings by their characters.
fn str_lt(a: &String, b: &String) -> (r: bool)
    ensures
        r == spec_str_lt(a@, b@),
{
    let a_str = a.as_str();
    let b_str = b.as_str();
    let alen = a_str.unicode_len();
    let blen = b_str.unicode_len();
    let mut i: usize = 0;
    proof {
        assert(a@.skip(0) =~= a@);
        assert(b@.skip(0) =~= b@);
    }
    while i < alen && i < blen
        invariant
            i <= alen,
            i <= blen,
            alen == a_str@.len(),
            blen == b_str@.len(),
            a_str@ == a@,
            b_str@ == b@,
            spec_str_lt(a@, b@) == spec_str_lt(a@.skip(i as int), b@.skip(i as int)),
        decreases alen - i,
    {
        let ca = a_str.get_char(i);
        let cb = b_str.get_char(i);
        proof {
            assert(a@.skip(i as int)[0] == a@[i as int]);
            assert(b@.skip(i as int)[0] == b@[i as int]);
        }
        if (ca as u32) < (cb as u32) {
            return true;
        }
        if (ca as u32) > (cb as u32) {
            return false;
        }
        proof {
            assert(a@.skip(i as int).skip(1) =~= a@.skip(i + 1));
            assert(b@.skip(i as int).skip(1) =~= b@.skip(i + 1));
        }
        i = i + 1;
    }
    proof {
        if i == alen {
            assert(a@.skip(i as int).len() == 0);
        } else {
            assert(b@.skip(i as int).len() == 0);
            assert(a@.skip(i as int).len() > 0);
        }
    }
    alen < blen
}

/// The optional-string order admits no cycle of two, and leaves only
/// equal values unordered.
proof fn lemma_opt_lt_props(a: Option<Seq<char>>, b: Option<Seq<char>>)
    ensures
        spec_opt_lt(a, b) ==> !spec_opt_lt(b, a),
        !spec_opt_lt(a, b) && !spec_opt_lt(b, a) ==> a == b,
{
    if a is Some && b is Some {
        lemma_str_lt_asym(a->0, b->0);
        lemma_str_lt_asym(b->0, a->0);
        lemma_str_lt_connex(a->0, b->0);
    }
}

/// The optional-string order carries over a middle value.
proof fn lemma_opt_lt_trans(a: Option<Seq<char>>, b: Option<Seq<char>>, c: Option<Seq<char>>)
    ensures
        spec_opt_lt(a, b) && spec_opt_lt(b, c) ==> spec_opt_lt(a, c),
{
    if a is Some && b is Some && c is Some {
        lemma_str_lt_trans(a->0, b->0, c->0);
    }
}

/// The node order admits no cycle of two, and leaves only equal values
/// unordered.
proof fn lemma_node_lt_props(a: NodeView, b: NodeView)
    ensures
        spec_node_lt(a, b) ==> !spec_node_lt(b, a),
        !spec_node_lt(a, b) && !spec_node_lt(b, a) ==> a == b,
{
    match (a, b) {
        (NodeView::Uri { uri: ua }, NodeView::Uri { uri: ub }) => {
            lemma_str_lt_asym(ua, ub);
            lemma_str_lt_asym(ub, ua);
            lemma_str_lt_connex(ua, ub);
        },
        (NodeView::Blank { id: ia }, NodeView::Blank { id: ib }) => {
            lemma_str_lt_asym(ia, ib);
            lemma_str_lt_asym(ib, ia);
            lemma_str_lt_connex(ia, ib);
        },
        (
            NodeView::Literal { literal: la, data_type: da, language: ga },
            NodeView::Literal { literal: lb, data_type: db, language: gb },
        ) => {
            lemma_str_lt_asym(la, lb);
            lemma_str_lt_asym(lb, la);
            lemma_str_lt_connex(la, lb);
            lemma_opt_lt_props(da, db);
            lemma_opt_lt_props(db, da);
            lemma_opt_lt_props(ga, gb);
            lemma_opt_lt_props(gb, ga);
        },
        _ => {},
    }
}

/// The node order carries over a middle node.
proof fn lemma_node_lt_trans(a: NodeView, b: NodeView, c: NodeView)
    ensures
        spec_node_lt(a, b) && spec_node_lt(b, c) ==> spec_node_lt(a, c),
{
    match (a, b, c) {
        (
            NodeView::Uri { uri: ua },
            NodeView::Uri { uri: ub },
            NodeView::Uri { uri: uc },
        ) => {
            lemma_str_lt_trans(ua, ub, uc);
            lemma_str_lt_connex(ua, ub);
            lemma_str_lt_connex(ub, uc);
        },
        (
            NodeView::Blank { id: ia },
            NodeView::Blank { id: ib },
            NodeView::Blank { id: ic },
        ) => {
            lemma_str_lt_trans(ia, ib, ic);
            lemma_str_lt_connex(ia, ib);
            lemma_str_lt_connex(ib, ic);
        },
        (
            NodeView::Literal { literal: la, data_type: da, language: ga },
            NodeView::Literal { literal: lb, data_type: db, language: gb },
            NodeView::Literal { literal: lc, data_type: dc, language: gc },
        ) => {
            lemma_str_lt_trans(la, lb, lc);
            lemma_str_lt_asym(la, lb);
            lemma_str_lt_asym(lb, lc);
            lemma_str_lt_connex(la, lb);
            lemma_str_lt_connex(lb, lc);
            lemma_opt_lt_trans(da, db, dc);
            lemma_opt_lt_props(da, db);
            lemma_opt_lt_props(db, dc);
            lemma_opt_lt_trans(ga, gb, gc);
            lemma_opt_lt_props(ga, gb);
            lemma_opt_lt_props(gb, gc);
        },
        _ => {},
    }
}

/// The triple order admits no cycle of two, and leaves only equal values
/// unordered.
proof fn lemma_triple_lt_props(a: TripleView, b: TripleView)
    ensures
        spec_triple_lt(a, b) ==> !spec_triple_lt(b, a),
        !spec_triple_lt(a, b) && !spec_triple_lt(b, a) ==> a == b,
{
    lemma_node_lt_props(a.subject, b.subject);
    lemma_node_lt_props(a.predicate, b.predicate);
    lemma_node_lt_props(a.object, b.object);
}

/// The triple order carries over a middle triple.
proof fn lemma_triple_lt_trans(a: TripleView, b: TripleView, c: TripleView)
    ensures
        spec_triple_lt(a, b) && spec_triple_lt(b, c) ==> spec_triple_lt(a, c),
{
    lemma_node_lt_trans(a.subject, b.subject, c.subject);
    lemma_node_lt_props(a.subject, b.subject);
    lemma_node_lt_props(b.subject, c.subject);
    lemma_node_lt_trans(a.predicate, b.predicate, c.predicate);
    lemma_node_lt_props(a.predicate, b.predicate);
    lemma_node_lt_props(b.predicate, c.predicate);
    lemma_node_lt_trans(a.object, b.object, c.object);
}

/// The character sequences behind an optional URI.
pub open spec fn opt_uri_chars(a: Option<Uri>) -> Option<Seq<char>> {
    match a {
        Option::Some(u) => Option::Some(u@),
        Option::None => Option::None,
    }
}

/// The character sequences behind an optional string.
pub open spec fn opt_string_chars(a: Option<String>) -> Option<Seq<char>> {
    match a {
        Option::Some(s) => Option::Some(s@),
        Option::None => Option::None,
    }
}

/// Compares two optional URIs: an absent one comes first.
fn opt_uri_lt(a: &Option<Uri>, b: &Option<Uri>) -> (r: bool)
    ensures
        r == spec_opt_lt(opt_uri_chars(*a), opt_uri_chars(*b)),
{
    match (a, b) {
        (None, Some(_)) => true,
        (Some(ua), Some(ub)) => str_lt(ua.to_string(), ub.to_string()),
        _ => false,
    }
}

/// Compares two optional strings: an absent one comes first.
fn opt_string_lt(a: &Option<String>, b: &Option<String>) -> (r: bool)
    ensures
        r == spec_opt_lt(opt_string_chars(*a), opt_string_chars(*b)),
{
    match (a, b) {
        (None, Some(_)) => true,
        (Some(sa), Some(sb)) => str_lt(sa, sb),
        _ => false,
    }
}

/// The order rank of a node kind: URIs, then literals, then blanks.
fn node_kind_rank(n: &Node) -> (r: u8)
    ensures
        r as int == spec_node_rank(n@),
{
    match n {
        Node::UriNode { .. } => 0,
        Node::LiteralNode { .. } => 1,
        Node::BlankNode { .. } => 2,
    }
}

/// Orders nodes by kind, then by their texts.
fn node_lt(a: &Node, b: &Node) -> (r: bool)
    ensures
        r == spec_node_lt(a@, b@),
{
    let ra = node_kind_rank(a);
    let rb = node_kind_rank(b);
    if ra < rb {
        return true;
    }
    if ra > rb {
        return false;
    }
    match (a, b) {
        (Node::UriNode { uri: ua }, Node::UriNode { uri: ub }) => str_lt(
            ua.to_string(),
            ub.to_string(),
        ),
        (Node::BlankNode { id: ia }, Node::BlankNode { id: ib }) => str_lt(ia, ib),
        (
            Node::LiteralNode { literal: la, data_type: da, language: ga },
            Node::LiteralNode { literal: lb, data_type: db, language: gb },
        ) => {
            if str_lt(la, lb) {
                true
            } else if str_lt(lb, la) {
                false
            } else if opt_uri_lt(da, db) {
                true
            } else if opt_uri_lt(db, da) {
                false
            } else {
                opt_string_lt(ga, gb)
            }
        },
        _ => false,
    }
}

/// Orders triples by subject, then predicate, then object.
fn triple_lt(a: &Triple, b: &Triple) -> (r: bool)
    ensures
        r == spec_triple_lt(a@, b@),
{
    if node_lt(a.subject(), b.subject()) {
        return true;
    }
    if node_lt(b.subject(), a.subject()) {
        return false;
    }
    if node_lt(a.predicate(), b.predicate()) {
        return true;
    }
    if node_lt(b.predicate(), a.predicate()) {
        return false;
    }
    node_lt(a.object(), b.object())
}

/// Sorts the triples for grouped serialization; the result is a
/// permutation of the given triples, ordered by the triple order.
#[verifier::loop_isolation(false)]
fn sort_triples(input: &Vec<Triple>) -> (r: Vec<Triple>)
    ensures
        r@.len() == input@.len(),
        r@.map_values(|t: Triple| t@).to_multiset() == input@.map_values(
            |t: Triple| t@,
        ).to_multiset(),
        forall|i: int| 0 <= i < r@.len() ==> input@.map_values(|t: Triple| t@).contains(
            (#[trigger] r@[i])@,
        ),
        triples_sorted(r@.map_values(|t: Triple| t@)),
{
    broadcast use vstd::seq_lib::lemma_multiset_commutative;

    let ghost views = input@.map_values(|t: Triple| t@);
    let mut result: Vec<Triple> = Vec::new();
    let mut k: usize = 0;
    proof {
        assert(result@.map_values(|t: Triple| t@) =~= views.take(0));
        views.take(0).to_multiset_ensures();
        result@.map_values(|t: Triple| t@).to_multiset_ensures();
    }
    while k < input.len()
        invariant
            k <= input@.len(),
            result@.len() == k,
            result@.map_values(|t: Triple| t@).to_multiset() == views.take(
                k as int,
            ).to_multiset(),
            forall|i: int| 0 <= i < result@.len() ==> views.contains((#[trigger] result@[i])@),
            triples_sorted(result@.map_values(|tr: Triple| tr@)),
        decreases input@.len() - k,
    {
        let t = input[k].clone();
        let mut pos: usize = 0;
        while pos < result.len() && triple_lt(&result[pos], &t)
            invariant
                pos <= result@.len(),
                forall|p: int| 0 <= p < pos ==> spec_triple_lt((#[trigger] result@[p])@, t@),
            decreases result@.len() - pos,
        {
            pos = pos + 1;
        }
        let ghost before = result@;
        result.insert(pos, t);
        proof {
            let f = |t: Triple| t@;
            let x = input@[k as int]@;
            assert(views[k as int] == x);
            assert(views.contains(x));
            assert forall|i: int| 0 <= i < result@.len() implies views.contains(
                (#[trigger] result@[i])@,
            ) by {
                if i < pos {
                    assert(result@[i] == before[i]);
                } else if i == pos {
                    assert(result@[i]@ == x);
                } else {
                    assert(result@[i] == before[i - 1]);
                }
            }
            // the inserted element moves the multiset by exactly one copy
            assert(result@.map_values(f) =~= before.map_values(f).take(pos as int) + seq![x]
                + before.map_values(f).skip(pos as int));
            assert(before.map_values(f) =~= before.map_values(f).take(pos as int)
                + before.map_values(f).skip(pos as int));
            seq![x].to_multiset_ensures();
            Seq::<TripleView>::empty().to_multiset_ensures();
            assert(seq![x] =~= Seq::<TripleView>::empty().push(x));
            assert(seq![x].to_multiset() =~= Multiset::<TripleView>::empty().insert(x));
            assert(views.take(k as int).push(x) =~= views.take(k + 1));
            views.take(k as int).to_multiset_ensures();
            assert(result@.map_values(f).to_multiset() =~= views.take(k + 1).to_multiset());
            // everything before the insertion point lies below the new
            // triple, and nothing from it on does
            assert forall|ii: int, jj: int| 0 <= ii < jj < result@.map_values(f).len()
                implies !spec_triple_lt(result@.map_values(f)[jj], result@.map_values(f)[ii]) by {
                if jj < pos {
                    assert(result@[ii] == before[ii]);
                    assert(result@[jj] == before[jj]);
                    assert(!spec_triple_lt(before.map_values(f)[jj], before.map_values(f)[ii]));
                } else if jj == pos {
                    assert(result@[ii] == before[ii]);
                    assert(result@[jj]@ == x);
                    assert(spec_triple_lt(before[ii]@, x));
                    lemma_triple_lt_props(before[ii]@, x);
                } else if ii == pos {
                    assert(result@[ii]@ == x);
                    assert(result@[jj] == before[jj - 1]);
                    assert(pos < before.len());
                    assert(!spec_triple_lt(before[pos as int]@, x));
                    if jj - 1 > pos {
                        assert(!spec_triple_lt(
                            before.map_values(f)[jj - 1],
                            before.map_values(f)[pos as int],
                        ));
                        lemma_triple_lt_props(before[jj - 1]@, before[pos as int]@);
                        lemma_triple_lt_trans(before[pos as int]@, before[jj - 1]@, x);
                    }
                } else if ii < pos {
                    assert(result@[ii] == before[ii]);
                    assert(result@[jj] == before[jj - 1]);
                    assert(!spec_triple_lt(before.map_values(f)[jj - 1], before.map_values(f)[ii]));
                } else {
                    assert(result@[ii] == before[ii - 1]);
                    assert(result@[jj] == before[jj - 1]);
                    assert(!spec_triple_lt(
                        before.map_values(f)[jj - 1],
                        before.map_values(f)[ii - 1],
                    ));
                }
            }
        }
        k = k + 1;
    }
    proof {
        assert(views.take(views.len() as int) =~= views);
    }
    result
}

/// A run of spaces of the given width.
fn spaces(n: usize) -> String {
    let mut r = String::new();
    let mut i: usize = 0;
    while i < n
        decreases n - i,
    {
        push_char(&mut r, ' ');
        i = i + 1;
    }
    r
}

/// The two lengths added, stopping at the largest representable value.
fn sat_add(a: usize, b: usize) -> usize {
    if a > usize::MAX - b {
        usize::MAX
    } else {
        a + b
    }
}

/// RDF writer that generates Turtle syntax, grouping statements by subject
/// and predicate.
pub struct TurtleWriter<'a> {
    formatter: TurtleFormatter<'a>,
}

impl<'a> TurtleWriter<'a> {
    /// The namespaces the writer shortens URIs under.
    pub closed spec fn spec_namespaces(&self) -> Seq<NamespaceView> {
        self.formatter.spec_namespaces()
    }

    /// Constructor of `TurtleWriter`.
    pub fn new(namespaces: &'a NamespaceStore) -> (r: TurtleWriter<'a>)
        ensures
            r.spec_namespaces() == namespaces@,
    {
        TurtleWriter { formatter: TurtleFormatter::new(namespaces) }
    }

    /// Returns the formatted base URI directive as a string.
    fn write_base_uri(&self, graph: &Graph) -> (r: String)
        ensures
            r@ == turtle_base_text(self.spec_namespaces(), graph@.base_uri),
    {
        let mut output_string = String::new();
        match graph.base_uri() {
            Some(base) => {
                output_string.append("@base ");
                let formatted = self.formatter.format_uri(base);
                output_string.append(formatted.as_str());
                output_string.append(" .\n");
                proof {
                    reveal_strlit("@base ");
                    reveal_strlit(" .\n");
                    assert(output_string@ =~= turtle_base_text(
                        self.formatter.spec_namespaces(),
                        graph@.base_uri,
                    ));
                }
            },
            None => {},
        }
        output_string
    }

    /// Returns all prefix directives as a formatted string, one line per
    /// namespace, in insertion order.
    #[verifier::loop_isolation(false)]
    fn write_prefixes(&self, graph: &Graph) -> (r: String)
        ensures
            r@ == turtle_prefixes_text(graph@.namespaces),
    {
        let ghost nss = graph@.namespaces;
        let mut output_string = String::new();
        let bindings = graph.namespaces().namespaces();
        let mut i: usize = 0;
        while i < bindings.len()
            invariant
                i <= bindings@.len(),
                bindings@.map_values(|ns: Namespace| ns@) == nss,
                output_string@ == turtle_prefixes_text(nss.take(i as int)),
            decreases bindings@.len() - i,
        {
            proof {
                assert(nss[i as int] == bindings@[i as int]@);
                assert(nss.take(i as int + 1).drop_last() =~= nss.take(i as int));
                assert(nss.take(i as int + 1).last() == nss[i as int]);
            }
            output_string.append("@prefix ");
            output_string.append(bindings[i].prefix().as_str());
            output_string.append(": <");
            output_string.append(bindings[i].uri().to_string().as_str());
            output_string.append("> .\n");
            proof {
                reveal_strlit("@prefix ");
                reveal_strlit(": <");
                reveal_strlit("> .\n");
                assert(output_string@ =~= turtle_prefixes_text(nss.take(i as int + 1)));
            }
            i = i + 1;
        }
        proof {
            assert(nss.take(nss.len() as int) =~= nss);
        }
        output_string
    }

    /// Converts a single node to its Turtle representation; fails if the
    /// node may not stand in the given triple segment.
    fn node_to_turtle(&self, node: &Node, segment: &TripleSegment) -> (r: Result<String, Error>)
        ensures
            node_valid_for_segment(node@, *segment) ==> r is Ok && r->Ok_0@ == turtle_format_node(
                self.spec_namespaces(),
                node@,
            ),
            !node_valid_for_segment(node@, *segment) ==> r is Err && r->Err_0.kind()
                is InvalidWriterOutput,
    {
        match node {
            Node::BlankNode { .. } => {
                // blank nodes are not allowed as predicates
                if *segment == TripleSegment::Predicate {
                    return Err(
                        Error::new(
                            ErrorType::InvalidWriterOutput,
                            "Blank nodes are not allowed as predicates in Turtle.",
                        ),
                    );
                }
            },
            Node::LiteralNode { data_type, language, .. } => {
                // literal nodes are only allowed as objects
                if !(*segment == TripleSegment::Object) {
                    return Err(
                        Error::new(
                            ErrorType::InvalidWriterOutput,
                            "Literals are not allowed as subjects or predicates in Turtle.",
                        ),
                    );
                }
                // either the language or the data type may be set, not both
                let both = match (data_type, language) {
                    (Some(_), Some(_)) => true,
                    _ => false,
                };
                if both {
                    return Err(
                        Error::new(
                            ErrorType::InvalidWriterOutput,
                            "Literal has data type and language.",
                        ),
                    );
                }
            },
            _ => {},
        }
        Ok(self.formatter.format_node(node))
    }

    /// Generates the Turtle syntax for the provided graph: the base and
    /// prefix directives, then the triples sorted and grouped by subject
    /// and predicate. A graph whose every triple is well-formed
    /// serializes without an error.
    #[verifier::loop_isolation(false)]
    pub fn write_to_string(&self, graph: &Graph) -> (r: Result<String, Error>)
        ensures
            (forall|i: int| 0 <= i < graph@.triples.len() ==> triple_valid(
                #[trigger] graph@.triples[i],
            )) ==> r is Ok,
            r is Ok ==> (turtle_base_text(self.spec_namespaces(), graph@.base_uri)
                + turtle_prefixes_text(graph@.namespaces)).is_prefix_of(r->Ok_0@),
            graph@.triples.len() == 0 ==> r is Ok && r->Ok_0@ == turtle_base_text(
                self.spec_namespaces(),
                graph@.base_uri,
            ) + turtle_prefixes_text(graph@.namespaces),
            ({
                // a single well-formed statement serializes to exactly its
                // three nodes and the statement delimiter after the directives
                let ns = self.spec_namespaces();
                let tv = graph@.triples[0];
                graph@.triples.len() == 1 && triple_valid(tv) ==> r is Ok && r->Ok_0@
                    == turtle_base_text(ns, graph@.base_uri) + turtle_prefixes_text(
                    graph@.namespaces,
                ) + turtle_format_node(ns, tv.subject) + seq![' '] + turtle_format_node(
                    ns,
                    tv.predicate,
                ) + seq![' '] + turtle_format_node(ns, tv.object) + seq![' ', '.']
            }),
    {
        let ghost header = turtle_base_text(self.spec_namespaces(), graph@.base_uri)
            + turtle_prefixes_text(graph@.namespaces);
        let ghost gts = graph@.triples;
        let mut output_string = String::new();
        let base_part = self.write_base_uri(graph);
        output_string.append(base_part.as_str());
        let prefixes_part = self.write_prefixes(graph);
        output_string.append(prefixes_part.as_str());
        proof {
            assert(output_string@ =~= header);
            assert(header.is_prefix_of(output_string@)) by {
                assert(output_string@.subrange(0, header.len() as int) =~= header);
            }
        }
        let triples_all = graph.triples_iter();
        let triples_vec = sort_triples(triples_all);
        // subjects and predicates of the previous statement, for grouping
        let mut previous_subject: Option<Node> = None;
        let mut previous_predicate: Option<Node> = None;
        // widths indenting the predicate and object under their columns
        let mut predicate_indentation: usize = 0;
        let mut object_indentation: usize = 0;
        let mut i: usize = 0;
        while i < triples_vec.len()
            invariant
                forall|q: int| 0 <= q < triples_vec@.len() ==> gts.contains(
                    (#[trigger] triples_vec@[q])@,
                ),
                header.is_prefix_of(output_string@),
                gts.len() == 0 ==> output_string@ == header,
                gts.len() == 1 && i == 0 ==> output_string@ == header && previous_subject
                    is None,
                gts.len() == 1 && i > 0 ==> output_string@ == header + turtle_format_node(
                    self.spec_namespaces(),
                    gts[0].subject,
                ) + seq![' '] + turtle_format_node(self.spec_namespaces(), gts[0].predicate)
                    + seq![' '] + turtle_format_node(self.spec_namespaces(), gts[0].object),
            decreases triples_vec@.len() - i,
        {
            proof {
                assert(gts.contains((triples_vec@[i as int])@));
                if gts.len() == 1 {
                    assert((triples_vec@[i as int])@ == gts[0]) by {
                        let w = choose|w: int| 0 <= w < gts.len() && gts[w] == (triples_vec@[
                            i as int
                        ])@;
                        assert(w == 0);
                    }
                }
            }
            let triple = &triples_vec[i];
            let same_subject = match &previous_subject {
                Some(ps) => *ps == *triple.subject(),
                None => false,
            };
            if same_subject {
                let same_predicate = match &previous_predicate {
                    Some(pp) => *pp == *triple.predicate(),
                    None => false,
                };
                if same_predicate {
                    // another object for the same subject and predicate
                    output_string.append(" ,\n");
                    let indent = spaces(object_indentation);
                    output_string.append(indent.as_str());
                } else {
                    output_string.append(" ;\n");
                    // write the next predicate for the same subject
                    let turtle_predicate = match self.node_to_turtle(
                        triple.predicate(),
                        &TripleSegment::Predicate,
                    ) {
                        Ok(s) => s,
                        Err(e) => {
                            return Err(e);
                        },
                    };
                    let indent = spaces(predicate_indentation);
                    output_string.append(indent.as_str());
                    output_string.append(turtle_predicate.as_str());
                    previous_predicate = Some(triple.predicate().clone());
                    output_string.append(" ");
                    object_indentation = sat_add(
                        sat_add(predicate_indentation, turtle_predicate.as_str().unicode_len()),
                        1,
                    );
                }
            } else {
                let had_previous = match &previous_subject {
                    Some(_) => true,
                    None => false,
                };
                if had_previous {
                    output_string.append(" .\n");
                }
                // start a new statement group
                let turtle_subject = match self.node_to_turtle(
                    triple.subject(),
                    &TripleSegment::Subject,
                ) {
                    Ok(s) => s,
                    Err(e) => {
                        return Err(e);
                    },
                };
                output_string.append(turtle_subject.as_str());
                previous_subject = Some(triple.subject().clone());
                output_string.append(" ");
                let turtle_predicate = match self.node_to_turtle(
                    triple.predicate(),
                    &TripleSegment::Predicate,
                ) {
                    Ok(s) => s,
                    Err(e) => {
                        return Err(e);
                    },
                };
                output_string.append(turtle_predicate.as_str());
                previous_predicate = Some(triple.predicate().clone());
                output_string.append(" ");
                predicate_indentation = sat_add(turtle_subject.as_str().unicode_len(), 1);
                object_indentation = sat_add(
                    sat_add(predicate_indentation, turtle_predicate.as_str().unicode_len()),
                    1,
                );
            }
            // write the object
            let turtle_object = match self.node_to_turtle(triple.object(), &TripleSegment::Object)
                {
                Ok(s) => s,
                Err(e) => {
                    return Err(e);
                },
            };
            output_string.append(turtle_object.as_str());
            proof {
                assert(header.is_prefix_of(output_string@)) by {
                    assert(output_string@.subrange(0, header.len() as int) =~= header);
                }
                if gts.len() == 1 {
                    reveal_strlit(" ");
                    assert(output_string@ =~= header + turtle_format_node(
                        self.spec_namespaces(),
                        gts[0].subject,
                    ) + seq![' '] + turtle_format_node(self.spec_namespaces(), gts[0].predicate)
                        + seq![' '] + turtle_format_node(self.spec_namespaces(), gts[0].object));
                }
            }
            i = i + 1;
        }
        if !graph.is_empty() {
            output_string.append(" .");
            proof {
                assert(header.is_prefix_of(output_string@)) by {
                    assert(output_string@.subrange(0, header.len() as int) =~= header);
                }
                reveal_strlit(" .");
                if gts.len() == 1 {
                    assert(output_string@ =~= header + turtle_format_node(
                        self.spec_namespaces(),
                        gts[0].subject,
                    ) + seq![' '] + turtle_format_node(self.spec_namespaces(), gts[0].predicate)
                        + seq![' '] + turtle_format_node(self.spec_namespaces(), gts[0].object)
                        + seq![' ', '.']);
                }
            }
        }
        Ok(output_string)
    }
}

} // verus!
