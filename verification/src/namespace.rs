use vstd::prelude::*;

use crate::error::{Error, ErrorType};
use crate::uri::Uri;

verus! {

/// Representation of a specific namespace: a prefix bound to a URI.
#[derive(Debug)]
pub struct Namespace {
    prefix: String,
    uri: Uri,
}

/// The mathematical value of a namespace binding.
pub struct NamespaceView {
    pub prefix: Seq<char>,
    pub uri: Seq<char>,
}

impl View for Namespace {
    type V = NamespaceView;

    closed spec fn view(&self) -> NamespaceView {
        NamespaceView { prefix: self.prefix@, uri: self.uri@ }
    }
}

impl Namespace {
    /// `Namespace` constructor.
    pub fn new(prefix: String, uri: Uri) -> (r: Namespace)
        ensures
            r@.prefix == prefix@,
            r@.uri == uri@,
    {
        Namespace { prefix, uri }
    }

    /// Returns the prefix of the namespace.
    pub fn prefix(&self) -> (r: &String)
        ensures
            r@ == self@.prefix,
    {
        &self.prefix
    }

    /// Returns the URI of the namespace.
    pub fn uri(&self) -> (r: &Uri)
        ensures
            r@ == self@.uri,
    {
        &self.uri
    }
}

impl Clone for Namespace {
    fn clone(&self) -> (r: Self)
        ensures
            r@ == self@,
    {
        Namespace { prefix: self.prefix.clone(), uri: self.uri.clone() }
    }
}

/// Index of the first binding of the given prefix, or the length of the
/// sequence if the prefix is not bound.
pub open spec fn find_prefix_idx(s: Seq<NamespaceView>, prefix: Seq<char>) -> nat
    decreases s.len(),
{
    if s.len() == 0 {
        0
    } else if s[0].prefix == prefix {
        0
    } else {
        1 + find_prefix_idx(s.skip(1), prefix)
    }
}

pub proof fn lemma_find_prefix_idx(s: Seq<NamespaceView>, prefix: Seq<char>)
    ensures
        find_prefix_idx(s, prefix) <= s.len(),
        forall|i: int| 0 <= i < find_prefix_idx(s, prefix) ==> (#[trigger] s[i]).prefix != prefix,
        find_prefix_idx(s, prefix) < s.len() ==> s[find_prefix_idx(s, prefix) as int].prefix
            == prefix,
    decreases s.len(),
{
    if s.len() == 0 {
    } else if s[0].prefix == prefix {
    } else {
        lemma_find_prefix_idx(s.skip(1), prefix);
        assert forall|i: int| 0 <= i < find_prefix_idx(s, prefix) implies (#[trigger] s[i]).prefix
            != prefix by {
            if i > 0 {
                assert(s[i] == s.skip(1)[i - 1]);
            }
        }
        if find_prefix_idx(s, prefix) < s.len() {
            assert(s[find_prefix_idx(s, prefix) as int] == s.skip(1)[find_prefix_idx(
                s.skip(1),
                prefix,
            ) as int]);
        }
    }
}

/// Storage for multiple namespaces, in insertion order; adding a bound
/// prefix again overwrites its URI in place.
#[derive(Debug)]
pub struct NamespaceStore {
    namespaces: Vec<Namespace>,
}

impl View for NamespaceStore {
    type V = Seq<NamespaceView>;

    closed spec fn view(&self) -> Seq<NamespaceView> {
        self.namespaces@.map_values(|ns: Namespace| ns@)
    }
}

impl NamespaceStore {
    /// Constructor for `NamespaceStore`.
    pub fn new() -> (r: NamespaceStore)
        ensures
            r@ == Seq::<NamespaceView>::empty(),
    {
        let r = NamespaceStore { namespaces: Vec::new() };
        proof {
            assert(r@ =~= Seq::<NamespaceView>::empty());
        }
        r
    }

    /// Returns the number of stored namespaces.
    pub fn len(&self) -> (r: usize)
        ensures
            r == self@.len(),
    {
        self.namespaces.len()
    }

    /// Returns the stored namespaces with prefixes, in insertion order.
    pub fn namespaces(&self) -> (r: &Vec<Namespace>)
        ensures
            r@.map_values(|ns: Namespace| ns@) == self@,
    {
        &self.namespaces
    }

    /// Adds a new namespace; a prefix that is already bound gets the new
    /// URI in place.
    #[verifier::loop_isolation(false)]
    pub fn add(&mut self, ns: &Namespace)
        ensures
            ({
                let i = find_prefix_idx(old(self)@, ns@.prefix);
                if i < old(self)@.len() {
                    final(self)@ == old(self)@.update(i as int, ns@)
                } else {
                    final(self)@ == old(self)@.push(ns@)
                }
            }),
    {
        let ghost s = self@;
        let ghost idx = find_prefix_idx(s, ns@.prefix);
        proof {
            lemma_find_prefix_idx(s, ns@.prefix);
        }
        let mut i: usize = 0;
        while i < self.namespaces.len()
            invariant
                s == self@,
                self@.len() == self.namespaces@.len(),
                i <= self.namespaces@.len(),
                idx == find_prefix_idx(s, ns@.prefix),
                i <= idx,
                forall|q: int| 0 <= q < idx ==> (#[trigger] s[q]).prefix != ns@.prefix,
                idx < s.len() ==> s[idx as int].prefix == ns@.prefix,
                idx <= s.len(),
            decreases self.namespaces@.len() - i,
        {
            proof {
                assert(s[i as int] == self.namespaces@[i as int]@);
            }
            if *self.namespaces[i].prefix() == *ns.prefix() {
                proof {
                    assert(s[i as int].prefix == ns@.prefix);
                    assert(i == idx);
                }
                let replacement = ns.clone();
                self.namespaces.set(i, replacement);
                proof {
                    assert(self@ =~= s.update(idx as int, ns@));
                }
                return ;
            }
            proof {
                assert(s[i as int].prefix != ns@.prefix);
                assert(i < idx) by {
                    if i >= idx {
                        assert(i == idx);
                        assert(idx < s.len());
                    }
                }
            }
            i = i + 1;
        }
        proof {
            assert(idx == s.len());
        }
        self.namespaces.push(ns.clone());
        proof {
            assert(self@ =~= s.push(ns@));
        }
    }

    /// Returns the URI bound to the given prefix; fails with a namespace
    /// error when the prefix is not bound.
    #[verifier::loop_isolation(false)]
    pub fn get_uri_by_prefix(&self, prefix: &str) -> (r: Result<&Uri, Error>)
        ensures
            ({
                let i = find_prefix_idx(self@, prefix@);
                if i < self@.len() {
                    r is Ok && r->Ok_0@ == self@[i as int].uri
                } else {
                    r is Err && r->Err_0.kind() is InvalidNamespace
                }
            }),
    {
        let ghost s = self@;
        let ghost idx = find_prefix_idx(s, prefix@);
        proof {
            lemma_find_prefix_idx(s, prefix@);
        }
        let wanted = prefix.to_owned();
        let mut i: usize = 0;
        while i < self.namespaces.len()
            invariant
                s == self@,
                self@.len() == self.namespaces@.len(),
                i <= self.namespaces@.len(),
                idx == find_prefix_idx(s, prefix@),
                i <= idx,
                forall|q: int| 0 <= q < idx ==> (#[trigger] s[q]).prefix != prefix@,
                idx < s.len() ==> s[idx as int].prefix == prefix@,
                idx <= s.len(),
            decreases self.namespaces@.len() - i,
        {
            proof {
                assert(s[i as int] == self.namespaces@[i as int]@);
            }
            if *self.namespaces[i].prefix() == wanted {
                proof {
                    assert(i == idx);
                }
                return Ok(self.namespaces[i].uri());
            }
            proof {
                assert(i < idx) by {
                    if i >= idx {
                        assert(i == idx);
                        assert(idx < s.len());
                    }
                }
            }
            i = i + 1;
        }
        Err(
            Error::new(
                ErrorType::InvalidNamespace,
                "Namespace does not exist for the prefix.",
            ),
        )
    }
}

} // verus!
