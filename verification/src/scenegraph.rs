//! The registry mapping object paths to locally registered nodes, and the
//! routing of inbound signal and method frames to their named callbacks.
//!
//! Each registered node carries the names of its local signal and method
//! callbacks.  Routing a frame appends an `Invocation` to the queue; the
//! surrounding runtime drains the queue and runs the matching user callback,
//! so a queued invocation is the one and only delivery of that frame.

use vstd::prelude::*;
use vstd::string::*;

use crate::node::str_eq;

verus! {

/// Routing failures for inbound frames.  One misaddressed frame is reported
/// to the dispatcher and must never take the connection down.
#[derive(Clone, Copy, Debug, PartialEq, Eq, Structural)]
pub enum ScenegraphError {
    /// No live node is registered at the addressed path.
    NodeNotFound,
    /// The node exists but has no callback under that name of the flavor
    /// the frame asked for.
    MethodNotFound,
}

/// Whether some string in `names` reads `m`.
pub open spec fn contains_name(names: Seq<String>, m: Seq<char>) -> bool {
    exists|i: int| 0 <= i < names.len() && (#[trigger] names[i])@ == m
}

/// One registered node: its path and the names of its local callbacks.
pub struct NodeEntry {
    path: String,
    signals: Vec<String>,
    methods: Vec<String>,
}

impl NodeEntry {
    pub closed spec fn spec_path(&self) -> Seq<char> {
        self.path@
    }

    pub closed spec fn has_signal(&self, m: Seq<char>) -> bool {
        contains_name(self.signals@, m)
    }

    pub closed spec fn has_method(&self, m: Seq<char>) -> bool {
        contains_name(self.methods@, m)
    }
}

/// One routed inbound frame, queued for the runtime to run its callback:
/// a signal when `is_method` is false, a method call whose reply the
/// runtime must produce when it is true.
#[derive(Debug)]
pub struct Invocation {
    pub path: String,
    pub method: String,
    pub data: Vec<u8>,
    pub is_method: bool,
}

/// The path-to-node registry of one client.
pub struct Scenegraph {
    entries: Vec<NodeEntry>,
    queue: Vec<Invocation>,
}

impl Scenegraph {
    pub closed spec fn registry(&self) -> Seq<NodeEntry> {
        self.entries@
    }

    /// Invocations routed so far and not yet drained, oldest first.
    pub closed spec fn queued(&self) -> Seq<Invocation> {
        self.queue@
    }

    /// At most one live node per path.
    pub open spec fn wf(&self) -> bool {
        forall|i: int, j: int|
            0 <= i < j < self.registry().len() ==> (#[trigger] self.registry()[i]).spec_path() != (
            #[trigger] self.registry()[j]).spec_path()
    }

    pub open spec fn has_node(&self, p: Seq<char>) -> bool {
        exists|i: int|
            0 <= i < self.registry().len() && (#[trigger] self.registry()[i]).spec_path() == p
    }

    pub open spec fn entry_index(&self, p: Seq<char>) -> int {
        choose|i: int|
            0 <= i < self.registry().len() && (#[trigger] self.registry()[i]).spec_path() == p
    }

    pub open spec fn node_has_signal(&self, p: Seq<char>, m: Seq<char>) -> bool {
        self.has_node(p) && self.registry()[self.entry_index(p)].has_signal(m)
    }

    pub open spec fn node_has_method(&self, p: Seq<char>, m: Seq<char>) -> bool {
        self.has_node(p) && self.registry()[self.entry_index(p)].has_method(m)
    }

    /// Registration state at every path other than `p` reads the same as in
    /// `prev`.
    pub open spec fn same_nodes_except(&self, prev: Scenegraph, p: Seq<char>) -> bool {
        &&& forall|q: Seq<char>|
            q != p ==> ((#[trigger] self.has_node(q)) <==> prev.has_node(q))
        &&& forall|q: Seq<char>, m: Seq<char>|
            q != p ==> ((#[trigger] self.node_has_signal(q, m)) <==> prev.node_has_signal(q, m))
        &&& forall|q: Seq<char>, m: Seq<char>|
            q != p ==> ((#[trigger] self.node_has_method(q, m)) <==> prev.node_has_method(q, m))
    }

    /// The queue grew by exactly the described invocation.
    pub open spec fn delivered_one(
        &self,
        prev: Scenegraph,
        path: Seq<char>,
        method: Seq<char>,
        data: Seq<u8>,
        is_method: bool,
    ) -> bool {
        &&& self.queued().len() == prev.queued().len() + 1
        &&& self.queued().drop_last() == prev.queued()
        &&& self.queued().last().path@ == path
        &&& self.queued().last().method@ == method
        &&& self.queued().last().data@ == data
        &&& self.queued().last().is_method == is_method
    }

    /// A registry equal to a well-formed one is well-formed.
    proof fn lemma_wf_carries(a: &Scenegraph, b: &Scenegraph)
        requires
            a.wf(),
            b.registry() == a.registry(),
        ensures
            b.wf(),
    {
        assert forall|i: int, j: int|
            0 <= i < j < b.registry().len() implies (#[trigger] b.registry()[i]).spec_path() != (
        #[trigger] b.registry()[j]).spec_path() by {
            assert(a.registry()[i].spec_path() != a.registry()[j].spec_path());
        }
    }

    /// The unique index of the entry registered at `q`.
    proof fn lemma_index_unique(&self, q: Seq<char>, k: int)
        requires
            self.wf(),
            0 <= k < self.registry().len(),
            self.registry()[k].spec_path() == q,
        ensures
            self.has_node(q),
            self.entry_index(q) == k,
    {
        assert(self.has_node(q));
        let i = self.entry_index(q);
        assert(0 <= i < self.registry().len() && self.registry()[i].spec_path() == q);
        if i < k {
            assert(self.registry()[i].spec_path() != self.registry()[k].spec_path());
        } else if k < i {
            assert(self.registry()[k].spec_path() != self.registry()[i].spec_path());
        }
    }

    pub fn new() -> (r: Scenegraph)
        ensures
            r.wf(),
            r.registry() == Seq::<NodeEntry>::empty(),
            r.queued() == Seq::<Invocation>::empty(),
            forall|p: Seq<char>| !r.has_node(p),
    {
        Scenegraph { entries: Vec::new(), queue: Vec::new() }
    }

    fn find_entry(&self, path: &str) -> (r: Option<usize>)
        ensures
            match r {
                Some(i) => i < self.registry().len() && self.registry()[
                    i as int
                ].spec_path() == path@,
                None => !self.has_node(path@),
            },
    {
        let n: usize = self.entries.len();
        let mut i: usize = 0;
        while i < n
            invariant
                i <= n,
                n == self.registry().len(),
                forall|j: int| 0 <= j < i ==> (#[trigger] self.registry()[j]).spec_path() != path@,
            decreases n - i,
        {
            let e: &NodeEntry = &self.entries[i];
            if str_eq(e.path.as_str(), path) {
                return Some(i);
            }
            i = i + 1;
        }
        None
    }

    /// Register `node`, replacing any earlier registration at the same path
    /// (the old entry's callbacks are gone with the node they belonged to).
    /// A fresh registration has no callbacks.
    pub fn add_node(&mut self, node: &crate::node::Node)
        requires
            old(self).wf(),
        ensures
            final(self).wf(),
            final(self).queued() == old(self).queued(),
            final(self).has_node(node@),
            forall|m: Seq<char>| !final(self).node_has_signal(node@, m),
            forall|m: Seq<char>| !final(self).node_has_method(node@, m),
            final(self).same_nodes_except(*old(self), node@),
    {
        let fresh = NodeEntry {
            path: String::from_str(node.get_path()),
            signals: Vec::new(),
            methods: Vec::new(),
        };
        let found = self.find_entry(node.get_path());
        match found {
            Some(i) => {
                self.entries[i] = fresh;
                proof {
                    self.lemma_replaced(*old(self), i as int, node@);
                }
            },
            None => {
                self.entries.push(fresh);
                proof {
                    self.lemma_pushed(*old(self), node@);
                }
            },
        }
    }

    /// After `entries[i]` was overwritten by an entry at the same path.
    proof fn lemma_replaced(&self, prev: Scenegraph, i: int, p: Seq<char>)
        requires
            prev.wf(),
            0 <= i < prev.registry().len(),
            prev.registry()[i].spec_path() == p,
            self.registry() == prev.registry().update(i, self.registry()[i]),
            self.registry()[i].spec_path() == p,
        ensures
            self.wf(),
            self.has_node(p),
            self.same_nodes_except(prev, p),
    {
        assert forall|a: int, b: int|
            0 <= a < b < self.registry().len() implies (#[trigger] self.registry()[a]).spec_path()
            != (#[trigger] self.registry()[b]).spec_path() by {
            assert(prev.registry()[a].spec_path() != prev.registry()[b].spec_path());
        }
        assert(self.has_node(p));
        assert forall|q: Seq<char>| q != p implies ((#[trigger] self.has_node(q))
            <==> prev.has_node(q)) by {
            self.lemma_same_entries_at(prev, i, p, q);
        }
        assert forall|q: Seq<char>, m: Seq<char>| q != p implies ((#[trigger] self.node_has_signal(
            q,
            m,
        )) <==> prev.node_has_signal(q, m)) by {
            self.lemma_same_entries_at(prev, i, p, q);
        }
        assert forall|q: Seq<char>, m: Seq<char>| q != p implies ((#[trigger] self.node_has_method(
            q,
            m,
        )) <==> prev.node_has_method(q, m)) by {
            self.lemma_same_entries_at(prev, i, p, q);
        }
    }

    /// Helper for `lemma_replaced`: at any path other than the replaced one,
    /// both registries hold the same entry.
    proof fn lemma_same_entries_at(&self, prev: Scenegraph, i: int, p: Seq<char>, q: Seq<char>)
        requires
            prev.wf(),
            self.wf(),
            0 <= i < prev.registry().len(),
            prev.registry()[i].spec_path() == p,
            self.registry() == prev.registry().update(i, self.registry()[i]),
            self.registry()[i].spec_path() == p,
            q != p,
        ensures
            self.has_node(q) <==> prev.has_node(q),
            self.has_node(q) ==> self.registry()[self.entry_index(q)] == prev.registry()[
                prev.entry_index(q)
            ],
    {
        if self.has_node(q) {
            let k = self.entry_index(q);
            assert(0 <= k < self.registry().len() && self.registry()[k].spec_path() == q);
            assert(k != i);
            assert(prev.registry()[k].spec_path() == q);
            prev.lemma_index_unique(q, k);
        }
        if prev.has_node(q) {
            let k = prev.entry_index(q);
            assert(0 <= k < prev.registry().len() && prev.registry()[k].spec_path() == q);
            assert(k != i);
            assert(self.registry()[k].spec_path() == q);
            self.lemma_index_unique(q, k);
        }
    }

    /// After a fresh entry at a previously unregistered path was pushed.
    proof fn lemma_pushed(&self, prev: Scenegraph, p: Seq<char>)
        requires
            prev.wf(),
            !prev.has_node(p),
            self.registry() == prev.registry().push(self.registry().last()),
            self.registry().last().spec_path() == p,
        ensures
            self.wf(),
            self.has_node(p),
            self.same_nodes_except(prev, p),
    {
        let n = prev.registry().len() as int;
        assert forall|a: int, b: int|
            0 <= a < b < self.registry().len() implies (#[trigger] self.registry()[a]).spec_path()
            != (#[trigger] self.registry()[b]).spec_path() by {
            if b < n {
                assert(prev.registry()[a].spec_path() != prev.registry()[b].spec_path());
            } else {
                assert(prev.registry()[a].spec_path() == self.registry()[a].spec_path());
            }
        }
        assert(self.registry()[n].spec_path() == p);
        assert(self.has_node(p));
        assert forall|q: Seq<char>| q != p implies ((#[trigger] self.has_node(q))
            <==> prev.has_node(q)) by {
            self.lemma_push_entries_at(prev, p, q);
        }
        assert forall|q: Seq<char>, m: Seq<char>| q != p implies ((#[trigger] self.node_has_signal(
            q,
            m,
        )) <==> prev.node_has_signal(q, m)) by {
            self.lemma_push_entries_at(prev, p, q);
        }
        assert forall|q: Seq<char>, m: Seq<char>| q != p implies ((#[trigger] self.node_has_method(
            q,
            m,
        )) <==> prev.node_has_method(q, m)) by {
            self.lemma_push_entries_at(prev, p, q);
        }
    }

    proof fn lemma_push_entries_at(&self, prev: Scenegraph, p: Seq<char>, q: Seq<char>)
        requires
            prev.wf(),
            self.wf(),
            !prev.has_node(p),
            self.registry() == prev.registry().push(self.registry().last()),
            self.registry().last().spec_path() == p,
            q != p,
        ensures
            self.has_node(q) <==> prev.has_node(q),
            self.has_node(q) ==> self.registry()[self.entry_index(q)] == prev.registry()[
                prev.entry_index(q)
            ],
    {
        let n = prev.registry().len() as int;
        if self.has_node(q) {
            let k = self.entry_index(q);
            assert(0 <= k < self.registry().len() && self.registry()[k].spec_path() == q);
            assert(k != n);
            assert(prev.registry()[k].spec_path() == q);
            prev.lemma_index_unique(q, k);
        }
        if prev.has_node(q) {
            let k = prev.entry_index(q);
            assert(0 <= k < prev.registry().len() && prev.registry()[k].spec_path() == q);
            assert(self.registry()[k].spec_path() == q);
            self.lemma_index_unique(q, k);
        }
    }

    /// Remove the registration at `node`'s path, if any: part of node
    /// teardown, so that a later object created at the same path cannot
    /// collide with a stale entry.
    pub fn remove_node(&mut self, node: &crate::node::Node)
        requires
            old(self).wf(),
        ensures
            final(self).wf(),
            final(self).queued() == old(self).queued(),
            !final(self).has_node(node@),
            final(self).same_nodes_except(*old(self), node@),
    {
        let found = self.find_entry(node.get_path());
        match found {
            Some(i) => {
                self.entries.remove(i);
                proof {
                    self.lemma_removed(*old(self), i as int, node@);
                }
            },
            None => {},
        }
    }

    /// After the entry at index `i` (the one registered at `p`) was removed.
    proof fn lemma_removed(&self, prev: Scenegraph, i: int, p: Seq<char>)
        requires
            prev.wf(),
            0 <= i < prev.registry().len(),
            prev.registry()[i].spec_path() == p,
            self.registry() == prev.registry().remove(i),
        ensures
            self.wf(),
            !self.has_node(p),
            self.same_nodes_except(prev, p),
    {
        assert forall|a: int, b: int|
            0 <= a < b < self.registry().len() implies (#[trigger] self.registry()[a]).spec_path()
            != (#[trigger] self.registry()[b]).spec_path() by {
            let pa: int = if a < i { a } else { a + 1 };
            let pb: int = if b < i { b } else { b + 1 };
            assert(prev.registry()[pa].spec_path() != prev.registry()[pb].spec_path());
        }
        assert forall|k: int| 0 <= k < self.registry().len() implies (
        #[trigger] self.registry()[k]).spec_path() != p by {
            let pk: int = if k < i { k } else { k + 1 };
            if pk < i {
                assert(prev.registry()[pk].spec_path() != prev.registry()[i].spec_path());
            } else {
                assert(prev.registry()[i].spec_path() != prev.registry()[pk].spec_path());
            }
        }
        assert forall|q: Seq<char>| q != p implies ((#[trigger] self.has_node(q))
            <==> prev.has_node(q)) by {
            self.lemma_removed_entries_at(prev, i, p, q);
        }
        assert forall|q: Seq<char>, m: Seq<char>| q != p implies ((#[trigger] self.node_has_signal(
            q,
            m,
        )) <==> prev.node_has_signal(q, m)) by {
            self.lemma_removed_entries_at(prev, i, p, q);
        }
        assert forall|q: Seq<char>, m: Seq<char>| q != p implies ((#[trigger] self.node_has_method(
            q,
            m,
        )) <==> prev.node_has_method(q, m)) by {
            self.lemma_removed_entries_at(prev, i, p, q);
        }
    }

    proof fn lemma_removed_entries_at(&self, prev: Scenegraph, i: int, p: Seq<char>, q: Seq<char>)
        requires
            prev.wf(),
            self.wf(),
            0 <= i < prev.registry().len(),
            prev.registry()[i].spec_path() == p,
            self.registry() == prev.registry().remove(i),
            q != p,
        ensures
            self.has_node(q) <==> prev.has_node(q),
            self.has_node(q) ==> self.registry()[self.entry_index(q)] == prev.registry()[
                prev.entry_index(q)
            ],
    {
        if self.has_node(q) {
            let k = self.entry_index(q);
            assert(0 <= k < self.registry().len() && self.registry()[k].spec_path() == q);
            let pk: int = if k < i { k } else { k + 1 };
            assert(prev.registry()[pk].spec_path() == q);
            prev.lemma_index_unique(q, pk);
        }
        if prev.has_node(q) {
            let k = prev.entry_index(q);
            assert(0 <= k < prev.registry().len() && prev.registry()[k].spec_path() == q);
            assert(k != i);
            let sk: int = if k < i { k } else { k - 1 };
            assert(self.registry()[sk].spec_path() == q);
            self.lemma_index_unique(q, sk);
        }
    }

    /// Whether a live node is registered at `path`: the upgrade check on
    /// the registry's non-owning reference.
    pub fn get_node(&self, path: &str) -> (r: bool)
        ensures
            r == self.has_node(path@),
    {
        let found = self.find_entry(path);
        match found {
            Some(i) => {
                proof {
                    assert(self.has_node(path@));
                }
                true
            },
            None => false,
        }
    }

    /// Record a signal callback name on the node registered at `path`.
    /// Returns whether such a node exists.
    pub(crate) fn register_signal(&mut self, path: &str, name: &str) -> (r: bool)
        requires
            old(self).wf(),
        ensures
            final(self).wf(),
            final(self).queued() == old(self).queued(),
            r == old(self).has_node(path@),
            !r ==> *final(self) == *old(self),
            r ==> {
                &&& final(self).node_has_signal(path@, name@)
                &&& final(self).has_node(path@)
                &&& final(self).same_nodes_except(*old(self), path@)
                &&& forall|m: Seq<char>|
                    m != name@ ==> ((#[trigger] final(self).node_has_signal(path@, m))
                        <==> old(self).node_has_signal(path@, m))
                &&& forall|m: Seq<char>|
                    (#[trigger] final(self).node_has_method(path@, m)) <==> old(
                        self,
                    ).node_has_method(path@, m)
            },
    {
        let found = self.find_entry(path);
        match found {
            Some(i) => {
                proof {
                    old(self).lemma_index_unique(path@, i as int);
                }
                let e: &mut NodeEntry = &mut self.entries[i];
                e.signals.push(String::from_str(name));
                proof {
                    self.lemma_callback_added(*old(self), i as int, path@, name@, true);
                }
                true
            },
            None => false,
        }
    }

    /// Record a method callback name on the node registered at `path`.
    pub(crate) fn register_method(&mut self, path: &str, name: &str) -> (r: bool)
        requires
            old(self).wf(),
        ensures
            final(self).wf(),
            final(self).queued() == old(self).queued(),
            r == old(self).has_node(path@),
            !r ==> *final(self) == *old(self),
            r ==> {
                &&& final(self).node_has_method(path@, name@)
                &&& final(self).has_node(path@)
                &&& final(self).same_nodes_except(*old(self), path@)
                &&& forall|m: Seq<char>|
                    m != name@ ==> ((#[trigger] final(self).node_has_method(path@, m))
                        <==> old(self).node_has_method(path@, m))
                &&& forall|m: Seq<char>|
                    (#[trigger] final(self).node_has_signal(path@, m)) <==> old(
                        self,
                    ).node_has_signal(path@, m)
            },
    {
        let found = self.find_entry(path);
        match found {
            Some(i) => {
                proof {
                    old(self).lemma_index_unique(path@, i as int);
                }
                let e: &mut NodeEntry = &mut self.entries[i];
                e.methods.push(String::from_str(name));
                proof {
                    self.lemma_callback_added(*old(self), i as int, path@, name@, false);
                }
                true
            },
            None => false,
        }
    }

    /// After one callback name was appended to the entry at index `i`.
    proof fn lemma_callback_added(
        &self,
        prev: Scenegraph,
        i: int,
        p: Seq<char>,
        name: Seq<char>,
        signal: bool,
    )
        requires
            prev.wf(),
            0 <= i < prev.registry().len(),
            prev.registry()[i].spec_path() == p,
            prev.entry_index(p) == i,
            self.registry() == prev.registry().update(i, self.registry()[i]),
            self.registry()[i].spec_path() == p,
            signal ==> self.registry()[i].signals@ == prev.registry()[i].signals@.push(
                self.registry()[i].signals@.last(),
            ) && self.registry()[i].signals@.last()@ == name && self.registry()[i].methods@
                == prev.registry()[i].methods@,
            !signal ==> self.registry()[i].methods@ == prev.registry()[i].methods@.push(
                self.registry()[i].methods@.last(),
            ) && self.registry()[i].methods@.last()@ == name && self.registry()[i].signals@
                == prev.registry()[i].signals@,
        ensures
            self.wf(),
            self.has_node(p),
            self.entry_index(p) == i,
            signal ==> self.node_has_signal(p, name),
            !signal ==> self.node_has_method(p, name),
            self.same_nodes_except(prev, p),
            signal ==> forall|m: Seq<char>|
                m != name ==> ((#[trigger] self.node_has_signal(p, m)) <==> prev.node_has_signal(
                    p,
                    m,
                )),
            signal ==> forall|m: Seq<char>|
                (#[trigger] self.node_has_method(p, m)) <==> prev.node_has_method(p, m),
            !signal ==> forall|m: Seq<char>|
                m != name ==> ((#[trigger] self.node_has_method(p, m)) <==> prev.node_has_method(
                    p,
                    m,
                )),
            !signal ==> forall|m: Seq<char>|
                (#[trigger] self.node_has_signal(p, m)) <==> prev.node_has_signal(p, m),
    {
        assert forall|a: int, b: int|
            0 <= a < b < self.registry().len() implies (#[trigger] self.registry()[a]).spec_path()
            != (#[trigger] self.registry()[b]).spec_path() by {
            assert(prev.registry()[a].spec_path() != prev.registry()[b].spec_path());
        }
        self.lemma_index_unique(p, i);
        let olds = prev.registry()[i].signals@;
        let news = self.registry()[i].signals@;
        let oldm = prev.registry()[i].methods@;
        let newm = self.registry()[i].methods@;
        if signal {
            assert(contains_name(news, name));
            assert forall|m: Seq<char>| m != name implies (contains_name(news, m)
                <==> contains_name(olds, m)) by {
                Self::lemma_contains_push(olds, news, m);
            }
        } else {
            assert(contains_name(newm, name));
            assert forall|m: Seq<char>| m != name implies (contains_name(newm, m)
                <==> contains_name(oldm, m)) by {
                Self::lemma_contains_push(oldm, newm, m);
            }
        }
        assert forall|q: Seq<char>| q != p implies ((#[trigger] self.has_node(q))
            <==> prev.has_node(q)) by {
            self.lemma_same_entries_at(prev, i, p, q);
        }
        assert forall|q: Seq<char>, m: Seq<char>| q != p implies ((#[trigger] self.node_has_signal(
            q,
            m,
        )) <==> prev.node_has_signal(q, m)) by {
            self.lemma_same_entries_at(prev, i, p, q);
        }
        assert forall|q: Seq<char>, m: Seq<char>| q != p implies ((#[trigger] self.node_has_method(
            q,
            m,
        )) <==> prev.node_has_method(q, m)) by {
            self.lemma_same_entries_at(prev, i, p, q);
        }
    }

    /// Membership in a name list after a push: everything but the new name
    /// is looked up as before.
    proof fn lemma_contains_push(olds: Seq<String>, news: Seq<String>, m: Seq<char>)
        requires
            news == olds.push(news.last()),
            m != news.last()@,
        ensures
            contains_name(news, m) <==> contains_name(olds, m),
    {
        if contains_name(news, m) {
            let k = choose|k: int| 0 <= k < news.len() && news[k]@ == m;
            assert(k < news.len() - 1);
            assert(olds[k]@ == m);
        }
        if contains_name(olds, m) {
            let k = choose|k: int| 0 <= k < olds.len() && olds[k]@ == m;
            assert(news[k]@ == m);
        }
    }

    fn contains_str(names: &Vec<String>, m: &str) -> (r: bool)
        ensures
            r == contains_name(names@, m@),
    {
        let n: usize = names.len();
        let mut i: usize = 0;
        while i < n
            invariant
                i <= n,
                n == names@.len(),
                forall|j: int| 0 <= j < i ==> (#[trigger] names@[j])@ != m@,
            decreases n - i,
        {
            if str_eq(names[i].as_str(), m) {
                return true;
            }
            i = i + 1;
        }
        false
    }

    /// Route an inbound signal frame: look up the node at `path`, check that
    /// it has a signal callback named `method`, and queue the invocation
    /// carrying exactly the payload bytes received.
    pub fn send_signal(&mut self, path: &str, method: &str, data: Vec<u8>) -> (r: Result<
        (),
        ScenegraphError,
    >)
        requires
            old(self).wf(),
        ensures
            final(self).wf(),
            final(self).registry() == old(self).registry(),
            r is Ok <==> old(self).node_has_signal(path@, method@),
            match r {
                Ok(()) => final(self).delivered_one(*old(self), path@, method@, data@, false),
                Err(e) => {
                    &&& final(self).queued() == old(self).queued()
                    &&& (e == ScenegraphError::NodeNotFound <==> !old(self).has_node(path@))
                    &&& (e == ScenegraphError::MethodNotFound <==> old(self).has_node(path@)
                        && !old(self).node_has_signal(path@, method@))
                },
            },
    {
        let found = self.find_entry(path);
        let i = match found {
            Some(i) => i,
            None => {
                return Err(ScenegraphError::NodeNotFound);
            },
        };
        proof {
            self.lemma_index_unique(path@, i as int);
        }
        let e: &NodeEntry = &self.entries[i];
        if !Self::contains_str(&e.signals, method) {
            return Err(ScenegraphError::MethodNotFound);
        }
        self.queue.push(
            Invocation {
                path: String::from_str(path),
                method: String::from_str(method),
                data,
                is_method: false,
            },
        );
        proof {
            assert(self.queue@.drop_last() =~= old(self).queue@);
        }
        Ok(())
    }

    /// Route an inbound method-call frame, method-flavored: the queued
    /// invocation obliges the runtime to produce a reply.
    pub fn execute_method(&mut self, path: &str, method: &str, data: Vec<u8>) -> (r: Result<
        (),
        ScenegraphError,
    >)
        requires
            old(self).wf(),
        ensures
            final(self).wf(),
            final(self).registry() == old(self).registry(),
            r is Ok <==> old(self).node_has_method(path@, method@),
            match r {
                Ok(()) => final(self).delivered_one(*old(self), path@, method@, data@, true),
                Err(e) => {
                    &&& final(self).queued() == old(self).queued()
                    &&& (e == ScenegraphError::NodeNotFound <==> !old(self).has_node(path@))
                    &&& (e == ScenegraphError::MethodNotFound <==> old(self).has_node(path@)
                        && !old(self).node_has_method(path@, method@))
                },
            },
    {
        let found = self.find_entry(path);
        let i = match found {
            Some(i) => i,
            None => {
                return Err(ScenegraphError::NodeNotFound);
            },
        };
        proof {
            self.lemma_index_unique(path@, i as int);
        }
        let e: &NodeEntry = &self.entries[i];
        if !Self::contains_str(&e.methods, method) {
            return Err(ScenegraphError::MethodNotFound);
        }
        self.queue.push(
            Invocation {
                path: String::from_str(path),
                method: String::from_str(method),
                data,
                is_method: true,
            },
        );
        proof {
            assert(self.queue@.drop_last() =~= old(self).queue@);
        }
        Ok(())
    }

    /// Drain the queued invocations, oldest first, for the runtime to run
    /// their callbacks.
    pub fn take_queued(&mut self) -> (r: Vec<Invocation>)
        requires
            old(self).wf(),
        ensures
            final(self).wf(),
            final(self).registry() == old(self).registry(),
            final(self).queued() == Seq::<Invocation>::empty(),
            r@ == old(self).queued(),
    {
        let mut taken: Vec<Invocation> = Vec::new();
        core::mem::swap(&mut taken, &mut self.queue);
        proof {
            Self::lemma_wf_carries(old(self), self);
        }
        taken
    }
}

impl Default for Scenegraph {
    /// An empty registry, as a fresh client starts with.
    fn default() -> (r: Scenegraph)
        ensures
            r.wf(),
            r.registry() == Seq::<NodeEntry>::empty(),
            r.queued() == Seq::<Invocation>::empty(),
    {
        Scenegraph::new()
    }
}

} // verus!
