//! A per-client table, keyed by [`ClientIp`].
//!
//! Backed by a vector of key/value pairs with distinct keys; its view
//! is the `Map` those pairs describe.  The admission components each
//! keep their own independent instance, so state for one client never
//! aliases state for another.

use vstd::prelude::*;

use crate::assoc::{assoc_map, distinct_keys, lemma_assoc_map_dom, lemma_assoc_map_index,
    lemma_assoc_map_push, lemma_assoc_map_remove_at};
use crate::client::ClientIp;

verus! {

/// A map from client addresses to `V`, stored as an association list.
pub struct ClientMap<V> {
    entries: Vec<(ClientIp, V)>,
}

impl<V> View for ClientMap<V> {
    type V = Map<ClientIp, V>;

    open spec fn view(&self) -> Map<ClientIp, V> {
        assoc_map(self.kvs())
    }
}

impl<V> ClientMap<V> {
    /// The underlying key/value pairs, in insertion order.
    pub closed spec fn kvs(self) -> Seq<(ClientIp, V)> {
        self.entries@
    }

    /// Each client has at most one entry.
    pub open spec fn wf(self) -> bool {
        distinct_keys(self.kvs())
    }

    /// An empty table.
    pub fn new() -> (r: Self)
        ensures
            r.wf(),
            r@ == Map::<ClientIp, V>::empty(),
            r.kvs().len() == 0,
    {
        ClientMap { entries: Vec::new() }
    }

    /// Number of clients with an entry.
    pub fn len(&self) -> (r: usize)
        ensures
            r == self.kvs().len(),
    {
        self.entries.len()
    }

    /// The key of the entry at position `i`.
    pub fn key_at(&self, i: usize) -> (k: ClientIp)
        requires
            i < self.kvs().len(),
        ensures
            k == self.kvs()[i as int].0,
            self.wf() ==> self@.dom().contains(k) && self@[k] == self.kvs()[i as int].1,
    {
        proof {
            if self.wf() {
                lemma_assoc_map_index(self.kvs(), i as int);
            }
        }
        self.entries[i].0
    }

    /// The value of the entry at position `i`.
    pub fn val_at(&self, i: usize) -> (v: &V)
        requires
            i < self.kvs().len(),
        ensures
            *v == self.kvs()[i as int].1,
    {
        &self.entries[i].1
    }

    /// Look up the entry for `k`, if any.
    pub fn get(&self, k: &ClientIp) -> (r: Option<&V>)
        requires
            self.wf(),
        ensures
            match r {
                Some(v) => self@.dom().contains(*k) && *v == self@[*k],
                None => !self@.dom().contains(*k),
            },
    {
        let n = self.entries.len();
        let mut i: usize = 0;
        while i < n
            invariant
                n == self.kvs().len(),
                0 <= i <= n,
                self.wf(),
                forall|j: int| 0 <= j < i ==> self.kvs()[j].0 != *k,
            decreases n - i,
        {
            if self.entries[i].0 == *k {
                proof {
                    lemma_assoc_map_index(self.kvs(), i as int);
                }
                return Some(&self.entries[i].1);
            }
            i = i + 1;
        }
        proof {
            lemma_assoc_map_dom(self.kvs(), *k);
        }
        None
    }

    /// Bind `k` to `v`, replacing any previous binding.
    pub fn insert(&mut self, k: ClientIp, v: V)
        requires
            old(self).wf(),
        ensures
            final(self).wf(),
            final(self)@ == old(self)@.insert(k, v),
    {
        let ghost s0 = self.kvs();
        let n = self.entries.len();
        let mut i: usize = 0;
        while i < n
            invariant
                self.kvs() == s0,
                old(self).kvs() == s0,
                n == s0.len(),
                0 <= i <= n,
                distinct_keys(s0),
                forall|j: int| 0 <= j < i ==> s0[j].0 != k,
            decreases n - i,
        {
            if self.entries[i].0 == k {
                proof {
                    lemma_assoc_map_remove_at(s0, i as int);
                    lemma_assoc_map_push(s0.remove(i as int), k, v);
                    assert(assoc_map(s0).remove(k).insert(k, v) =~= assoc_map(s0).insert(k, v));
                }
                self.entries.remove(i);
                self.entries.push((k, v));
                proof {
                    let t = s0.remove(i as int);
                    assert forall|a: int, b: int|
                        0 <= a < b < t.push((k, v)).len() implies t.push((k, v))[a].0 != t.push(
                        (k, v),
                    )[b].0 by {
                        lemma_assoc_map_dom(t, k);
                        if b < t.len() {
                        } else {
                            assert(t.push((k, v))[b] == (k, v));
                        }
                    }
                }
                return ;
            }
            i = i + 1;
        }
        proof {
            lemma_assoc_map_push(s0, k, v);
            assert forall|a: int, b: int|
                0 <= a < b < s0.push((k, v)).len() implies s0.push((k, v))[a].0 != s0.push(
                (k, v),
            )[b].0 by {
                if b < s0.len() {
                } else {
                    assert(s0.push((k, v))[b] == (k, v));
                }
            }
        }
        self.entries.push((k, v));
    }

    /// Remove and return the binding for `k`, if any.
    pub fn remove(&mut self, k: &ClientIp) -> (r: Option<V>)
        requires
            old(self).wf(),
        ensures
            final(self).wf(),
            final(self)@ == old(self)@.remove(*k),
            match r {
                Some(v) => old(self)@.dom().contains(*k) && v == old(self)@[*k],
                None => !old(self)@.dom().contains(*k),
            },
    {
        let ghost s0 = self.kvs();
        let n = self.entries.len();
        let mut i: usize = 0;
        while i < n
            invariant
                self.kvs() == s0,
                old(self).kvs() == s0,
                n == s0.len(),
                0 <= i <= n,
                distinct_keys(s0),
                forall|j: int| 0 <= j < i ==> s0[j].0 != *k,
            decreases n - i,
        {
            if self.entries[i].0 == *k {
                proof {
                    lemma_assoc_map_index(s0, i as int);
                    lemma_assoc_map_remove_at(s0, i as int);
                }
                let (_, v) = self.entries.remove(i);
                return Some(v);
            }
            i = i + 1;
        }
        proof {
            lemma_assoc_map_dom(s0, *k);
            assert(assoc_map(s0).remove(*k) =~= assoc_map(s0));
        }
        None
    }
}

} // verus!
