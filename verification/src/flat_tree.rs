//! A 'flat' tree: an ordered map of nodes together with the set of keys that
//! are roots.
use crate::Id;
use std::collections::{BTreeMap, BTreeSet};
use vstd::prelude::*;
use vstd::std_specs::cmp::OrdSpec;
use vstd::std_specs::iter::IteratorSpec;

verus! {

/// An ordered map of nodes and the ordered set of its root keys.
///
/// Every root is a key of the node map ([`FlatTree::wf`]): an empty tree has
/// it so, and every method keeps it so. The methods are those of a tree
/// that is keyed by [`Id`].
pub struct FlatTree<K, V> {
    nodes: BTreeMap<K, V>,
    roots: BTreeSet<K>,
}

impl<K, V> FlatTree<K, V> {
    /// The nodes, by key.
    pub closed spec fn node_map(&self) -> Map<K, V> {
        self.nodes@
    }

    /// The keys that are roots.
    pub closed spec fn root_set(&self) -> Set<K> {
        self.roots@
    }

    /// Every root is a node.
    pub open spec fn wf(&self) -> bool {
        self.root_set().subset_of(self.node_map().dom())
    }
}

impl<V> Default for FlatTree<Id, V> {
    /// An empty tree.
    fn default() -> (t: Self)
        ensures
            t.node_map() == Map::<Id, V>::empty(),
            t.root_set() == Set::<Id>::empty(),
            t.wf(),
    {
        FlatTree { nodes: BTreeMap::new(), roots: BTreeSet::new() }
    }
}

impl<V> FlatTree<Id, V> {
    /// Get a node's value using the key.
    pub fn get(&self, k: &Id) -> (r: Option<&V>)
        ensures
            match r {
                Some(v) => self.node_map().contains_key(*k) && *v == self.node_map()[*k],
                None => !self.node_map().contains_key(*k),
            },
    {
        self.nodes.get(k)
    }

    /// Insert a node that is no root, or replace the value of an existing node.
    pub fn insert(&mut self, k: Id, v: V) -> (r: Option<V>)
        ensures
            final(self).node_map() == old(self).node_map().insert(k, v),
            final(self).root_set() == old(self).root_set(),
            r == (if old(self).node_map().contains_key(k) {
                Some(old(self).node_map()[k])
            } else {
                None
            }),
            old(self).wf() ==> final(self).wf(),
    {
        self.nodes.insert(k, v)
    }

    /// Does the structure contain a node with the key.
    pub fn contains_node(&self, k: &Id) -> (r: bool)
        ensures
            r == self.node_map().contains_key(*k),
    {
        self.nodes.contains_key(k)
    }

    /// Check if a key is a root node.
    pub fn is_root(&self, k: &Id) -> (r: bool)
        ensures
            r == self.root_set().contains(*k),
    {
        self.roots.contains(k)
    }
    /// Get a node's value (mutable reference) using the key.
    pub fn get_mut(&mut self, k: &Id) -> (r: Option<&mut V>)
        ensures
            final(self).root_set() == old(self).root_set(),
            match r {
                Some(v) => {
                    &&& old(self).node_map().contains_key(*k)
                    &&& *v == old(self).node_map()[*k]
                    &&& final(self).node_map() == old(self).node_map().insert(*k, *final(v))
                },
                None => {
                    &&& !old(self).node_map().contains_key(*k)
                    &&& final(self).node_map() == old(self).node_map()
                },
            },
    {
        map_get_mut(&mut self.nodes, k)
    }

    /// Insert a root node, or replace the value of an existing node and make
    /// it a root.
    pub fn insert_root(&mut self, k: Id, v: V) -> (r: Option<V>)
        ensures
            final(self).node_map() == old(self).node_map().insert(k, v),
            final(self).root_set() == old(self).root_set().insert(k),
            r == (if old(self).node_map().contains_key(k) {
                Some(old(self).node_map()[k])
            } else {
                None
            }),
            old(self).wf() ==> final(self).wf(),
    {
        let x = self.insert(k, v);
        self.roots.insert(k);
        x
    }

    /// Remove a node with the key, from the nodes and from the roots.
    pub fn remove(&mut self, k: &Id) -> (r: Option<V>)
        ensures
            final(self).node_map() == old(self).node_map().remove(*k),
            final(self).root_set() == old(self).root_set().remove(*k),
            r == (if old(self).node_map().contains_key(*k) {
                Some(old(self).node_map()[*k])
            } else {
                None
            }),
            old(self).wf() ==> final(self).wf(),
    {
        let x = self.nodes.remove(k);
        self.roots.remove(k);
        x
    }
    /// The roots that are nodes, each with its value, in ascending key order.
    pub fn roots(&self) -> (r: Vec<(Id, &V)>)
        ensures
            forall|i: int|
                0 <= i < r@.len() ==> {
                    &&& self.root_set().contains(#[trigger] r@[i].0)
                    &&& self.node_map().contains_key(r@[i].0)
                    &&& *r@[i].1 == self.node_map()[r@[i].0]
                },
            forall|i: int, j: int| 0 <= i < j < r@.len() ==> r@[i].0 < r@[j].0,
            forall|k: Id|
                self.root_set().contains(k) && self.node_map().contains_key(k) ==> exists|i: int|
                    0 <= i < r@.len() && #[trigger] r@[i].0 == k,
    {
        let mut out: Vec<(Id, &V)> = Vec::new();
        let ghost keys: Seq<&Id> = self.roots.iter().remaining();
        let ghost mut seen: int = 0;
        proof {
            broadcast use vstd::std_specs::btree::group_btree_axioms;

            lemma_increasing_keys(keys);
        }
        for k in it: self.roots.iter()
            invariant
                it.seq() == keys,
                it.index() == seen,
                keys.unref().to_set() == self.root_set(),
                forall|a: int, b: int| 0 <= a < b < keys.len() ==> *keys[a] < *keys[b],
                forall|i: int|
                    0 <= i < out@.len() ==> {
                        &&& self.root_set().contains(#[trigger] out@[i].0)
                        &&& self.node_map().contains_key(out@[i].0)
                        &&& *out@[i].1 == self.node_map()[out@[i].0]
                    },
                forall|i: int, j: int| 0 <= i < j < out@.len() ==> out@[i].0 < out@[j].0,
                forall|i: int, j: int|
                    0 <= i < out@.len() && seen <= j < keys.len() ==> (#[trigger] out@[i]).0
                        < *#[trigger] keys[j],
                forall|j: int|
                    0 <= j < seen && self.node_map().contains_key(*#[trigger] keys[j]) ==> exists|
                        i: int,
                    | 0 <= i < out@.len() && #[trigger] out@[i].0 == *keys[j],
        {
            let ghost before = out@;
            match self.nodes.get(k) {
                Some(v) => {
                    out.push((*k, v));
                },
                None => {},
            }
            proof {
                assert forall|j: int|
                    0 <= j < seen + 1 && self.node_map().contains_key(
                        *#[trigger] keys[j],
                    ) implies exists|i: int| 0 <= i < out@.len() && #[trigger] out@[i].0 == *keys[j] by {
                    if j < seen {
                        let i = choose|i: int| 0 <= i < before.len() && #[trigger] before[i].0 == *keys[j];
                        assert(out@[i].0 == *keys[j]);
                    } else {
                        assert(out@[out@.len() - 1].0 == *keys[j]);
                    }
                }
                seen = seen + 1;
            }
        }
        proof {
            assert forall|k: Id|
                self.root_set().contains(k) && self.node_map().contains_key(k) implies exists|i: int|
                0 <= i < out@.len() && #[trigger] out@[i].0 == k by {
                let j = choose|j: int| 0 <= j < keys.unref().len() && keys.unref()[j] == k;
                assert(*keys[j] == k);
            }
        }
        out
    }
}

/// A strictly increasing sequence of keys, by `<`.
proof fn lemma_increasing_keys(s: Seq<&Id>)
    requires
        vstd::std_specs::btree::increasing_seq(s),
    ensures
        forall|a: int, b: int| 0 <= a < b < s.len() ==> *s[a] < *s[b],
{
    broadcast use vstd::std_specs::btree::group_btree_axioms;
    broadcast use vstd::laws_cmp::group_laws_cmp;

    assert forall|a: int, b: int| 0 <= a < b < s.len() implies *s[a] < *s[b] by {
        assert(OrdSpec::cmp_spec(&s[a], &s[b]) is Less);
    }
}

/// `BTreeMap::get_mut`: a mutable reference to the value under the key, if
/// the map holds the key. Through the reference only that value can change;
/// without one the map stays as it was.
#[verifier::external_body]
fn map_get_mut<'a, V>(m: &'a mut BTreeMap<Id, V>, k: &Id) -> (r: Option<&'a mut V>)
    ensures
        match r {
            Some(v) => {
                &&& old(m)@.contains_key(*k)
                &&& *v == old(m)@[*k]
                &&& final(m)@ == old(m)@.insert(*k, *final(v))
            },
            None => !old(m)@.contains_key(*k) && final(m)@ == old(m)@,
        },
{
    m.get_mut(k)
}

} // verus!
