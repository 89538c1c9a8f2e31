//! Tables keyed by global identities.
//!
//! `IdTable` is a finite map from items to values that can also be walked in
//! the order in which its keys first came. `CrateSet` is a finite set of
//! crates. Both keep their keys in ordered trees, as tuples of integers.

use vstd::prelude::*;
use std::collections::{BTreeMap, BTreeSet};
use crate::defs::{AbsItemId, CrateDisambiguator, ItemId};

verus! {

/// The words of a crate identity.
pub open spec fn crate_key(d: CrateDisambiguator) -> (u64, u64) {
    (d.0, d.1)
}

/// The words of an item's identity.
pub open spec fn item_key(id: AbsItemId) -> (u64, u64, u32) {
    (id.krate.0, id.krate.1, id.index)
}

/// The item that three words name.
pub open spec fn key_item(k: (u64, u64, u32)) -> AbsItemId {
    ItemId { krate: CrateDisambiguator(k.0, k.1), index: k.2 }
}

/// A finite set of crates.
pub struct CrateSet {
    members: BTreeSet<(u64, u64)>,
}

impl View for CrateSet {
    type V = Set<CrateDisambiguator>;

    closed spec fn view(&self) -> Set<CrateDisambiguator> {
        Set::new(|d: CrateDisambiguator| self.members@.contains(crate_key(d)))
    }
}

impl CrateSet {
    pub fn new() -> (s: CrateSet)
        ensures
            s@ == Set::<CrateDisambiguator>::empty(),
    {
        let s = CrateSet { members: BTreeSet::new() };
        assert(s@ =~= Set::<CrateDisambiguator>::empty());
        s
    }

    pub fn insert(&mut self, d: CrateDisambiguator)
        ensures
            final(self)@ == old(self)@.insert(d),
    {
        self.members.insert((d.0, d.1));
        assert(self@ =~= old(self)@.insert(d));
    }

    pub fn contains(&self, d: &CrateDisambiguator) -> (r: bool)
        ensures
            r == self@.contains(*d),
    {
        let key: (u64, u64) = (d.0, d.1);
        self.members.contains(&key)
    }
}

/// A finite map from items to values, with the order in which the keys came.
pub struct IdTable<V> {
    order: Vec<AbsItemId>,
    slots: BTreeMap<(u64, u64, u32), V>,
}

impl<V> View for IdTable<V> {
    type V = Map<AbsItemId, V>;

    closed spec fn view(&self) -> Map<AbsItemId, V> {
        Map::new(
            |id: AbsItemId| self.slots@.contains_key(item_key(id)),
            |id: AbsItemId| self.slots@[item_key(id)],
        )
    }
}

impl<V> IdTable<V> {
    /// The keys are listed once each, and nothing else is listed.
    pub closed spec fn wf(&self) -> bool {
        &&& forall|i: int|
            0 <= i < self.order.len() ==> self.slots@.contains_key(
                item_key(#[trigger] self.order[i]),
            )
        &&& forall|k: (u64, u64, u32)| #[trigger]
            self.slots@.contains_key(k) ==> self.order@.contains(key_item(k))
        &&& self.order@.no_duplicates()
    }

    /// The keys, in the order in which they first came.
    pub closed spec fn ids(&self) -> Seq<AbsItemId> {
        self.order@
    }

    /// The listed keys are the keys of the map, each once.
    pub proof fn lemma_ids_are_keys(&self)
        requires
            self.wf(),
        ensures
            self.ids().no_duplicates(),
            forall|id: AbsItemId| self.ids().contains(id) <==> self@.contains_key(id),
    {
        assert forall|id: AbsItemId| self.ids().contains(id) <==> self@.contains_key(id) by {
            if self@.contains_key(id) {
                assert(key_item(item_key(id)) == id);
            }
        }
    }

    pub fn new() -> (t: IdTable<V>)
        ensures
            t.wf(),
            t@ == Map::<AbsItemId, V>::empty(),
            t.ids() == Seq::<AbsItemId>::empty(),
    {
        let t = IdTable { order: Vec::new(), slots: BTreeMap::new() };
        assert(t@ =~= Map::<AbsItemId, V>::empty());
        t
    }

    /// Puts `value` under `id`; a value that was there before is replaced.
    pub fn insert(&mut self, id: AbsItemId, value: V)
        requires
            old(self).wf(),
        ensures
            final(self).wf(),
            final(self)@ == old(self)@.insert(id, value),
            final(self).ids() == if old(self)@.contains_key(id) {
                old(self).ids()
            } else {
                old(self).ids().push(id)
            },
    {
        let was = self.slots.insert((id.krate.0, id.krate.1, id.index), value);
        proof {
            assert(key_item(item_key(id)) == id);
        }
        if was.is_none() {
            self.order.push(id);
            proof {
                assert forall|k: (u64, u64, u32)| #[trigger]
                    self.slots@.contains_key(k) implies self.order@.contains(key_item(k)) by {
                    if k == item_key(id) {
                        assert(self.order@[old(self).order@.len() as int] == id);
                    } else {
                        let j = choose|j: int|
                            0 <= j < old(self).order@.len() && old(self).order@[j] == key_item(k);
                        assert(self.order@[j] == key_item(k));
                    }
                }
                assert forall|i: int, j: int|
                    0 <= i < self.order@.len() && 0 <= j < self.order@.len() && i
                        != j implies self.order@[i] != self.order@[j] by {
                    if i < old(self).order@.len() && j < old(self).order@.len() {
                        assert(old(self).order@[i] != old(self).order@[j]);
                    }
                }
            }
        }
        assert(self@ =~= old(self)@.insert(id, value));
    }

    /// The value under `id`, if there is one.
    pub fn get(&self, id: &AbsItemId) -> (r: Option<&V>)
        ensures
            r is Some <==> self@.contains_key(*id),
            r matches Some(v) ==> *v == self@[*id],
    {
        let key: (u64, u64, u32) = (id.krate.0, id.krate.1, id.index);
        self.slots.get(&key)
    }

    /// Whether there is a value under `id`.
    pub fn contains(&self, id: &AbsItemId) -> (r: bool)
        ensures
            r == self@.contains_key(*id),
    {
        let key: (u64, u64, u32) = (id.krate.0, id.krate.1, id.index);
        self.slots.contains_key(&key)
    }

    /// The number of keys.
    pub fn len(&self) -> (n: usize)
        ensures
            n == self.ids().len(),
    {
        self.order.len()
    }

    /// The key at place `i` of the order in which the keys came.
    pub fn id_at(&self, i: usize) -> (id: AbsItemId)
        requires
            i < self.ids().len(),
        ensures
            id == self.ids()[i as int],
    {
        self.order[i]
    }

    /// The value of the key at place `i`.
    pub fn value_at(&self, i: usize) -> (v: &V)
        requires
            self.wf(),
            i < self.ids().len(),
        ensures
            self@.contains_key(self.ids()[i as int]),
            *v == self@[self.ids()[i as int]],
    {
        let id = self.order[i];
        let key: (u64, u64, u32) = (id.krate.0, id.krate.1, id.index);
        let found = self.slots.get(&key);
        found.unwrap()
    }
}

} // verus!
