//! An arena with generation-checked keys.
//!
//! A key is the index of a slot and the generation that the slot had when the value was
//! stored. Removing a value raises the generation of its slot, so a key that outlives its
//! value finds nothing, also after the slot has been used again.

use vstd::prelude::*;

verus! {

/// Handle to a value in a [`Slotmap`].
#[derive(Clone, Copy, Debug, PartialEq, Eq, Structural)]
pub struct SlotKey {
    pub index: usize,
    pub generation: u64,
}

/// One slot of an arena: the value that it holds, if any, and its generation.
pub struct Slot<T> {
    pub value: Option<T>,
    pub generation: u64,
}

/// A growable arena of values of type `T`.
pub struct Slotmap<T> {
    slots: Vec<Slot<T>>,
    free: Vec<usize>,
}

impl<T> Slotmap<T> {
    /// The slots, vacant ones included.
    pub closed spec fn slots(&self) -> Seq<Slot<T>> {
        self.slots@
    }

    /// Indices of the vacant slots that the next values go to, last one first.
    pub closed spec fn vacant(&self) -> Seq<usize> {
        self.free@
    }

    /// The key finds a value.
    pub open spec fn contains_key(&self, key: SlotKey) -> bool {
        &&& key.index < self.slots().len()
        &&& self.slots()[key.index as int].generation == key.generation
        &&& self.slots()[key.index as int].value is Some
    }

    /// The value that the key finds.
    pub open spec fn value_of(&self, key: SlotKey) -> T
        recommends
            self.contains_key(key),
    {
        self.slots()[key.index as int].value->0
    }

    /// Every slot on the vacant list is vacant, can be used again, and is listed once.
    pub open spec fn wf(&self) -> bool {
        &&& forall|i: int|
            0 <= i < self.vacant().len() ==> {
                &&& (#[trigger] self.vacant()[i]) < self.slots().len()
                &&& self.slots()[self.vacant()[i] as int].value is None
            }
        &&& forall|i: int, j: int|
            0 <= i < j < self.vacant().len() ==> self.vacant()[i] != self.vacant()[j]
    }

    /// The arena is `before` with `value` stored under `key`: every other key finds what it
    /// found in `before`.
    pub open spec fn stores(&self, before: &Slotmap<T>, key: SlotKey, value: T) -> bool {
        &&& self.contains_key(key)
        &&& self.value_of(key) == value
        &&& forall|other: SlotKey|
            other != key ==> (self.contains_key(other) <==> before.contains_key(other))
        &&& forall|other: SlotKey|
            other != key && before.contains_key(other) ==> self.value_of(other)
                == before.value_of(other)
    }

    /// The two arenas hold values under the same keys, and have the same slots vacant.
    pub open spec fn same_keys(&self, other: &Slotmap<T>) -> bool {
        &&& self.slots().len() == other.slots().len()
        &&& self.vacant() == other.vacant()
        &&& forall|key: SlotKey| self.contains_key(key) <==> other.contains_key(key)
    }

    pub fn with_capacity(capacity: usize) -> (arena: Slotmap<T>)
        ensures
            arena.wf(),
            arena.slots().len() == 0,
            arena.vacant().len() == 0,
    {
        Slotmap { slots: Vec::with_capacity(capacity), free: Vec::new() }
    }

    pub fn new_with_capacity(capacity: usize) -> (arena: Slotmap<T>)
        ensures
            arena.wf(),
            arena.slots().len() == 0,
            arena.vacant().len() == 0,
    {
        Slotmap::with_capacity(capacity)
    }

    /// Stores `value` and returns its key. A vacant slot is used again if there is one,
    /// else the arena grows by one slot.
    pub fn push(&mut self, value: T) -> (key: Option<SlotKey>)
        requires
            old(self).wf(),
        ensures
            final(self).wf(),
            key is Some,
            !old(self).contains_key(key->0),
            final(self).stores(old(self), key->0, value),
            old(self).vacant().len() == 0 ==> {
                &&& key->0.index == old(self).slots().len()
                &&& final(self).slots().len() == old(self).slots().len() + 1
                &&& final(self).vacant().len() == 0
            },
    {
        let ghost before = *self;
        match self.free.pop() {
            Some(index) => {
                assert(before.vacant()[before.vacant().len() - 1] == index);
                let generation: u64 = self.slots[index].generation;
                self.slots[index] = Slot { value: Some(value), generation };
                let key = SlotKey { index, generation };
                assert(self.wf()) by {
                    assert forall|i: int| 0 <= i < self.vacant().len() implies {
                        &&& (#[trigger] self.vacant()[i]) < self.slots().len()
                        &&& self.slots()[self.vacant()[i] as int].value is None
                    } by {
                        assert(self.vacant()[i] == before.vacant()[i]);
                        assert(before.vacant()[i] != before.vacant()[before.vacant().len() - 1]);
                    }
                }
                Some(key)
            },
            None => {
                let index: usize = self.slots.len();
                self.slots.push(Slot { value: Some(value), generation: 0 });
                Some(SlotKey { index, generation: 0 })
            },
        }
    }

    /// Takes the value that the key finds out of the arena. The key, and every copy of it,
    /// finds nothing from then on; the keys of the other values find what they found. The
    /// slot is used again under the next generation; a slot that has run out of generations
    /// is never used again.
    pub fn remove(&mut self, key: SlotKey) -> (removed: Option<T>)
        requires
            old(self).wf(),
        ensures
            final(self).wf(),
            removed is Some <==> old(self).contains_key(key),
            removed matches Some(value) ==> value == old(self).value_of(key),
            !final(self).contains_key(key),
            final(self).slots().len() == old(self).slots().len(),
            forall|other: SlotKey|
                other != key ==> (final(self).contains_key(other) <==> old(self).contains_key(
                    other,
                )),
            forall|other: SlotKey|
                other != key && old(self).contains_key(other) ==> final(self).value_of(other)
                    == old(self).value_of(other),
    {
        if key.index < self.slots.len() && self.slots[key.index].generation == key.generation
            && self.slots[key.index].value.is_some() {
            let ghost before = *self;
            let removed = self.slots[key.index].value.take();
            if key.generation < u64::MAX {
                self.slots[key.index].generation = key.generation + 1;
                self.free.push(key.index);
                assert(self.wf()) by {
                    assert forall|i: int| 0 <= i < self.vacant().len() implies {
                        &&& (#[trigger] self.vacant()[i]) < self.slots().len()
                        &&& self.slots()[self.vacant()[i] as int].value is None
                    } by {
                        if i < before.vacant().len() {
                            assert(self.vacant()[i] == before.vacant()[i]);
                        }
                    }
                    assert forall|i: int, j: int|
                        0 <= i < j < self.vacant().len() implies self.vacant()[i]
                        != self.vacant()[j] by {
                        assert(self.vacant()[i] == before.vacant()[i]);
                        if j < before.vacant().len() {
                            assert(self.vacant()[j] == before.vacant()[j]);
                        } else {
                            assert(before.slots()[before.vacant()[i] as int].value is None);
                        }
                    }
                }
            }
            removed
        } else {
            None
        }
    }

    /// Says whether the arena is well-formed.
    pub fn is_well_formed(&self) -> (ok: bool)
        ensures
            ok == self.wf(),
    {
        let mut listed: Vec<bool> = Vec::with_capacity(self.slots.len());
        let mut n: usize = 0;
        while n < self.slots.len()
            invariant
                n <= self.slots.len(),
                listed.len() == n,
                forall|k: int| 0 <= k < n ==> !listed[k],
            decreases self.slots.len() - n,
        {
            listed.push(false);
            n += 1;
        }
        let mut i: usize = 0;
        while i < self.free.len()
            invariant
                i <= self.free.len(),
                listed.len() == self.slots.len(),
                forall|k: int|
                    0 <= k < i ==> {
                        &&& (#[trigger] self.vacant()[k]) < self.slots().len()
                        &&& self.slots()[self.vacant()[k] as int].value is None
                    },
                forall|a: int, b: int| 0 <= a < b < i ==> self.vacant()[a] != self.vacant()[b],
                forall|slot: int|
                    0 <= slot < listed.len() ==> (listed[slot] <==> exists|k: int|
                        0 <= k < i && self.vacant()[k] == slot),
            decreases self.free.len() - i,
        {
            let index: usize = self.free[i];
            if index >= self.slots.len() || self.slots[index].value.is_some() || listed[index] {
                proof {
                    if index < self.slots.len() && self.slots[index as int].value is None {
                        let k = choose|k: int| 0 <= k < i && self.vacant()[k] == index;
                        assert(self.vacant()[k] == self.vacant()[i as int]);
                    }
                }
                return false;
            }
            let ghost before = listed@;
            listed[index] = true;
            assert forall|slot: int| 0 <= slot < listed.len() implies (listed[slot] <==> exists|
                k: int,
            |
                0 <= k < i + 1 && self.vacant()[k] == slot) by {
                if slot == index {
                    assert(self.vacant()[i as int] == slot);
                } else {
                    if before[slot] {
                        let k = choose|k: int| 0 <= k < i && self.vacant()[k] == slot;
                        assert(0 <= k < i + 1 && self.vacant()[k] == slot);
                    }
                    if exists|k: int| 0 <= k < i + 1 && self.vacant()[k] == slot {
                        let k = choose|k: int| 0 <= k < i + 1 && self.vacant()[k] == slot;
                        assert(k < i);
                    }
                }
            }
            assert forall|a: int, b: int| 0 <= a < b < i + 1 implies self.vacant()[a]
                != self.vacant()[b] by {
                if b == i && self.vacant()[a] == self.vacant()[b] {
                    assert(before[index as int]);
                }
            }
            i += 1;
        }
        true
    }

    /// Number of slots, vacant ones included.
    pub fn slot_count(&self) -> (count: usize)
        ensures
            count == self.slots().len(),
    {
        self.slots.len()
    }

    /// Number of vacant slots that the next values go to.
    pub fn vacant_count(&self) -> (count: usize)
        ensures
            count == self.vacant().len(),
    {
        self.free.len()
    }

    /// The key of the value in the slot `index`, if the slot holds one.
    pub fn key_at(&self, index: usize) -> (key: Option<SlotKey>)
        ensures
            key is Some <==> index < self.slots().len() && self.slots()[index as int].value
                is Some,
            key matches Some(found) ==> found.index == index && self.contains_key(found),
    {
        if index < self.slots.len() && self.slots[index].value.is_some() {
            Some(SlotKey { index, generation: self.slots[index].generation })
        } else {
            None
        }
    }

    pub fn contains(&self, key: &SlotKey) -> (found: bool)
        ensures
            found == self.contains_key(*key),
    {
        key.index < self.slots.len() && self.slots[key.index].generation == key.generation
            && self.slots[key.index].value.is_some()
    }

    pub fn get_value(&self, key: &SlotKey) -> (value: Option<&T>)
        ensures
            value is Some <==> self.contains_key(*key),
            value is Some ==> *value->0 == self.value_of(*key),
    {
        if key.index < self.slots.len() && self.slots[key.index].generation == key.generation {
            self.slots[key.index].value.as_ref()
        } else {
            None
        }
    }

    pub fn get_value_mut(&mut self, key: &SlotKey) -> (value: Option<&mut T>)
        ensures
            value is Some <==> old(self).contains_key(*key),
            value is Some ==> *value->0 == old(self).value_of(*key),
            value is Some ==> final(self).stores(old(self), *key, *final(value->0)),
            value is None ==> final(self).slots() == old(self).slots(),
            final(self).slots().len() == old(self).slots().len(),
            final(self).vacant() == old(self).vacant(),
            old(self).wf() ==> final(self).wf(),
    {
        if key.index < self.slots.len() && self.slots[key.index].generation == key.generation
            && self.slots[key.index].value.is_some() {
            self.slots[key.index].value.as_mut()
        } else {
            None
        }
    }
}

} // verus!
