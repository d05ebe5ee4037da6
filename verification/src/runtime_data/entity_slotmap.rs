//! An arena of entities, each found by its slot key and by its identifier.

use std::collections::HashMap;
use vstd::prelude::*;
use crate::slotmap::SlotKey;
use crate::slotmap::Slotmap;

verus! {

/// Identifier of an entity: the 128 bits of a UUID.
#[derive(Clone, Copy, Debug, PartialEq, Eq, Structural)]
pub struct EntityId {
    pub value: u128,
}

/// An entity in its slot: its identifier and its data.
pub struct EntitySlot<T> {
    pub entity_id: EntityId,
    pub data: T,
}

/// An arena of entities. No two entities have the same identifier.
pub struct EntitySlotmap<T> {
    slotmap: Slotmap<EntitySlot<T>>,
    entity_map: HashMap<u128, SlotKey>,
}

impl<T> EntitySlotmap<T> {
    /// The slots of the entities.
    pub closed spec fn arena(&self) -> Slotmap<EntitySlot<T>> {
        self.slotmap
    }

    /// The slot key of each entity, by the identifier of the entity.
    pub closed spec fn index(&self) -> Map<u128, SlotKey> {
        self.entity_map@
    }

    /// Every identifier leads to the slot of the entity that has it.
    pub open spec fn wf(&self) -> bool {
        &&& self.arena().wf()
        &&& forall|id: u128| #[trigger]
            self.index().contains_key(id) ==> {
                &&& self.arena().contains_key(self.index()[id])
                &&& self.arena().value_of(self.index()[id]).entity_id.value == id
            }
    }

    /// There is an entity with the identifier `id`.
    pub open spec fn has(&self, id: EntityId) -> bool {
        self.index().contains_key(id.value)
    }

    /// The data of the entity with the identifier `id`.
    pub open spec fn data_of(&self, id: EntityId) -> T
        recommends
            self.has(id),
    {
        self.arena().value_of(self.index()[id.value]).data
    }

    pub fn new(capacity: usize) -> (entities: EntitySlotmap<T>)
        ensures
            entities.wf(),
            forall|id: EntityId| !entities.has(id),
    {
        EntitySlotmap {
            slotmap: Slotmap::with_capacity(capacity),
            entity_map: HashMap::with_capacity(capacity),
        }
    }

    /// Stores the entity `data` under the identifier `entity_id` and returns its slot
    /// key. Fails, and stores nothing, if there is an entity with that identifier.
    pub fn push(&mut self, data: T, entity_id: EntityId) -> (stored: Result<SlotKey, ()>)
        requires
            old(self).wf(),
        ensures
            final(self).wf(),
            stored is Ok <==> !old(self).has(entity_id),
            stored is Err ==> final(self).index() == old(self).index() && final(self).arena()
                == old(self).arena(),
            stored matches Ok(key) ==> {
                &&& final(self).index() == old(self).index().insert(entity_id.value, key)
                &&& final(self).data_of(entity_id) == data
                &&& forall|other: EntityId|
                    old(self).has(other) ==> final(self).data_of(other) == old(self).data_of(
                        other,
                    )
            },
    {
        if !self.entity_map.contains_key(&entity_id.value) {
            match self.slotmap.push(EntitySlot { entity_id, data }) {
                Some(slot) => {
                    self.entity_map.insert(entity_id.value, slot);
                    proof {
                        assert forall|id: u128| #[trigger] self.index().contains_key(id) implies {
                            &&& self.arena().contains_key(self.index()[id])
                            &&& self.arena().value_of(self.index()[id]).entity_id.value == id
                        } by {
                            if id != entity_id.value {
                                assert(old(self).index().contains_key(id));
                            }
                        }
                    }
                    Ok(slot)
                },
                None => Err(()),
            }
        } else {
            Err(())
        }
    }

    /// Number of slots of the arena, vacant ones included.
    pub fn slot_count(&self) -> (count: usize)
        ensures
            count == self.arena().slots().len(),
    {
        self.slotmap.slot_count()
    }

    /// The entity in the slot `index`, if the slot holds one: its identifier and its
    /// data. With `slot_count` this goes through all entities.
    pub fn entity_at(&self, index: usize) -> (entity: Option<(EntityId, &T)>)
        ensures
            entity is Some <==> index < self.arena().slots().len() && self.arena().slots()[index as int].value
                is Some,
            entity matches Some((id, data)) ==> {
                &&& self.arena().slots()[index as int].value->0.entity_id == id
                &&& self.arena().slots()[index as int].value->0.data == *data
            },
    {
        match self.slotmap.key_at(index) {
            Some(key) => match self.slotmap.get_value(&key) {
                Some(entity_slot) => Some((entity_slot.entity_id, &entity_slot.data)),
                None => None,
            },
            None => None,
        }
    }

    /// Calls `callback` for every entity, in the order of the slots, with the identifier of
    /// the entity and its data, which the callback may change. Every entity is left as one
    /// call of the callback for it leaves it.
    pub fn iter_mut_callback<F: Fn(EntityId, &mut T)>(&mut self, callback: &F)
        requires
            old(self).wf(),
            forall|id: EntityId, data: &mut T| call_requires(callback, (id, data)),
        ensures
            final(self).wf(),
            final(self).index() == old(self).index(),
            forall|id: EntityId| #[trigger]
                old(self).has(id) ==> exists|data: &mut T|
                    {
                        &&& *data == old(self).data_of(id)
                        &&& *final(data) == final(self).data_of(id)
                        &&& #[trigger] call_ensures(callback, (id, data), ())
                    },
    {
        let mut index: usize = 0;
        while index < self.slotmap.slot_count()
            invariant
                self.wf(),
                old(self).wf(),
                self.index() == old(self).index(),
                self.arena().slots().len() == old(self).arena().slots().len(),
                forall|id: EntityId, data: &mut T| call_requires(callback, (id, data)),
                forall|id: EntityId| #[trigger]
                    old(self).has(id) && self.index()[id.value].index < index ==> exists|
                        data: &mut T,
                    |
                        {
                            &&& *data == old(self).data_of(id)
                            &&& *final(data) == self.data_of(id)
                            &&& #[trigger] call_ensures(callback, (id, data), ())
                        },
                forall|id: EntityId| #[trigger]
                    old(self).has(id) && self.index()[id.value].index >= index ==> self.data_of(
                        id,
                    ) == old(self).data_of(id),
            decreases self.arena().slots().len() - index,
        {
            let ghost before = *self;
            if let Some(key) = self.slotmap.key_at(index) {
                if let Some(entity_slot) = self.slotmap.get_value_mut(&key) {
                    let id = entity_slot.entity_id;
                    let data = &mut entity_slot.data;
                    let ghost found = *data;
                    callback(id, data);
                    assert(exists|handed: &mut T|
                        {
                            &&& *handed == found
                            &&& *final(handed) == *data
                            &&& #[trigger] call_ensures(callback, (id, handed), ())
                        });
                }
            }
            proof {
                assert forall|id: EntityId| #[trigger]
                    old(self).has(id) && self.index()[id.value].index >= index
                        + 1 implies self.data_of(id) == old(self).data_of(id) by {
                    assert(before.has(id));
                    assert(before.arena().contains_key(before.index()[id.value]));
                }
                assert forall|id: EntityId| #[trigger]
                    old(self).has(id) && self.index()[id.value].index < index + 1 implies exists|
                    data: &mut T,
                |
                    {
                        &&& *data == old(self).data_of(id)
                        &&& *final(data) == self.data_of(id)
                        &&& #[trigger] call_ensures(callback, (id, data), ())
                    } by {
                    assert(before.has(id));
                    let slot = before.index()[id.value];
                    assert(before.arena().contains_key(slot));
                    assert(before.arena().value_of(slot).entity_id.value == id.value);
                }
            }
            index += 1;
        }
    }

    /// Says whether there is an entity with the identifier `entity_id`.
    pub fn contains_entity(&self, entity_id: &EntityId) -> (found: bool)
        ensures
            found == self.has(*entity_id),
    {
        self.entity_map.contains_key(&entity_id.value)
    }

    /// The data of the entity with the identifier `entity_id`, if there is one.
    pub fn get_entity(&self, entity_id: &EntityId) -> (data: Option<&T>)
        requires
            self.wf(),
        ensures
            data is Some <==> self.has(*entity_id),
            data matches Some(found) ==> *found == self.data_of(*entity_id),
    {
        match self.entity_map.get(&entity_id.value) {
            Some(slot) => match self.slotmap.get_value(slot) {
                Some(entity_slot) => Some(&entity_slot.data),
                None => None,
            },
            None => None,
        }
    }

    /// The data of the entity with the identifier `entity_id`, to be changed in place, if
    /// there is one.
    #[verifier::spinoff_prover]
    pub fn get_mut_entity(&mut self, entity_id: &EntityId) -> (data: Option<&mut T>)
        requires
            old(self).wf(),
        ensures
            data is Some <==> old(self).has(*entity_id),
            data matches Some(found) ==> *found == old(self).data_of(*entity_id)
                && final(self).data_of(*entity_id) == *final(found),
            final(self).index() == old(self).index(),
            final(self).wf(),
            forall|other: EntityId|
                old(self).has(other) && other != *entity_id ==> final(self).data_of(other)
                    == old(self).data_of(other),
    {
        match self.entity_map.get(&entity_id.value) {
            Some(slot) => {
                let slot = *slot;
                match self.slotmap.get_value_mut(&slot) {
                    Some(entity_slot) => Some(&mut entity_slot.data),
                    None => None,
                }
            },
            None => None,
        }
    }

    /// Takes the entity with the identifier `entity_id` out of the arena, if there is
    /// one.
    pub fn remove_entity(&mut self, entity_id: &EntityId)
        requires
            old(self).wf(),
        ensures
            final(self).wf(),
            final(self).index() == old(self).index().remove(entity_id.value),
            forall|other: EntityId|
                old(self).has(other) && other != *entity_id ==> final(self).data_of(other)
                    == old(self).data_of(other),
    {
        if self.entity_map.contains_key(&entity_id.value) {
            match self.entity_map.remove(&entity_id.value) {
                Some(slot) => {
                    let _ = self.slotmap.remove(slot);
                    proof {
                        assert forall|id: u128| #[trigger] self.index().contains_key(id) implies {
                            &&& self.arena().contains_key(self.index()[id])
                            &&& self.arena().value_of(self.index()[id]).entity_id.value == id
                        } by {
                            assert(old(self).index().contains_key(id));
                            assert(old(self).index().contains_key(entity_id.value));
                        }
                    }
                },
                None => {},
            }
        } else {
            assert(self.index() =~= old(self).index().remove(entity_id.value));
        }
    }
}

} // verus!
