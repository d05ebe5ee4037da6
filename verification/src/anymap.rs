//! A map that holds at most one value of each type, found by its type.

use std::any::Any;
use std::any::TypeId;
use vstd::prelude::*;

verus! {

/// `std::any::TypeId`: the identifier of a type. Nothing is known of what it holds.
#[verifier::external_type_specification]
#[verifier::external_body]
pub struct ExTypeId(TypeId);

/// A value of any type: a `Box<dyn Any>`. The verifier cannot be told of the trait `Any`,
/// so the box is kept out of its sight; nothing is known of what it holds.
#[verifier::external_body]
pub struct AnyValue {
    inner: Box<dyn Any>,
}

/// `TypeId::of`. Nothing is claimed of the result: two calls for one type are the same
/// to `same_type_id`, but the verifier is not told so.
#[verifier::external_body]
fn type_id_of<T: 'static>() -> (id: TypeId)
{
    TypeId::of::<T>()
}

/// `==` of `TypeId`: two identifiers are equal when they are the same identifier.
#[verifier::external_body]
fn same_type_id(a: &TypeId, b: &TypeId) -> (same: bool)
    ensures
        same == (*a == *b),
{
    a == b
}

/// `Box::new`, with the box seen as a `Box<dyn Any>`.
#[verifier::external_body]
fn box_any<T: 'static>(data: T) -> (value: AnyValue)
{
    AnyValue { inner: Box::new(data) }
}

/// `<dyn Any>::downcast_ref`. Nothing is claimed of the result.
#[verifier::external_body]
fn downcast_ref<T: 'static>(value: &AnyValue) -> (data: Option<&T>)
{
    value.inner.downcast_ref::<T>()
}

/// `<dyn Any>::downcast_mut`. Nothing is claimed of the result.
#[verifier::external_body]
fn downcast_mut<T: 'static>(value: &mut AnyValue) -> (data: Option<&mut T>)
{
    value.inner.downcast_mut::<T>()
}

/// A map from types to values, one value for each type at most.
pub struct Anymap {
    keys: Vec<TypeId>,
    values: Vec<AnyValue>,
}

impl Anymap {
    /// The types that have a value, in the order in which they came into the map.
    pub closed spec fn keys(&self) -> Seq<TypeId> {
        self.keys@
    }

    /// The values, in the order of their types.
    pub closed spec fn values(&self) -> Seq<AnyValue> {
        self.values@
    }

    /// Every type has its value, and no type is there twice.
    pub open spec fn wf(&self) -> bool {
        &&& self.keys().len() == self.values().len()
        &&& forall|i: int, j: int|
            0 <= i < j < self.keys().len() ==> self.keys()[i] != self.keys()[j]
    }

    /// The map has a value for the type `key`.
    pub open spec fn has(&self, key: TypeId) -> bool {
        self.keys().contains(key)
    }

    /// The value for the type `key`.
    pub open spec fn value_of(&self, key: TypeId) -> AnyValue
        recommends
            self.has(key),
    {
        self.values()[self.keys().index_of(key)]
    }

    /// The map has values for the types that `before` has values for, but for `key`.
    pub open spec fn is_without(&self, before: &Anymap, key: TypeId) -> bool {
        forall|other: TypeId| self.has(other) <==> before.has(other) && other != key
    }

    pub fn new() -> (map: Anymap)
        ensures
            map.wf(),
            map.keys().len() == 0,
    {
        Anymap { keys: Vec::new(), values: Vec::new() }
    }

    /// Says whether the map is well-formed.
    pub fn is_well_formed(&self) -> (ok: bool)
        ensures
            ok == self.wf(),
    {
        if self.keys.len() != self.values.len() {
            return false;
        }
        let mut j: usize = 0;
        while j < self.keys.len()
            invariant
                j <= self.keys.len(),
                forall|a: int, b: int| 0 <= a < b < j ==> self.keys()[a] != self.keys()[b],
            decreases self.keys.len() - j,
        {
            let mut i: usize = 0;
            while i < j
                invariant
                    i <= j < self.keys.len(),
                    forall|a: int| 0 <= a < i ==> self.keys()[a] != self.keys()[j as int],
                decreases j - i,
            {
                if same_type_id(&self.keys[i], &self.keys[j]) {
                    return false;
                }
                i += 1;
            }
            j += 1;
        }
        true
    }

    /// Where the type `key` stands among the types of the map.
    fn position(&self, key: &TypeId) -> (found: Option<usize>)
        requires
            self.wf(),
        ensures
            found is Some <==> self.has(*key),
            found matches Some(i) ==> i < self.keys().len() && self.keys()[i as int] == *key
                && self.keys().index_of(*key) == i,
    {
        let mut i: usize = 0;
        while i < self.keys.len()
            invariant
                i <= self.keys.len(),
                self.wf(),
                forall|k: int| 0 <= k < i ==> self.keys()[k] != *key,
            decreases self.keys.len() - i,
        {
            if same_type_id(&self.keys[i], key) {
                proof {
                    let at = self.keys().index_of(*key);
                    assert(self.keys()[i as int] == *key);
                    assert(self.keys().contains(*key));
                    assert(0 <= at < self.keys().len() && self.keys()[at] == *key);
                    assert(at == i) by {
                        if at < i {
                            assert(self.keys()[at] != *key);
                        } else if at > i {
                            assert(self.keys()[i as int] != self.keys()[at]);
                        }
                    }
                }
                return Some(i);
            }
            i += 1;
        }
        None
    }

    /// Says whether the map has a value for the type `key`.
    pub fn contains_key(&self, key: &TypeId) -> (found: bool)
        requires
            self.wf(),
        ensures
            found == self.has(*key),
    {
        self.position(key).is_some()
    }

    /// Puts `value` into the map under the type `key`, unless the map has a value for
    /// that type already: then the map stays as it is and `value` is handed back.
    pub fn insert_any(&mut self, key: TypeId, value: AnyValue) -> (refused: Option<AnyValue>)
        requires
            old(self).wf(),
        ensures
            final(self).wf(),
            refused is Some <==> old(self).has(key),
            refused is Some ==> refused == Some(value) && final(self).keys() == old(self).keys()
                && final(self).values() == old(self).values(),
            refused is None ==> final(self).keys() == old(self).keys().push(key)
                && final(self).values() == old(self).values().push(value),
    {
        if self.contains_key(&key) {
            Some(value)
        } else {
            self.keys.push(key);
            self.values.push(value);
            None
        }
    }

    /// Takes the value for the type `key` out of the map, if there is one.
    pub fn remove_key(&mut self, key: &TypeId) -> (removed: Option<AnyValue>)
        requires
            old(self).wf(),
        ensures
            final(self).wf(),
            removed is Some <==> old(self).has(*key),
            removed matches Some(value) ==> value == old(self).value_of(*key),
            removed is None ==> final(self).keys() == old(self).keys() && final(self).values()
                == old(self).values(),
            forall|other: TypeId|
                final(self).has(other) <==> old(self).has(other) && other != *key,
            forall|other: TypeId|
                final(self).has(other) ==> final(self).value_of(other) == old(self).value_of(
                    other,
                ),
    {
        match self.position(key) {
            Some(i) => {
                let ghost keys = self.keys@;
                let ghost values = self.values@;
                self.keys.remove(i);
                let value = self.values.remove(i);
                proof {
                    let after = self.keys@;
                    assert forall|a: int, b: int| 0 <= a < b < after.len() implies after[a]
                        != after[b] by {
                        let a0 = if a < i {
                            a
                        } else {
                            a + 1
                        };
                        let b0 = if b < i {
                            b
                        } else {
                            b + 1
                        };
                        assert(after[a] == keys[a0]);
                        assert(after[b] == keys[b0]);
                    }
                    assert forall|other: TypeId| self.has(other) <==> old(self).has(other)
                        && other != *key by {
                        if self.has(other) {
                            let a = after.index_of(other);
                            let a0 = if a < i {
                                a
                            } else {
                                a + 1
                            };
                            assert(keys[a0] == other);
                            assert(keys[a0] != keys[i as int]);
                        }
                        if old(self).has(other) && other != *key {
                            let a0 = keys.index_of(other);
                            let a = if a0 < i {
                                a0
                            } else {
                                a0 - 1
                            };
                            assert(after[a] == other);
                        }
                    }
                    assert forall|other: TypeId| self.has(other) implies self.value_of(other)
                        == old(self).value_of(other) by {
                        let a = after.index_of(other);
                        let a0 = if a < i {
                            a
                        } else {
                            a + 1
                        };
                        assert(after[a] == other);
                        assert(keys[a0] == other);
                        let found = keys.index_of(other);
                        assert(keys.contains(other));
                        assert(keys[found] == other);
                        assert(found == a0) by {
                            if found < a0 {
                                assert(keys[found] != keys[a0]);
                            } else if found > a0 {
                                assert(keys[a0] != keys[found]);
                            }
                        }
                        assert(self.values()[a] == values[a0]);
                    }
                }
                Some(value)
            },
            None => None,
        }
    }

    /// The value for the type `type_id`, if there is one.
    pub fn get_any(&self, type_id: TypeId) -> (value: Option<&AnyValue>)
        requires
            self.wf(),
        ensures
            value is Some <==> self.has(type_id),
            value matches Some(found) ==> *found == self.value_of(type_id),
    {
        match self.position(&type_id) {
            Some(i) => Some(&self.values[i]),
            None => None,
        }
    }

    /// The value for the type `type_id`, to be changed in place, if there is one.
    pub fn get_mut_any(&mut self, type_id: TypeId) -> (value: Option<&mut AnyValue>)
        requires
            old(self).wf(),
        ensures
            value is Some <==> old(self).has(type_id),
            value matches Some(found) ==> *found == old(self).value_of(type_id)
                && final(self).values() == old(self).values().update(
                old(self).keys().index_of(type_id),
                *final(found),
            ),
            value is None ==> final(self).values() == old(self).values(),
            final(self).keys() == old(self).keys(),
            final(self).wf(),
    {
        match self.position(&type_id) {
            Some(i) => Some(&mut self.values[i]),
            None => None,
        }
    }

    /// Puts `data` into the map under its type, unless the map has a value of that type
    /// already: then the map stays as it is and `data` is handed back.
    pub fn insert<T: Sized + 'static>(&mut self, data: T) -> (refused: Option<T>)
        requires
            old(self).wf(),
        ensures
            final(self).wf(),
            refused is Some ==> refused == Some(data) && final(self).keys() == old(self).keys()
                && final(self).values() == old(self).values(),
            refused is None ==> exists|key: TypeId|
                !old(self).has(key) && final(self).keys() == #[trigger] old(self).keys().push(
                    key,
                ),
            refused is None ==> final(self).values().len() == old(self).values().len() + 1,
            old(self).keys().len() == 0 ==> refused is None,
    {
        let key = type_id_of::<T>();
        if self.contains_key(&key) {
            Some(data)
        } else {
            let data_any = box_any(data);
            let ghost pushed = key;
            let refused = self.insert_any(key, data_any);
            assert(self.keys() == old(self).keys().push(pushed));
            None
        }
    }

    /// Says whether the map has a value of the type `T`: whether it has a value for the
    /// identifier of `T`.
    pub fn contains<T: 'static>(&self) -> (found: bool)
        requires
            self.wf(),
        ensures
            exists|key: TypeId| found == #[trigger] self.has(key),
            found ==> self.keys().len() > 0,
    {
        let key = type_id_of::<T>();
        let found = self.contains_key(&key);
        assert(found == self.has(key));
        found
    }

    /// Takes the value of the type `T` out of the map, if there is one. No other value
    /// leaves the map.
    pub fn remove<T: 'static>(&mut self)
        requires
            old(self).wf(),
        ensures
            final(self).wf(),
            exists|key: TypeId| #[trigger] final(self).is_without(old(self), key),
            forall|other: TypeId|
                final(self).has(other) ==> final(self).value_of(other) == old(self).value_of(
                    other,
                ),
    {
        let key = type_id_of::<T>();
        let _ = self.remove_key(&key);
        assert(self.is_without(old(self), key));
    }

    /// The value of the type `T`, if there is one.
    pub fn get<T: 'static>(&self) -> (data: Option<&T>)
        requires
            self.wf(),
        ensures
            data is Some ==> self.keys().len() > 0,
    {
        let key = type_id_of::<T>();
        match self.get_any(key) {
            Some(value) => match downcast_ref::<T>(value) {
                Some(data) => Some(data),
                None => None,
            },
            None => None,
        }
    }

    /// The value of the type `T`, to be changed in place, if there is one. The map keeps
    /// its types.
    pub fn get_mut<T: 'static>(&mut self) -> (data: Option<&mut T>)
        requires
            old(self).wf(),
        ensures
            data is Some ==> old(self).keys().len() > 0,
            final(self).keys() == old(self).keys(),
            final(self).wf(),
    {
        let key = type_id_of::<T>();
        match self.get_mut_any(key) {
            Some(value) => match downcast_mut::<T>(value) {
                Some(data) => Some(data),
                None => None,
            },
            None => None,
        }
    }
}

} // verus!
