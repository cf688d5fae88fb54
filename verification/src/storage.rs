//! Entities and the sparse storages that hold their components.

use vstd::prelude::*;

verus! {

/// The identity of an entity: a key into the component storages, with no data of its own.
#[derive(Clone, Copy, Debug, PartialEq, Eq, Structural)]
pub struct Entity {
    pub id: usize,
}

/// A sparse map from entities to components of one kind.
pub struct Storage<T> {
    slots: Vec<Option<T>>,
}

impl<T> View for Storage<T> {
    type V = Map<Entity, T>;

    closed spec fn view(&self) -> Map<Entity, T> {
        Map::new(
            |e: Entity| e.id < self.slots@.len() && self.slots@[e.id as int] is Some,
            |e: Entity| self.slots@[e.id as int]->0,
        )
    }
}

impl<T> Storage<T> {
    /// A number above the id of every entity that has a component here.
    pub closed spec fn bound(&self) -> nat {
        self.slots@.len()
    }

    /// Every entity with a component here has an id below `bound`.
    pub proof fn lemma_bounded(&self)
        ensures
            forall|e: Entity| #[trigger] self@.contains_key(e) ==> e.id < self.bound(),
    {
    }

    /// A storage holds components of finitely many entities.
    pub proof fn lemma_finite(&self)
        ensures
            self@.dom().finite(),
    {
        let n = self.slots@.len();
        let ids = Set::new(|i: int| 0 <= i < n);
        vstd::set_lib::lemma_int_range(0, n as int);
        assert(ids =~= vstd::set_lib::set_int_range(0, n as int));
        let all = ids.map(|i: int| Entity { id: i as usize });
        ids.lemma_map_finite(|i: int| Entity { id: i as usize });
        assert forall|e: Entity| self@.dom().contains(e) implies all.contains(e) by {
            assert(ids.contains(e.id as int));
            assert(e == (Entity { id: (e.id as int) as usize }));
        }
        vstd::set_lib::lemma_len_subset(self@.dom(), all);
    }

    /// A storage without components.
    pub fn new() -> (s: Self)
        ensures
            s@ == Map::<Entity, T>::empty(),
            s.bound() == 0,
    {
        let s = Storage { slots: Vec::new() };
        assert(s@ =~= Map::<Entity, T>::empty());
        s
    }

    /// A number above the id of every entity that has a component here.
    pub fn limit(&self) -> (n: usize)
        ensures
            n == self.bound(),
            forall|e: Entity| #[trigger] self@.contains_key(e) ==> e.id < n,
    {
        self.slots.len()
    }

    /// Whether `entity` has a component here.
    pub fn contains(&self, entity: Entity) -> (b: bool)
        ensures
            b == self@.contains_key(entity),
    {
        entity.id < self.slots.len() && self.slots[entity.id].is_some()
    }

    /// The component of `entity`, if it has one here.
    pub fn get(&self, entity: Entity) -> (r: Option<&T>)
        ensures
            match r {
                Some(value) => self@.contains_key(entity) && *value == self@[entity],
                None => !self@.contains_key(entity),
            },
    {
        if entity.id < self.slots.len() {
            self.slots[entity.id].as_ref()
        } else {
            None
        }
    }

    /// Gives `entity` the component `value`, in place of the one it had here, if any.
    pub fn insert(&mut self, entity: Entity, value: T)
        ensures
            final(self)@ == old(self)@.insert(entity, value),
            final(self).bound() == if entity.id < old(self).bound() {
                old(self).bound()
            } else {
                (entity.id + 1) as nat
            },
    {
        while self.slots.len() <= entity.id
            invariant
                self@ == old(self)@,
                self.slots@.len() >= old(self).slots@.len(),
                self.slots@.len() <= entity.id + 1 || self.slots@.len() == old(self).slots@.len(),
            decreases entity.id + 1 - self.slots@.len(),
        {
            let ghost before = self@;
            self.slots.push(None);
            assert(self@ =~= before);
        }
        let ghost before = self@;
        self.slots.set(entity.id, Some(value));
        assert(self@ =~= before.insert(entity, value));
    }

    /// Takes the component of `entity` out of the storage and returns it, if it had one.
    pub fn remove(&mut self, entity: Entity) -> (r: Option<T>)
        ensures
            final(self)@ == old(self)@.remove(entity),
            final(self).bound() == old(self).bound(),
            match r {
                Some(value) => old(self)@.contains_key(entity) && value == old(self)@[entity],
                None => !old(self)@.contains_key(entity),
            },
    {
        if entity.id < self.slots.len() {
            let ghost before = self@;
            let taken = self.slots[entity.id].take();
            assert(self@ =~= before.remove(entity));
            taken
        } else {
            assert(self@ =~= self@.remove(entity));
            None
        }
    }
}

/// A copy of what a borrowed option holds.
pub fn copied<T: Copy>(value: Option<&T>) -> (r: Option<T>)
    ensures
        r == match value {
            Some(v) => Some(*v),
            None => None,
        },
{
    match value {
        Some(v) => Some(*v),
        None => None,
    }
}

} // verus!
