//! The entities of a world.

use vstd::prelude::*;

verus! {

/// What a [`World`] holds, as mathematics.
pub struct WorldView {
    /// The entities alive, in the order the world keeps them.
    pub entities: Seq<u64>,
    /// The next entity to create.
    pub next_entity: u64,
}

impl WorldView {
    /// Every entity alive was created, and none is alive twice.
    pub open spec fn wf(self) -> bool {
        &&& self.entities.no_duplicates()
        &&& forall|i: int| 0 <= i < self.entities.len() ==> #[trigger] self.entities[i]
            < self.next_entity
    }
}

/// `entities` without the one at `index`: the last entity takes its place.
pub open spec fn swap_removed(entities: Seq<u64>, index: int) -> Seq<u64> {
    entities.update(index, entities.last()).drop_last()
}

/// The entities of a world. Entities are numbered from 0 in the order of
/// their creation, and a number is never given twice.
pub struct World {
    entities: Vec<u64>,
    next_entity: u64,
}

impl View for World {
    type V = WorldView;

    closed spec fn view(&self) -> WorldView {
        WorldView { entities: self.entities@, next_entity: self.next_entity }
    }
}

impl World {
    /// Validity of the world: see [`WorldView::wf`].
    pub open spec fn wf(&self) -> bool {
        self@.wf()
    }

    /// A world without entities.
    pub fn new() -> (world: World)
        ensures
            world.wf(),
            world@.entities == Seq::<u64>::empty(),
            world@.next_entity == 0,
    {
        World { entities: Vec::new(), next_entity: 0 }
    }

    /// The entity that is created next.
    pub fn next_entity(&self) -> (next: u64)
        ensures
            next == self@.next_entity,
    {
        self.next_entity
    }

    /// Whether `entity` is alive.
    pub fn contains(&self, entity: u64) -> (found: bool)
        ensures
            found == self@.entities.contains(entity),
    {
        let mut index: usize = 0;
        while index < self.entities.len()
            invariant
                index <= self.entities.len(),
                forall|i: int| 0 <= i < index ==> self@.entities[i] != entity,
            decreases self.entities.len() - index,
        {
            if self.entities[index] == entity {
                assert(self@.entities[index as int] == entity);
                return true;
            }
            index += 1;
        }
        false
    }

    /// Create an entity; returns it.
    pub fn create_entity(&mut self) -> (entity: u64)
        requires
            old(self).wf(),
            old(self)@.next_entity < u64::MAX,
        ensures
            final(self).wf(),
            entity == old(self)@.next_entity,
            final(self)@.next_entity == entity + 1,
            final(self)@.entities == old(self)@.entities.push(entity),
    {
        let entity: u64 = self.next_entity;
        self.next_entity = entity + 1;
        self.entities.push(entity);
        proof {
            assert(self@.entities == old(self)@.entities.push(entity));
        }
        entity
    }

    /// Delete `entity`, which is alive: the last entity takes its place.
    pub fn delete_entity(&mut self, entity: u64)
        requires
            old(self).wf(),
            old(self)@.entities.contains(entity),
        ensures
            final(self).wf(),
            final(self)@.next_entity == old(self)@.next_entity,
            final(self)@.entities == swap_removed(
                old(self)@.entities,
                old(self)@.entities.index_of(entity),
            ),
            !final(self)@.entities.contains(entity),
            forall|other: u64|
                other != entity ==> (final(self)@.entities.contains(other) <==> old(
                    self,
                )@.entities.contains(other)),
    {
        let ghost before = self@.entities;
        let ghost place = before.index_of(entity);
        proof {
            assert(before[place] == entity && 0 <= place < before.len());
        }
        let mut index: usize = 0;
        while self.entities[index] != entity
            invariant
                *self == *old(self),
                0 <= index <= place < self.entities.len(),
                before == self@.entities,
                before[place] == entity,
            decreases self.entities.len() - index,
        {
            index += 1;
        }
        proof {
            assert(before[index as int] == entity);
            assert(index == place);
        }
        self.entities.swap_remove(index);
        proof {
            let after = self@.entities;
            assert(after =~= swap_removed(before, place));
            assert forall|i: int| 0 <= i < after.len() implies #[trigger] after[i]
                != entity by {
                if i == place {
                    assert(after[i] == before[before.len() - 1]);
                } else {
                    assert(after[i] == before[i]);
                }
            }
            assert forall|other: u64| other != entity implies (after.contains(other)
                <==> before.contains(other)) by {
                if after.contains(other) {
                    let i = after.index_of(other);
                    assert(after[i] == other && 0 <= i < after.len());
                    if i == place {
                        assert(before[before.len() - 1] == other);
                    } else {
                        assert(before[i] == other);
                    }
                }
                if before.contains(other) {
                    let i = before.index_of(other);
                    assert(before[i] == other && 0 <= i < before.len());
                    if i == before.len() - 1 {
                        assert(place != i);
                        assert(after[place] == other);
                    } else {
                        assert(after[i] == other);
                    }
                }
            }
        }
    }

    /// The entities alive, in the order the world keeps them.
    pub fn iter_entities(&self) -> (entities: &[u64])
        ensures
            entities@ == self@.entities,
    {
        self.entities.as_slice()
    }
}

} // verus!
