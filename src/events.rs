use vstd::prelude::*;

use crate::EntityId;

verus! {

/// Two entities found overlapping: `collider` moved into `obstacle`.
#[derive(Clone, Copy, Debug, PartialEq, Eq, Structural)]
pub struct CollisionEvent {
    pub collider: EntityId,
    pub obstacle: EntityId,
}

/// An entity that is to be removed in the cleanup phase of the frame.
#[derive(Clone, Copy, Debug, PartialEq, Eq, Structural)]
pub struct DeathEvent {
    pub entity: EntityId,
}

impl CollisionEvent {
    pub fn new(collider: EntityId, obstacle: EntityId) -> (r: CollisionEvent)
        ensures
            r == (CollisionEvent { collider, obstacle }),
    {
        CollisionEvent { collider, obstacle }
    }
}

impl DeathEvent {
    pub fn new(entity: EntityId) -> (r: DeathEvent)
        ensures
            r == (DeathEvent { entity }),
    {
        DeathEvent { entity }
    }
}

/// Whether `queue` already holds a death event for `entity`.
pub fn has_death(queue: &Vec<DeathEvent>, entity: EntityId) -> (r: bool)
    ensures
        r == queue@.contains(DeathEvent { entity }),
{
    let mut i: usize = 0;
    while i < queue.len()
        invariant
            i <= queue@.len(),
            forall|j: int| 0 <= j < i ==> queue@[j] != (DeathEvent { entity }),
        decreases queue@.len() - i,
    {
        if queue[i].entity == entity {
            return true;
        }
        i = i + 1;
    }
    false
}

} // verus!
