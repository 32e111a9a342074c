use vstd::prelude::*;

use crate::cleanup::{
    casualties, dead_ids, drops_distinct, forget_sources, loot_pass, survivors, CleanupReport,
};
use crate::combat::damage_pass;
use crate::events::{CollisionEvent, DeathEvent};
use crate::pickup::pickup_pass;
use crate::projectile::{aged, expired, punch_pass};
use crate::world::{health_valid, index_of, RecordView, World};
use crate::EntityId;

verus! {

/// The registry after the resolution phase of a frame, before cleanup:
/// damage, then punch-through, then pickups, all reading the same collision
/// events, then lifetimes.
pub open spec fn resolved(w: Seq<RecordView>, events: Seq<CollisionEvent>, delta: u64) -> Seq<
    RecordView,
> {
    let w1 = damage_pass(w, events, delta).0;
    let w2 = punch_pass(w1, events).0;
    let w3 = pickup_pass(w2, events).0;
    w3.map_values(|r: RecordView| aged(r, delta))
}

/// The death events of the resolution phase of a frame, in the order in
/// which the passes emit them.
pub open spec fn frame_deaths(w: Seq<RecordView>, events: Seq<CollisionEvent>, delta: u64) -> Seq<
    DeathEvent,
> {
    let (w1, d1) = damage_pass(w, events, delta);
    let (w2, d2) = punch_pass(w1, events);
    let d3 = pickup_pass(w2, events).1;
    d1 + d2 + d3 + expired(resolved(w, events, delta))
}

impl World {
    /// Runs the resolution phase of a frame on the collision events found
    /// after movement, then its cleanup phase on every death event that the
    /// resolution produced. `delta` is the length of the frame in
    /// nanoseconds.
    pub fn resolve_frame(&mut self, events: &Vec<CollisionEvent>, delta: u64) -> (report:
        CleanupReport)
        requires
            old(self).wf(),
        ensures
            final(self).wf(),
            health_valid(final(self)@),
            report.loot@ == loot_pass(
                resolved(old(self)@, events@, delta),
                frame_deaths(old(self)@, events@, delta),
            ),
            drops_distinct(report.loot@),
            report.player_died == exists|k: int|
                0 <= k < frame_deaths(old(self)@, events@, delta).len() && (#[trigger] index_of(
                    resolved(old(self)@, events@, delta),
                    frame_deaths(old(self)@, events@, delta)[k].entity,
                )) is Some && resolved(old(self)@, events@, delta)[index_of(
                    resolved(old(self)@, events@, delta),
                    frame_deaths(old(self)@, events@, delta)[k].entity,
                )->0].player,
            report.despawned@ == casualties(
                resolved(old(self)@, events@, delta),
                dead_ids(frame_deaths(old(self)@, events@, delta)),
            ),
            forall|i: int, j: int|
                0 <= i < j < report.despawned@.len() ==> report.despawned@[i] != report.despawned@[j],
            final(self)@ == survivors(
                resolved(old(self)@, events@, delta),
                dead_ids(frame_deaths(old(self)@, events@, delta)),
            ).map_values(
                |r: RecordView| forget_sources(r, dead_ids(frame_deaths(old(self)@, events@, delta))),
            ),
            forall|i: int, e: EntityId|
                0 <= i < final(self)@.len() && final(self)@[i].window is Some && dead_ids(
                    frame_deaths(old(self)@, events@, delta),
                ).contains(e) ==> !(#[trigger] final(self)@[i].window->0.contains_key(e)),
    {
        let mut deaths = self.collision_damage(events, delta);
        let mut punched = self.bullet_collision(events);
        let mut picked = self.exp_pickup_collision(events);
        let mut expired = self.check_lifetimes(delta);
        deaths.append(&mut punched);
        deaths.append(&mut picked);
        deaths.append(&mut expired);
        self.cleanup(&deaths)
    }
}

} // verus!
