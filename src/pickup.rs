use vstd::prelude::*;

use crate::events::{CollisionEvent, DeathEvent};
use crate::world::{index_of, RecordView, World};

verus! {

/// Experience after adding `gain`, held at `u32::MAX`.
pub open spec fn gained(exp: u32, gain: u32) -> u32 {
    if exp + gain > u32::MAX {
        u32::MAX
    } else {
        (exp + gain) as u32
    }
}

/// The effect of one collision event on experience: a player that runs into
/// a pickup takes its experience, and the pickup is marked for death.
pub open spec fn pickup_step(w: Seq<RecordView>, deaths: Seq<DeathEvent>, ev: CollisionEvent) -> (
    Seq<RecordView>,
    Seq<DeathEvent>,
) {
    match (index_of(w, ev.obstacle), index_of(w, ev.collider)) {
        (Some(pi), Some(ci)) => {
            let p = w[pi];
            let c = w[ci];
            if p.pickup && p.experience is Some && c.player && !c.pickup && c.experience is Some {
                let total = gained(c.experience->0, p.experience->0);
                (
                    w.update(ci, RecordView { experience: Some(total), ..c }),
                    deaths.push(DeathEvent { entity: p.id }),
                )
            } else {
                (w, deaths)
            }
        },
        _ => (w, deaths),
    }
}

/// All collision events of a frame, in order.
pub open spec fn pickup_pass(w: Seq<RecordView>, events: Seq<CollisionEvent>) -> (
    Seq<RecordView>,
    Seq<DeathEvent>,
)
    decreases events.len(),
{
    if events.len() == 0 {
        (w, Seq::empty())
    } else {
        let (w1, d1) = pickup_pass(w, events.drop_last());
        pickup_step(w1, d1, events.last())
    }
}

impl World {
    /// Credits the player with the experience of each pickup it runs into and
    /// returns a death event for each such pickup.
    pub fn exp_pickup_collision(&mut self, events: &Vec<CollisionEvent>) -> (deaths: Vec<DeathEvent>)
        requires
            old(self).wf(),
        ensures
            final(self).wf(),
            (final(self)@, deaths@) == pickup_pass(old(self)@, events@),
    {
        let mut deaths: Vec<DeathEvent> = Vec::new();
        let mut i: usize = 0;
        assert(events@.take(0) =~= Seq::<CollisionEvent>::empty());
        while i < events.len()
            invariant
                i <= events@.len(),
                self.wf(),
                (self@, deaths@) == pickup_pass(old(self)@, events@.take(i as int)),
            decreases events@.len() - i,
        {
            let ev = events[i];
            self.pickup_event(&mut deaths, ev);
            assert(events@.take(i + 1).drop_last() =~= events@.take(i as int));
            i = i + 1;
        }
        assert(events@.take(events@.len() as int) =~= events@);
        deaths
    }

    fn pickup_event(&mut self, deaths: &mut Vec<DeathEvent>, ev: CollisionEvent)
        requires
            old(self).wf(),
        ensures
            final(self).wf(),
            (final(self)@, final(deaths)@) == pickup_step(old(self)@, old(deaths)@, ev),
    {
        let pi = match self.find(ev.obstacle) {
            Some(p) => p,
            None => return ,
        };
        let ci = match self.find(ev.collider) {
            Some(c) => c,
            None => return ,
        };
        if !self.entities[pi].pickup || !self.entities[ci].player || self.entities[ci].pickup {
            return ;
        }
        let gain = match self.entities[pi].experience {
            Some(g) => g,
            None => return ,
        };
        let exp = match self.entities[ci].experience {
            Some(x) => x,
            None => return ,
        };
        let pickup_id = self.entities[pi].id;
        let ghost w0 = self@;
        let total = exp.saturating_add(gain);
        self.entities[ci].experience = Some(total);
        assert(self@ =~= w0.update(ci as int, RecordView { experience: Some(total), ..w0[ci as int] }));
        deaths.push(DeathEvent { entity: pickup_id });
    }
}

} // verus!
