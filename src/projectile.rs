use vstd::prelude::*;

use crate::events::{CollisionEvent, DeathEvent};
use crate::timer::Timer;
use crate::world::{bare_record, ids_unique, index_of, EntityRecord, RecordView, World};
use crate::EntityId;

verus! {

/// Punch-through budget of a piercing projectile: it is never used up.
pub const PIERCING: u32 = 0xffff_ffff;

/// Experience above which the player gains the bouncing weapon.
pub const BOUNCER_UNLOCK_EXP: u32 = 100;

/// A weapon that fires a projectile each time its cooldown completes.
#[derive(Clone, Copy, Debug, PartialEq, Eq, Structural)]
pub struct Weapon {
    pub cooldown: Timer,
    pub damage: u32,
    /// How long each projectile lives, in nanoseconds.
    pub lifetime: u64,
    /// Punch-through budget of each projectile.
    pub punchthrough: u32,
}

/// The record of a projectile fired by `weapon`.
pub open spec fn projectile_of(weapon: Weapon, id: EntityId, shooter: EntityId) -> RecordView {
    RecordView {
        damage: Some(weapon.damage),
        owner: Some(shooter),
        punchthrough: Some(weapon.punchthrough),
        lifetime: Some(Timer { duration: weapon.lifetime, elapsed: 0, repeating: false, finished: false }),
        bullet: true,
        ..bare_record(id)
    }
}

impl Weapon {
    /// The player's starting weapon: every 300 ms a projectile aimed at the
    /// nearest enemy, dealing 1 damage, living 1 s and stopped by one hit.
    pub fn primary() -> (w: Weapon)
        ensures
            w == (Weapon {
                cooldown: Timer { duration: 300_000_000, elapsed: 0, repeating: true, finished: false },
                damage: 1,
                lifetime: 1_000_000_000,
                punchthrough: 1,
            }),
    {
        Weapon { cooldown: Timer::new(300_000_000, true), damage: 1, lifetime: 1_000_000_000, punchthrough: 1 }
    }

    /// The bouncing weapon: every 600 ms a projectile in a random direction,
    /// dealing 1 damage, living 4 s and piercing everything it hits.
    pub fn bouncer() -> (w: Weapon)
        ensures
            w == (Weapon {
                cooldown: Timer { duration: 600_000_000, elapsed: 0, repeating: true, finished: false },
                damage: 1,
                lifetime: 4_000_000_000,
                punchthrough: PIERCING,
            }),
    {
        Weapon {
            cooldown: Timer::new(600_000_000, true),
            damage: 1,
            lifetime: 4_000_000_000,
            punchthrough: PIERCING,
        }
    }

    /// Advances the cooldown by `delta` nanoseconds; returns whether a
    /// projectile is fired now, which needs the cooldown to complete on this
    /// tick and, for an aimed weapon, a target (`has_target`).
    pub fn shoot(&mut self, delta: u64, has_target: bool) -> (fire: bool)
        ensures
            final(self).cooldown == old(self).cooldown.ticked(delta),
            final(self).damage == old(self).damage,
            final(self).lifetime == old(self).lifetime,
            final(self).punchthrough == old(self).punchthrough,
            fire == (final(self).cooldown.finished && has_target),
    {
        self.cooldown.tick(delta);
        self.cooldown.finished() && has_target
    }

    /// The record of a projectile with id `id` fired by `shooter`.
    pub fn projectile(&self, id: EntityId, shooter: EntityId) -> (r: EntityRecord)
        ensures
            r@ == projectile_of(*self, id, shooter),
    {
        let mut r = EntityRecord::new(id);
        r.damage = Some(self.damage);
        r.owner = Some(shooter);
        r.punchthrough = Some(self.punchthrough);
        r.lifetime = Some(Timer::new(self.lifetime, false));
        r.bullet = true;
        r
    }
}

/// Whether a player with `experience` that has no bouncing weapon yet gains
/// one now.
pub fn upgrade_player_bouncer(experience: u32, has_bouncer: bool) -> (r: bool)
    ensures
        r == (experience > BOUNCER_UNLOCK_EXP && !has_bouncer),
{
    experience > BOUNCER_UNLOCK_EXP && !has_bouncer
}

/// Whether a hit on this entity uses up punch-through: a solid that is
/// neither a projectile nor the player.
pub open spec fn qualifies(o: RecordView) -> bool {
    o.solid && !o.bullet && !o.player
}

/// The effect of one collision event on projectile budgets, and on the death
/// events emitted so far in this pass.
pub open spec fn punch_step(w: Seq<RecordView>, deaths: Seq<DeathEvent>, ev: CollisionEvent) -> (
    Seq<RecordView>,
    Seq<DeathEvent>,
) {
    match (index_of(w, ev.collider), index_of(w, ev.obstacle)) {
        (Some(bi), Some(oi)) => {
            let b = w[bi];
            if b.bullet && b.punchthrough is Some && b.punchthrough->0 > 0 && b.punchthrough->0
                != PIERCING && qualifies(w[oi]) {
                let left = (b.punchthrough->0 - 1) as u32;
                (
                    w.update(bi, RecordView { punchthrough: Some(left), ..b }),
                    if left == 0 {
                        deaths.push(DeathEvent { entity: b.id })
                    } else {
                        deaths
                    },
                )
            } else {
                (w, deaths)
            }
        },
        _ => (w, deaths),
    }
}

/// All collision events of a frame, in order.
pub open spec fn punch_pass(w: Seq<RecordView>, events: Seq<CollisionEvent>) -> (
    Seq<RecordView>,
    Seq<DeathEvent>,
)
    decreases events.len(),
{
    if events.len() == 0 {
        (w, Seq::empty())
    } else {
        let (w1, d1) = punch_pass(w, events.drop_last());
        punch_step(w1, d1, events.last())
    }
}

/// The records with a lifetime timer ticked by `delta`.
pub open spec fn aged(r: RecordView, delta: u64) -> RecordView {
    match r.lifetime {
        Some(t) => RecordView { lifetime: Some(t.ticked(delta)), ..r },
        None => r,
    }
}

/// Death events for the records whose lifetime has run out, in registry order.
pub open spec fn expired(s: Seq<RecordView>) -> Seq<DeathEvent>
    decreases s.len(),
{
    if s.len() == 0 {
        Seq::empty()
    } else {
        let rest = expired(s.drop_last());
        let r = s.last();
        if r.lifetime is Some && r.lifetime->0.finished {
            rest.push(DeathEvent { entity: r.id })
        } else {
            rest
        }
    }
}

/// Whether some record of `w` has the id `e`.
pub open spec fn names_entity(w: Seq<RecordView>, e: EntityId) -> bool {
    exists|i: int| 0 <= i < w.len() && w[i].id == e
}

/// What a pass of projectile hits keeps: the same entities, each with at
/// most a smaller budget, one death event per projectile whose budget ran
/// out in the pass, and no others.
pub open spec fn punch_pass_facts(w: Seq<RecordView>, w2: Seq<RecordView>, d: Seq<DeathEvent>) -> bool {
    &&& w2.len() == w.len()
    &&& forall|i: int|
        0 <= i < w.len() ==> #[trigger] w2[i] == RecordView { punchthrough: w2[i].punchthrough, ..w[i] }
    &&& forall|i: int|
        0 <= i < w.len() && (#[trigger] w[i]).punchthrough is Some ==> w2[i].punchthrough is Some
            && w2[i].punchthrough->0 <= w[i].punchthrough->0
    &&& forall|i: int| 0 <= i < w.len() && (#[trigger] w[i]).punchthrough is None ==> w2[i].punchthrough is None
    &&& forall|i: int, j: int| 0 <= i < j < d.len() ==> d[i] != d[j]
    &&& forall|i: int|
        0 <= i < w.len() ==> (d.contains(DeathEvent { entity: (#[trigger] w[i]).id }) <==> (w[i].bullet
            && w[i].punchthrough is Some && w[i].punchthrough->0 > 0 && w2[i].punchthrough == Some(
            0u32,
        )))
    &&& forall|k: int| 0 <= k < d.len() ==> names_entity(w, (#[trigger] d[k]).entity)
}

/// A projectile's budget only goes down and never below zero, and the pass
/// emits a death event for it exactly once if the pass used its budget up,
/// and never otherwise.
pub proof fn lemma_punchthrough_single_death(w: Seq<RecordView>, events: Seq<CollisionEvent>)
    requires
        ids_unique(w),
    ensures
        punch_pass_facts(w, punch_pass(w, events).0, punch_pass(w, events).1),
    decreases events.len(),
{
    if events.len() == 0 {
        assert(punch_pass_facts(w, w, Seq::empty()));
    } else {
        let (w1, d1) = punch_pass(w, events.drop_last());
        lemma_punchthrough_single_death(w, events.drop_last());
        let ev = events.last();
        let (w2, d2) = punch_step(w1, d1, ev);
        assert(ids_unique(w1)) by {
            assert forall|i: int, j: int| 0 <= i < j < w1.len() implies w1[i].id != w1[j].id by {
                assert(w1[i] == RecordView { punchthrough: w1[i].punchthrough, ..w[i] });
                assert(w1[j] == RecordView { punchthrough: w1[j].punchthrough, ..w[j] });
            }
        }
        match (index_of(w1, ev.collider), index_of(w1, ev.obstacle)) {
            (Some(bi), Some(oi)) => {
                let b = w1[bi];
                if b.bullet && b.punchthrough is Some && b.punchthrough->0 > 0 && b.punchthrough->0
                    != PIERCING && qualifies(w1[oi]) {
                    let left = (b.punchthrough->0 - 1) as u32;
                    assert(w1[bi] == RecordView { punchthrough: w1[bi].punchthrough, ..w[bi] });
                    assert forall|i: int|
                        0 <= i < w.len() implies (d2.contains(DeathEvent { entity: (#[trigger] w[i]).id })
                        <==> (w[i].bullet && w[i].punchthrough is Some && w[i].punchthrough->0 > 0
                        && w2[i].punchthrough == Some(0u32))) by {
                        assert(w1[i] == RecordView { punchthrough: w1[i].punchthrough, ..w[i] });
                        if left == 0 {
                            assert(d2 == d1.push(DeathEvent { entity: b.id }));
                            if i != bi {
                                assert(w[i].id != w[bi].id);
                            }
                            assert(d1.push(DeathEvent { entity: b.id }).contains(DeathEvent { entity: w[i].id })
                                <==> (d1.contains(DeathEvent { entity: w[i].id }) || i == bi)) by {
                                if d1.push(DeathEvent { entity: b.id }).contains(DeathEvent { entity: w[i].id }) {
                                    let k = choose|k: int| 0 <= k < d2.len() && d2[k] == DeathEvent { entity: w[i].id };
                                    if k < d1.len() {
                                        assert(d1[k] == d2[k]);
                                    }
                                }
                                if d1.contains(DeathEvent { entity: w[i].id }) {
                                    let k = choose|k: int| 0 <= k < d1.len() && d1[k] == DeathEvent { entity: w[i].id };
                                    assert(d2[k] == d1[k]);
                                }
                                if i == bi {
                                    assert(d2[d1.len() as int] == DeathEvent { entity: w[i].id });
                                }
                            }
                        }
                    }
                    assert forall|k: int| 0 <= k < d2.len() implies names_entity(w, (#[trigger] d2[k]).entity) by {
                        if k == d1.len() {
                            assert(d2[k].entity == w[bi].id);
                        } else {
                            assert(d2[k] == d1[k]);
                        }
                    }
                    if left == 0 {
                        assert forall|i: int, j: int| 0 <= i < j < d2.len() implies d2[i] != d2[j] by {
                            if j == d1.len() {
                                assert(d2[i] == d1[i]);
                                assert(names_entity(w, d1[i].entity));
                                let x = choose|x: int| 0 <= x < w.len() && w[x].id == d1[i].entity;
                                assert(w1[x] == RecordView { punchthrough: w1[x].punchthrough, ..w[x] });
                                if x != bi {
                                    assert(w[x].id != w[bi].id);
                                }
                                assert(d1.contains(DeathEvent { entity: w[x].id }));
                            }
                        }
                    }
                    assert(punch_pass_facts(w, w2, d2));
                }
            },
            _ => {},
        }
    }
}

impl World {
    /// Uses up punch-through of projectiles that hit qualifying obstacles, and
    /// returns a death event for each projectile whose budget this ran out.
    pub fn bullet_collision(&mut self, events: &Vec<CollisionEvent>) -> (deaths: Vec<DeathEvent>)
        requires
            old(self).wf(),
        ensures
            final(self).wf(),
            (final(self)@, deaths@) == punch_pass(old(self)@, events@),
    {
        let mut deaths: Vec<DeathEvent> = Vec::new();
        let mut i: usize = 0;
        assert(events@.take(0) =~= Seq::<CollisionEvent>::empty());
        while i < events.len()
            invariant
                i <= events@.len(),
                self.wf(),
                (self@, deaths@) == punch_pass(old(self)@, events@.take(i as int)),
            decreases events@.len() - i,
        {
            let ev = events[i];
            self.punch_event(&mut deaths, ev);
            assert(events@.take(i + 1).drop_last() =~= events@.take(i as int));
            i = i + 1;
        }
        assert(events@.take(events@.len() as int) =~= events@);
        deaths
    }

    fn punch_event(&mut self, deaths: &mut Vec<DeathEvent>, ev: CollisionEvent)
        requires
            old(self).wf(),
        ensures
            final(self).wf(),
            (final(self)@, final(deaths)@) == punch_step(old(self)@, old(deaths)@, ev),
    {
        let bi = match self.find(ev.collider) {
            Some(b) => b,
            None => return ,
        };
        let oi = match self.find(ev.obstacle) {
            Some(o) => o,
            None => return ,
        };
        if !self.entities[bi].bullet {
            return ;
        }
        let p = match self.entities[bi].punchthrough {
            Some(p) => p,
            None => return ,
        };
        if p == 0 || p == PIERCING {
            return ;
        }
        if !(self.entities[oi].solid && !self.entities[oi].bullet && !self.entities[oi].player) {
            return ;
        }
        let ghost w0 = self@;
        let left = p - 1;
        self.entities[bi].punchthrough = Some(left);
        assert(self@ =~= w0.update(bi as int, RecordView { punchthrough: Some(left), ..w0[bi as int] }));
        if left == 0 {
            let id = self.entities[bi].id;
            deaths.push(DeathEvent { entity: id });
        }
    }

    /// Ages every lifetime timer by `delta` and returns a death event for
    /// each entity whose lifetime has run out.
    pub fn check_lifetimes(&mut self, delta: u64) -> (deaths: Vec<DeathEvent>)
        requires
            old(self).wf(),
        ensures
            final(self).wf(),
            final(self)@ == old(self)@.map_values(|r: RecordView| aged(r, delta)),
            deaths@ == expired(final(self)@),
    {
        let ghost w0 = self@;
        let mut deaths: Vec<DeathEvent> = Vec::new();
        let mut i: usize = 0;
        while i < self.entities.len()
            invariant
                i <= self@.len(),
                self@.len() == w0.len(),
                forall|j: int| 0 <= j < i ==> self@[j] == aged(w0[j], delta),
                forall|j: int| i <= j < self@.len() ==> self@[j] == w0[j],
                deaths@ == expired(self@.take(i as int)),
            decreases w0.len() - i,
        {
            let ghost before = self@;
            match self.entities[i].lifetime {
                Some(t) => {
                    let mut t = t;
                    t.tick(delta);
                    self.entities[i].lifetime = Some(t);
                    assert(self@ =~= before.update(i as int, aged(w0[i as int], delta)));
                    if t.finished() {
                        let id = self.entities[i].id;
                        deaths.push(DeathEvent { entity: id });
                    }
                },
                None => {},
            }
            assert(self@.take(i + 1).drop_last() =~= self@.take(i as int));
            assert(self@.take(i as int) =~= before.take(i as int));
            i = i + 1;
        }
        assert(self@.take(w0.len() as int) =~= self@);
        assert(self@ =~= w0.map_values(|r: RecordView| aged(r, delta)));
        deaths
    }
}

} // verus!
