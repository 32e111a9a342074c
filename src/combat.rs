use vstd::prelude::*;

use crate::events::{has_death, CollisionEvent, DeathEvent};
use crate::timer::{lemma_one_shot_finishes, ticked_all, total, Timer};
use crate::world::{index_of, Health, RecordView, World};
use crate::EntityId;

verus! {

broadcast use vstd::std_specs::hash::group_hash_axioms;

/// How long a victim ignores further hits from one source, in nanoseconds.
pub const INVINCIBILITY_NS: u64 = 500_000_000;

/// The debounce timer started for a source on its first recorded hit.
pub open spec fn window_timer() -> Timer {
    Timer { duration: INVINCIBILITY_NS, elapsed: 0, repeating: false, finished: false }
}

/// One hit of a source against a victim, given the victim's timer for that
/// source (if any): the timer that stays afterwards, and whether the hit lands.
///
/// A first hit only starts the timer; later hits tick it and are ignored until
/// it finishes, and the hit on which it finishes lands and clears the entry.
pub open spec fn debounce(entry: Option<Timer>, delta: u64) -> (Option<Timer>, bool) {
    match entry {
        None => (Some(window_timer()), false),
        Some(t) => {
            let next = t.ticked(delta);
            if next.finished {
                (None, true)
            } else {
                (Some(next), false)
            }
        },
    }
}

/// Hit points after taking `amount` damage: floored at zero, and never above
/// the maximum.
pub open spec fn damaged(h: Health, amount: u32) -> Health {
    let c: u32 = if h.current > amount { (h.current - amount) as u32 } else { 0 };
    Health { max: h.max, current: if c > h.max { h.max } else { c } }
}

/// The window map with the entry of `source` set to `entry` (or removed).
pub open spec fn with_entry(m: Map<EntityId, Timer>, source: EntityId, entry: Option<Timer>) -> Map<
    EntityId,
    Timer,
> {
    match entry {
        Some(t) => m.insert(source, t),
        None => m.remove(source),
    }
}

/// The timer that the map holds for `source`, if any.
pub open spec fn entry_of(m: Map<EntityId, Timer>, source: EntityId) -> Option<Timer> {
    if m.contains_key(source) {
        Some(m[source])
    } else {
        None
    }
}

/// The effect of one collision event on the registry and on the death events
/// emitted so far in this pass.
///
/// The event counts when its collider carries damage and its obstacle carries
/// health and an invincibility window, and the collider is not owned by the
/// obstacle. A victim left at zero by a landed hit gets one death event,
/// unless one was already emitted for it in this pass.
pub open spec fn damage_step(
    w: Seq<RecordView>,
    deaths: Seq<DeathEvent>,
    ev: CollisionEvent,
    delta: u64,
) -> (Seq<RecordView>, Seq<DeathEvent>) {
    match (index_of(w, ev.collider), index_of(w, ev.obstacle)) {
        (Some(di), Some(vi)) => {
            let src = w[di];
            let victim = w[vi];
            if src.damage is Some && victim.health is Some && victim.window is Some && src.owner
                != Some(victim.id) {
                let m = victim.window->0;
                let (next, lands) = debounce(entry_of(m, src.id), delta);
                let h = if lands {
                    damaged(victim.health->0, src.damage->0)
                } else {
                    victim.health->0
                };
                let nv = RecordView { health: Some(h), window: Some(with_entry(m, src.id, next)), ..victim };
                let dies = lands && h.current == 0 && !deaths.contains(DeathEvent { entity: victim.id });
                (w.update(vi, nv), if dies {
                    deaths.push(DeathEvent { entity: victim.id })
                } else {
                    deaths
                })
            } else {
                (w, deaths)
            }
        },
        _ => (w, deaths),
    }
}

/// All collision events of a frame, in order.
pub open spec fn damage_pass(w: Seq<RecordView>, events: Seq<CollisionEvent>, delta: u64) -> (
    Seq<RecordView>,
    Seq<DeathEvent>,
)
    decreases events.len(),
{
    if events.len() == 0 {
        (w, Seq::empty())
    } else {
        let (w1, d1) = damage_pass(w, events.drop_last(), delta);
        damage_step(w1, d1, events.last(), delta)
    }
}

/// Repeated hits of one source on one victim, one per frame, starting from
/// the timer `entry`: the timer left at the end, and for each hit whether it
/// landed. `deltas[i]` is the length of the frame of hit `i`.
pub open spec fn debounce_run(entry: Option<Timer>, deltas: Seq<u64>) -> (Option<Timer>, Seq<bool>)
    decreases deltas.len(),
{
    if deltas.len() == 0 {
        (entry, Seq::empty())
    } else {
        let (e1, flags) = debounce_run(entry, deltas.drop_last());
        let (e2, lands) = debounce(e1, deltas.last());
        (e2, flags.push(lands))
    }
}

/// While the window has not elapsed, the source's timer is the fresh window
/// timer ticked by every frame after the first.
proof fn lemma_window_running(deltas: Seq<u64>, k: int)
    requires
        1 <= k <= deltas.len(),
        total(deltas.subrange(1, k)) < INVINCIBILITY_NS,
    ensures
        debounce_run(None, deltas.take(k)).0 == Some(ticked_all(window_timer(), deltas.subrange(1, k))),
        debounce_run(None, deltas.take(k)).1.len() == k,
        !debounce_run(None, deltas.take(k)).1.last(),
    decreases k,
{
    let t0 = window_timer();
    if k == 1 {
        assert(deltas.take(1).drop_last() =~= Seq::<u64>::empty());
        assert(deltas.subrange(1, 1) =~= Seq::<u64>::empty());
        assert(debounce_run(None, Seq::<u64>::empty()) == (None::<Timer>, Seq::<bool>::empty()));
        assert(debounce_run(None, deltas.take(1)).1 =~= seq![false]);
    } else {
        let prev = deltas.subrange(1, k - 1);
        let cur = deltas.subrange(1, k);
        assert(cur.drop_last() =~= prev);
        assert(deltas.take(k).drop_last() =~= deltas.take(k - 1));
        assert(total(cur) == total(prev) + cur.last() as nat);
        lemma_window_running(deltas, k - 1);
        lemma_one_shot_finishes(INVINCIBILITY_NS, prev);
        lemma_one_shot_finishes(INVINCIBILITY_NS, cur);
        assert(ticked_all(t0, cur) == ticked_all(t0, prev).ticked(cur.last()));
        assert(cur.last() == deltas.take(k).last());
    }
}

/// A source's first hit on a victim only opens the invincibility window and
/// deals no damage; while the window runs its hits deal none either; the
/// first hit on a frame at which the window has elapsed lands.
///
/// `deltas` are the lengths of consecutive frames with one hit each, the
/// first of them the frame of the first hit. The last hit lands exactly when
/// the frames after the first add up to the window while those before the
/// last did not yet.
pub proof fn lemma_first_hit_only_opens_window(deltas: Seq<u64>)
    requires
        deltas.len() >= 1,
    ensures
        deltas.len() == 1 ==> !debounce_run(None, deltas).1.last(),
        deltas.len() >= 2 && total(deltas.subrange(1, deltas.len() - 1)) < INVINCIBILITY_NS ==> (
        debounce_run(None, deltas).1.last() <==> total(deltas.subrange(1, deltas.len() as int))
            >= INVINCIBILITY_NS),
{
    let n = deltas.len() as int;
    assert(deltas.take(n) =~= deltas);
    if n == 1 {
        lemma_window_running(deltas, 1);
    } else if total(deltas.subrange(1, n - 1)) < INVINCIBILITY_NS {
        let prev = deltas.subrange(1, n - 1);
        let cur = deltas.subrange(1, n);
        assert(cur.drop_last() =~= prev);
        assert(deltas.drop_last() =~= deltas.take(n - 1));
        lemma_window_running(deltas, n - 1);
        lemma_one_shot_finishes(INVINCIBILITY_NS, cur);
        assert(ticked_all(window_timer(), cur) == ticked_all(window_timer(), prev).ticked(
            cur.last(),
        ));
    }
}

impl Health {
    pub fn new(max: u32, current: u32) -> (h: Health)
        ensures
            h == (Health { max, current }),
    {
        Health { max, current }
    }

    /// Hit points after taking `amount` damage.
    pub fn take_damage(self, amount: u32) -> (h: Health)
        ensures
            h == damaged(self, amount),
            h.wf(),
    {
        let c: u32 = if self.current > amount { self.current - amount } else { 0 };
        Health { max: self.max, current: if c > self.max { self.max } else { c } }
    }
}

impl World {
    /// Resolves the frame's collision events into damage, in order, and
    /// returns the death events this produced.
    pub fn collision_damage(&mut self, events: &Vec<CollisionEvent>, delta: u64) -> (deaths: Vec<
        DeathEvent,
    >)
        requires
            old(self).wf(),
        ensures
            final(self).wf(),
            (final(self)@, deaths@) == damage_pass(old(self)@, events@, delta),
    {
        let mut deaths: Vec<DeathEvent> = Vec::new();
        let mut i: usize = 0;
        assert(events@.take(0) =~= Seq::<CollisionEvent>::empty());
        while i < events.len()
            invariant
                i <= events@.len(),
                self.wf(),
                (self@, deaths@) == damage_pass(old(self)@, events@.take(i as int), delta),
            decreases events@.len() - i,
        {
            let ev = events[i];
            self.damage_event(&mut deaths, ev, delta);
            assert(events@.take(i + 1).drop_last() =~= events@.take(i as int));
            i = i + 1;
        }
        assert(events@.take(events@.len() as int) =~= events@);
        deaths
    }

    fn damage_event(&mut self, deaths: &mut Vec<DeathEvent>, ev: CollisionEvent, delta: u64)
        requires
            old(self).wf(),
        ensures
            final(self).wf(),
            (final(self)@, final(deaths)@) == damage_step(old(self)@, old(deaths)@, ev, delta),
    {
        let di = match self.find(ev.collider) {
            Some(d) => d,
            None => return ,
        };
        let vi = match self.find(ev.obstacle) {
            Some(v) => v,
            None => return ,
        };
        let amount = match self.entities[di].damage {
            Some(a) => a,
            None => return ,
        };
        let src_id = self.entities[di].id;
        let victim_id = self.entities[vi].id;
        let health = match self.entities[vi].health {
            Some(h) => h,
            None => return ,
        };
        if self.entities[vi].window.is_none() {
            return ;
        }
        match self.entities[di].owner {
            Some(o) => {
                if o == victim_id {
                    return ;
                }
            },
            None => {},
        }
        let ghost w0 = self@;
        let ghost m0 = w0[vi as int].window->0;
        let mut window = self.entities[vi].window.take().unwrap();
        assert(window.damage_sources@ == m0);
        let ghost outcome = debounce(entry_of(m0, src_id), delta);
        let lands = match window.damage_sources.remove(&src_id) {
            Some(t) => {
                assert(entry_of(m0, src_id) == Some(t));
                let mut t = t;
                t.tick(delta);
                if t.finished() {
                    assert(window.damage_sources@ =~= with_entry(m0, src_id, outcome.0));
                    true
                } else {
                    window.damage_sources.insert(src_id, t);
                    assert(window.damage_sources@ =~= with_entry(m0, src_id, outcome.0));
                    false
                }
            },
            None => {
                assert(entry_of(m0, src_id) == None::<Timer>);
                window.damage_sources.insert(src_id, Timer::new(INVINCIBILITY_NS, false));
                assert(window.damage_sources@ =~= with_entry(m0, src_id, outcome.0));
                false
            },
        };
        assert(lands == outcome.1);
        let h = if lands {
            health.take_damage(amount)
        } else {
            health
        };
        self.entities[vi].health = Some(h);
        self.entities[vi].window = Some(window);
        let ghost nv = RecordView {
            health: Some(h),
            window: Some(window.damage_sources@),
            ..w0[vi as int]
        };
        assert(self@ =~= w0.update(vi as int, nv));
        assert(index_of(w0, ev.collider) == Some(di as int));
        assert(index_of(w0, ev.obstacle) == Some(vi as int));
        if lands && h.current == 0 && !has_death(deaths, victim_id) {
            deaths.push(DeathEvent { entity: victim_id });
        }
    }
}

} // verus!
