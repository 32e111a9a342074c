use vstd::prelude::*;

use crate::events::{has_death, DeathEvent};
use crate::world::{ids_unique, index_of, RecordView, World};
use crate::EntityId;

verus! {

broadcast use vstd::std_specs::hash::group_hash_axioms;

/// A pickup to be left where a dead entity stood, carrying `amount`
/// experience.
#[derive(Clone, Copy, Debug, PartialEq, Eq, Structural)]
pub struct LootDrop {
    pub entity: EntityId,
    pub amount: u32,
}

/// The ids named by a queue of death events.
pub open spec fn dead_ids(deaths: Seq<DeathEvent>) -> Set<EntityId> {
    Set::new(|e: EntityId| deaths.contains(DeathEvent { entity: e }))
}

/// Whether `drops` already has a drop for `e`.
pub open spec fn dropped_for(drops: Seq<LootDrop>, e: EntityId) -> bool {
    exists|k: int| 0 <= k < drops.len() && drops[k].entity == e
}

/// Loot for the death events in order: one drop for each dying entity that
/// carries experience to drop, at its first death event.
pub open spec fn loot_pass(w: Seq<RecordView>, deaths: Seq<DeathEvent>) -> Seq<LootDrop>
    decreases deaths.len(),
{
    if deaths.len() == 0 {
        Seq::empty()
    } else {
        let rest = loot_pass(w, deaths.drop_last());
        let e = deaths.last().entity;
        match index_of(w, e) {
            Some(i) => {
                if w[i].drop_exp is Some && !dropped_for(rest, e) {
                    rest.push(LootDrop { entity: e, amount: w[i].drop_exp->0 })
                } else {
                    rest
                }
            },
            None => rest,
        }
    }
}

/// A record with the window entries of the dead sources taken out.
pub open spec fn forget_sources(r: RecordView, dead: Set<EntityId>) -> RecordView {
    match r.window {
        Some(m) => RecordView { window: Some(m.remove_keys(dead)), ..r },
        None => r,
    }
}

/// What the cleanup phase of a frame hands to the outside: the loot to
/// place, the entities to remove from the scene, and whether the player died.
#[derive(Debug)]
pub struct CleanupReport {
    pub loot: Vec<LootDrop>,
    pub despawned: Vec<EntityId>,
    pub player_died: bool,
}

/// Every loot drop is for a distinct entity.
pub open spec fn drops_distinct(drops: Seq<LootDrop>) -> bool {
    forall|i: int, j: int| 0 <= i < j < drops.len() ==> drops[i].entity != drops[j].entity
}

/// The records that outlive the death events, in registry order.
pub open spec fn survivors(w: Seq<RecordView>, dead: Set<EntityId>) -> Seq<RecordView>
    decreases w.len(),
{
    if w.len() == 0 {
        Seq::empty()
    } else {
        let rest = survivors(w.drop_last(), dead);
        if dead.contains(w.last().id) {
            rest
        } else {
            rest.push(w.last())
        }
    }
}

/// The ids of the records that the death events remove, in registry order.
pub open spec fn casualties(w: Seq<RecordView>, dead: Set<EntityId>) -> Seq<EntityId>
    decreases w.len(),
{
    if w.len() == 0 {
        Seq::empty()
    } else {
        let rest = casualties(w.drop_last(), dead);
        if dead.contains(w.last().id) {
            rest.push(w.last().id)
        } else {
            rest
        }
    }
}

/// Survivors are records of `w` that are not dead; casualties are ids of
/// records of `w` that are dead; and both keep the ids distinct.
pub proof fn lemma_despawn_facts(w: Seq<RecordView>, dead: Set<EntityId>)
    requires
        ids_unique(w),
    ensures
        ids_unique(survivors(w, dead)),
        forall|k: int|
            0 <= k < survivors(w, dead).len() ==> exists|i: int|
                0 <= i < w.len() && w[i] == #[trigger] survivors(w, dead)[k],
        forall|k: int|
            0 <= k < survivors(w, dead).len() ==> !dead.contains(#[trigger] survivors(w, dead)[k].id),
        forall|i: int| 0 <= i < w.len() && !dead.contains(#[trigger] w[i].id) ==> survivors(w, dead).contains(w[i]),
        forall|i: int, j: int|
            0 <= i < j < casualties(w, dead).len() ==> casualties(w, dead)[i] != casualties(w, dead)[j],
        forall|e: EntityId|
            #[trigger] casualties(w, dead).contains(e) <==> (dead.contains(e) && exists|i: int|
                0 <= i < w.len() && w[i].id == e),
    decreases w.len(),
{
    if w.len() > 0 {
        let p = w.drop_last();
        lemma_despawn_facts(p, dead);
        let last = w.last();
        let s = survivors(p, dead);
        let c = casualties(p, dead);
        assert forall|k: int| 0 <= k < s.len() implies (#[trigger] s[k]).id != last.id by {
            let i = choose|i: int| 0 <= i < p.len() && p[i] == s[k];
            assert(w[i] == p[i]);
            assert(w[i].id != w[w.len() - 1].id);
        }
        assert forall|k: int| 0 <= k < c.len() implies #[trigger] c[k] != last.id by {
            assert(c.contains(c[k]));
            let i = choose|i: int| 0 <= i < p.len() && p[i].id == c[k];
            assert(w[i] == p[i]);
            assert(w[i].id != w[w.len() - 1].id);
        }
        assert forall|i: int| 0 <= i < w.len() && !dead.contains(#[trigger] w[i].id) implies survivors(
            w,
            dead,
        ).contains(w[i]) by {
            if i < w.len() - 1 {
                assert(p[i] == w[i]);
                assert(s.contains(p[i]));
                let k = choose|k: int| 0 <= k < s.len() && s[k] == p[i];
                assert(survivors(w, dead)[k] == s[k]);
            } else {
                assert(survivors(w, dead)[s.len() as int] == w[i]);
            }
        }
        assert forall|k: int| 0 <= k < survivors(w, dead).len() implies exists|i: int|
            0 <= i < w.len() && w[i] == #[trigger] survivors(w, dead)[k] by {
            if k < s.len() {
                let i = choose|i: int| 0 <= i < p.len() && p[i] == s[k];
                assert(w[i] == p[i]);
            } else {
                assert(w[w.len() - 1] == survivors(w, dead)[k]);
            }
        }
        assert forall|e: EntityId| #[trigger] casualties(w, dead).contains(e) <==> (dead.contains(e)
            && exists|i: int| 0 <= i < w.len() && w[i].id == e) by {
            let cw = casualties(w, dead);
            if cw.contains(e) {
                let k = choose|k: int| 0 <= k < cw.len() && cw[k] == e;
                if k < c.len() {
                    assert(c[k] == e);
                    assert(c.contains(e));
                    let i = choose|i: int| 0 <= i < p.len() && p[i].id == e;
                    assert(w[i] == p[i]);
                } else {
                    assert(w[w.len() - 1].id == e);
                }
            }
            if dead.contains(e) && exists|i: int| 0 <= i < w.len() && w[i].id == e {
                let i = choose|i: int| 0 <= i < w.len() && w[i].id == e;
                if i < w.len() - 1 {
                    assert(p[i] == w[i]);
                    assert(c.contains(e));
                    let k = choose|k: int| 0 <= k < c.len() && c[k] == e;
                    assert(cw[k] == e);
                } else {
                    assert(cw[c.len() as int] == e);
                }
            }
        }
    }
}

impl World {
    /// The loot that the dying entities leave behind: at most one drop per
    /// entity, however many death events name it.
    pub fn loot_drops(&self, deaths: &Vec<DeathEvent>) -> (drops: Vec<LootDrop>)
        requires
            self.wf(),
        ensures
            drops@ == loot_pass(self@, deaths@),
            drops_distinct(drops@),
    {
        let mut drops: Vec<LootDrop> = Vec::new();
        let mut i: usize = 0;
        assert(deaths@.take(0) =~= Seq::<DeathEvent>::empty());
        while i < deaths.len()
            invariant
                i <= deaths@.len(),
                self.wf(),
                drops@ == loot_pass(self@, deaths@.take(i as int)),
                drops_distinct(drops@),
            decreases deaths@.len() - i,
        {
            let e = deaths[i].entity;
            assert(deaths@.take(i + 1).drop_last() =~= deaths@.take(i as int));
            assert(deaths@.take(i + 1).last() == deaths@[i as int]);
            match self.find(e) {
                Some(k) => {
                    match self.entities[k].drop_exp {
                        Some(amount) => {
                            let mut seen = false;
                            let mut j: usize = 0;
                            while j < drops.len()
                                invariant
                                    j <= drops@.len(),
                                    seen == exists|x: int| 0 <= x < j && drops@[x].entity == e,
                                decreases drops@.len() - j,
                            {
                                if drops[j].entity == e {
                                    seen = true;
                                }
                                j = j + 1;
                            }
                            if !seen {
                                drops.push(LootDrop { entity: e, amount });
                            }
                        },
                        None => {},
                    }
                },
                None => {},
            }
            i = i + 1;
        }
        assert(deaths@.take(deaths@.len() as int) =~= deaths@);
        drops
    }

    /// Whether any of the dying entities is the player.
    pub fn player_died(&self, deaths: &Vec<DeathEvent>) -> (r: bool)
        requires
            self.wf(),
        ensures
            r == exists|k: int|
                0 <= k < deaths@.len() && (#[trigger] index_of(self@, deaths@[k].entity)) is Some
                    && self@[index_of(self@, deaths@[k].entity)->0].player,
    {
        let mut i: usize = 0;
        while i < deaths.len()
            invariant
                i <= deaths@.len(),
                self.wf(),
                forall|k: int|
                    0 <= k < i ==> !((#[trigger] index_of(self@, deaths@[k].entity)) is Some
                        && self@[index_of(self@, deaths@[k].entity)->0].player),
            decreases deaths@.len() - i,
        {
            match self.find(deaths[i].entity) {
                Some(k) => {
                    if self.entities[k].player {
                        assert(index_of(self@, deaths@[i as int].entity) is Some);
                        return true;
                    }
                },
                None => {},
            }
            i = i + 1;
        }
        false
    }

    /// Removes every entity named by a death event, once, whatever the number
    /// of events that name it; returns the removed ids in registry order.
    pub fn despawn(&mut self, deaths: &Vec<DeathEvent>) -> (removed: Vec<EntityId>)
        requires
            old(self).wf(),
        ensures
            final(self).wf(),
            final(self)@ == survivors(old(self)@, dead_ids(deaths@)),
            removed@ == casualties(old(self)@, dead_ids(deaths@)),
    {
        let ghost w0 = self@;
        let ghost dead = dead_ids(deaths@);
        let mut removed: Vec<EntityId> = Vec::new();
        let mut i: usize = 0;
        let ghost mut j: int = 0;
        assert(w0.take(0) =~= Seq::<RecordView>::empty());
        assert(self@ =~= survivors(w0.take(0), dead) + w0.skip(0));
        while i < self.entities.len()
            invariant
                0 <= j <= w0.len(),
                dead == dead_ids(deaths@),
                self@ == survivors(w0.take(j), dead) + w0.skip(j),
                i == survivors(w0.take(j), dead).len(),
                removed@ == casualties(w0.take(j), dead),
            decreases self@.len() - i,
        {
            let ghost before = self@;
            let id = self.entities[i].id;
            assert(before[i as int] == w0[j]);
            assert(w0.take(j + 1).drop_last() =~= w0.take(j));
            assert(w0.take(j + 1).last() == w0[j]);
            if has_death(deaths, id) {
                assert(dead.contains(id));
                assert(survivors(w0.take(j + 1), dead) == survivors(w0.take(j), dead));
                let ghost records = self.entities@;
                self.entities.remove(i);
                assert(self.entities@ == records.remove(i as int));
                assert(self@ =~= before.remove(i as int));
                assert(w0.skip(j) =~= seq![w0[j]] + w0.skip(j + 1));
                removed.push(id);
                assert(self@ =~= survivors(w0.take(j + 1), dead) + w0.skip(j + 1));
            } else {
                assert(!dead.contains(id));
                assert(survivors(w0.take(j + 1), dead) == survivors(w0.take(j), dead).push(w0[j]));
                assert(self@ == before);
                assert(w0.skip(j) =~= seq![w0[j]] + w0.skip(j + 1));
                i = i + 1;
                assert(self@ =~= survivors(w0.take(j + 1), dead) + w0.skip(j + 1));
            }
            proof {
                j = j + 1;
            }
        }
        assert(w0.take(j) =~= w0);
        assert(self@ =~= survivors(w0, dead));
        proof {
            lemma_despawn_facts(w0, dead);
            assert forall|k: int| 0 <= k < self@.len() && (#[trigger] self@[k]).health is Some implies self@[k].health->0.wf() by {
                let x = choose|x: int| 0 <= x < w0.len() && w0[x] == survivors(w0, dead)[k];
            }
        }
        removed
    }

    /// The cleanup phase of a frame: the loot that the dying entities leave,
    /// whether the player is among them, their removal from the registry, and
    /// then the removal of every window entry that names one of them.
    ///
    /// However many death events name an entity, it is removed once and
    /// leaves at most one drop, and afterwards no window holds a timer keyed
    /// by it.
    pub fn cleanup(&mut self, deaths: &Vec<DeathEvent>) -> (report: CleanupReport)
        requires
            old(self).wf(),
        ensures
            final(self).wf(),
            report.loot@ == loot_pass(old(self)@, deaths@),
            drops_distinct(report.loot@),
            report.player_died == exists|k: int|
                0 <= k < deaths@.len() && (#[trigger] index_of(old(self)@, deaths@[k].entity)) is Some
                    && old(self)@[index_of(old(self)@, deaths@[k].entity)->0].player,
            report.despawned@ == casualties(old(self)@, dead_ids(deaths@)),
            forall|i: int, j: int|
                0 <= i < j < report.despawned@.len() ==> report.despawned@[i] != report.despawned@[j],
            final(self)@ == survivors(old(self)@, dead_ids(deaths@)).map_values(
                |r: RecordView| forget_sources(r, dead_ids(deaths@)),
            ),
            forall|i: int| 0 <= i < final(self)@.len() ==> !dead_ids(deaths@).contains(#[trigger] final(self)@[i].id),
            forall|i: int, e: EntityId|
                0 <= i < final(self)@.len() && final(self)@[i].window is Some && dead_ids(deaths@).contains(e)
                    ==> !(#[trigger] final(self)@[i].window->0.contains_key(e)),
    {
        let ghost w0 = self@;
        let ghost dead = dead_ids(deaths@);
        let loot = self.loot_drops(deaths);
        let player_died = self.player_died(deaths);
        let despawned = self.despawn(deaths);
        proof {
            lemma_despawn_facts(w0, dead);
        }
        let ghost w1 = self@;
        self.cleanup_invincibility_windows(deaths);
        assert forall|i: int| 0 <= i < self@.len() implies !dead.contains(#[trigger] self@[i].id) by {
            assert(self@[i].id == w1[i].id);
        }
        CleanupReport { loot, despawned, player_died }
    }

    /// Takes every dying entity out of every invincibility window, so that no
    /// window keeps a timer for a source that is gone.
    pub fn cleanup_invincibility_windows(&mut self, deaths: &Vec<DeathEvent>)
        requires
            old(self).wf(),
        ensures
            final(self).wf(),
            final(self)@ == old(self)@.map_values(|r: RecordView| forget_sources(r, dead_ids(deaths@))),
    {
        let ghost w0 = self@;
        let ghost dead = dead_ids(deaths@);
        let mut i: usize = 0;
        while i < self.entities.len()
            invariant
                i <= self@.len(),
                self@.len() == w0.len(),
                dead == dead_ids(deaths@),
                forall|j: int| 0 <= j < i ==> self@[j] == forget_sources(w0[j], dead),
                forall|j: int| i <= j < self@.len() ==> self@[j] == w0[j],
            decreases w0.len() - i,
        {
            let ghost before = self@;
            if self.entities[i].window.is_some() {
                let mut window = self.entities[i].window.take().unwrap();
                let ghost m0 = window.damage_sources@;
                let mut k: usize = 0;
                while k < deaths.len()
                    invariant
                        k <= deaths@.len(),
                        window.damage_sources@ == m0.remove_keys(dead_ids(deaths@.take(k as int))),
                    decreases deaths@.len() - k,
                {
                    let e = deaths[k].entity;
                    window.damage_sources.remove(&e);
                    assert(window.damage_sources@ =~= m0.remove_keys(dead_ids(deaths@.take(k + 1))))
                        by {
                        assert(deaths@.take(k + 1) =~= deaths@.take(k as int).push(deaths@[k as int]));
                        assert forall|x: EntityId| #[trigger] dead_ids(deaths@.take(k + 1)).contains(x)
                            <==> (dead_ids(deaths@.take(k as int)).contains(x) || x == e) by {
                            let s = deaths@.take(k as int);
                            if s.push(deaths@[k as int]).contains(DeathEvent { entity: x }) {
                                let y = choose|y: int| 0 <= y < s.len() + 1 && s.push(deaths@[k as int])[y] == DeathEvent { entity: x };
                                if y < s.len() {
                                    assert(s[y] == DeathEvent { entity: x });
                                }
                            }
                            if s.contains(DeathEvent { entity: x }) {
                                let y = choose|y: int| 0 <= y < s.len() && s[y] == DeathEvent { entity: x };
                                assert(s.push(deaths@[k as int])[y] == DeathEvent { entity: x });
                            }
                            if x == e {
                                assert(s.push(deaths@[k as int])[s.len() as int] == DeathEvent { entity: x });
                            }
                        }
                    }
                    k = k + 1;
                }
                assert(deaths@.take(deaths@.len() as int) =~= deaths@);
                assert(window.damage_sources@ =~= m0.remove_keys(dead));
                self.entities[i].window = Some(window);
                assert(self@ =~= before.update(i as int, forget_sources(w0[i as int], dead)));
            } else {
                assert(forget_sources(w0[i as int], dead) == w0[i as int]);
            }
            i = i + 1;
        }
        assert(self@ =~= w0.map_values(|r: RecordView| forget_sources(r, dead_ids(deaths@))));
    }
}

} // verus!
