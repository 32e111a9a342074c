use std::collections::HashMap;
use vstd::prelude::*;

use crate::timer::Timer;
use crate::EntityId;

verus! {

broadcast use vstd::std_specs::hash::group_hash_axioms;

/// Hit points of an entity.
#[derive(Clone, Copy, Debug, PartialEq, Eq, Structural)]
pub struct Health {
    pub max: u32,
    pub current: u32,
}

impl Health {
    pub open spec fn wf(self) -> bool {
        self.current <= self.max
    }
}

/// Per-source damage debounce of one victim: a running timer for each
/// damaging entity whose hits are currently ignored.
#[derive(Debug)]
pub struct InvincibilityWindow {
    pub damage_sources: HashMap<EntityId, Timer>,
}

impl InvincibilityWindow {
    pub fn new() -> (w: InvincibilityWindow)
        ensures
            w.damage_sources@ == Map::<EntityId, Timer>::empty(),
    {
        InvincibilityWindow { damage_sources: HashMap::new() }
    }
}

/// One entity of the registry: its id and the components attached to it.
/// A component that is absent is `None` (or `false` for a marker).
#[derive(Debug)]
pub struct EntityRecord {
    pub id: EntityId,
    pub health: Option<Health>,
    /// Damage dealt on contact.
    pub damage: Option<u32>,
    /// Weak back-reference to the entity that created this one.
    pub owner: Option<EntityId>,
    pub window: Option<InvincibilityWindow>,
    /// Remaining number of hits a projectile can make.
    pub punchthrough: Option<u32>,
    /// Accumulated experience of a player, or the payload of a pickup.
    pub experience: Option<u32>,
    /// Experience left behind when this entity dies.
    pub drop_exp: Option<u32>,
    pub lifetime: Option<Timer>,
    pub player: bool,
    pub enemy: bool,
    pub bullet: bool,
    pub pickup: bool,
    pub solid: bool,
}

/// The mathematical value of an [`EntityRecord`]: the invincibility window
/// seen as a map from damage source to its timer.
pub struct RecordView {
    pub id: EntityId,
    pub health: Option<Health>,
    pub damage: Option<u32>,
    pub owner: Option<EntityId>,
    pub window: Option<Map<EntityId, Timer>>,
    pub punchthrough: Option<u32>,
    pub experience: Option<u32>,
    pub drop_exp: Option<u32>,
    pub lifetime: Option<Timer>,
    pub player: bool,
    pub enemy: bool,
    pub bullet: bool,
    pub pickup: bool,
    pub solid: bool,
}

impl View for EntityRecord {
    type V = RecordView;

    open spec fn view(&self) -> RecordView {
        RecordView {
            id: self.id,
            health: self.health,
            damage: self.damage,
            owner: self.owner,
            window: match self.window {
                Some(w) => Some(w.damage_sources@),
                None => None,
            },
            punchthrough: self.punchthrough,
            experience: self.experience,
            drop_exp: self.drop_exp,
            lifetime: self.lifetime,
            player: self.player,
            enemy: self.enemy,
            bullet: self.bullet,
            pickup: self.pickup,
            solid: self.solid,
        }
    }
}

impl EntityRecord {
    /// A record with the given id and no components.
    pub fn new(id: EntityId) -> (r: EntityRecord)
        ensures
            r@ == bare_record(id),
    {
        EntityRecord {
            id,
            health: None,
            damage: None,
            owner: None,
            window: None,
            punchthrough: None,
            experience: None,
            drop_exp: None,
            lifetime: None,
            player: false,
            enemy: false,
            bullet: false,
            pickup: false,
            solid: false,
        }
    }
}

pub open spec fn bare_record(id: EntityId) -> RecordView {
    RecordView {
        id,
        health: None,
        damage: None,
        owner: None,
        window: None,
        punchthrough: None,
        experience: None,
        drop_exp: None,
        lifetime: None,
        player: false,
        enemy: false,
        bullet: false,
        pickup: false,
        solid: false,
    }
}

/// No two records share an id.
pub open spec fn ids_unique(s: Seq<RecordView>) -> bool {
    forall|i: int, j: int| 0 <= i < j < s.len() ==> s[i].id != s[j].id
}

/// Every hit-point record keeps `current <= max`.
pub open spec fn health_valid(s: Seq<RecordView>) -> bool {
    forall|i: int| 0 <= i < s.len() && (#[trigger] s[i]).health is Some ==> s[i].health->0.wf()
}

/// Where the live entity `id` sits in the registry, if it is there.
pub open spec fn index_of(s: Seq<RecordView>, id: EntityId) -> Option<int> {
    if exists|i: int| 0 <= i < s.len() && s[i].id == id {
        Some(choose|i: int| 0 <= i < s.len() && s[i].id == id)
    } else {
        None
    }
}

/// How many records carry the enemy marker.
pub open spec fn enemy_count(s: Seq<RecordView>) -> nat
    decreases s.len(),
{
    if s.len() == 0 {
        0
    } else {
        enemy_count(s.drop_last()) + if s.last().enemy {
            1nat
        } else {
            0nat
        }
    }
}

/// The registry of live entities for one frame of the simulation.
pub struct World {
    pub entities: Vec<EntityRecord>,
}

impl View for World {
    type V = Seq<RecordView>;

    open spec fn view(&self) -> Seq<RecordView> {
        self.entities@.map_values(|r: EntityRecord| r@)
    }
}

impl World {
    /// Ids are unique and every health record is in range.
    pub open spec fn wf(&self) -> bool {
        ids_unique(self@) && health_valid(self@)
    }

    pub fn new() -> (w: World)
        ensures
            w@ == Seq::<RecordView>::empty(),
            w.wf(),
    {
        let w = World { entities: Vec::new() };
        assert(w@ =~= Seq::<RecordView>::empty());
        w
    }

    /// Adds a record to the registry. It is refused, and the registry left as
    /// it was, when its id is already taken or its hit points exceed their
    /// maximum.
    pub fn spawn(&mut self, r: EntityRecord) -> (added: bool)
        requires
            old(self).wf(),
        ensures
            final(self).wf(),
            added == (index_of(old(self)@, r.id) is None && (r.health matches Some(h) ==> h.wf())),
            added ==> final(self)@ == old(self)@.push(r@),
            !added ==> final(self)@ == old(self)@,
    {
        match r.health {
            Some(h) => {
                if h.current > h.max {
                    return false;
                }
            },
            None => {},
        }
        if self.find(r.id).is_some() {
            return false;
        }
        let ghost w0 = self@;
        let ghost rv = r@;
        self.entities.push(r);
        assert(self@ =~= w0.push(rv));
        true
    }

    /// Number of live enemies.
    pub fn enemy_count(&self) -> (n: usize)
        ensures
            n == enemy_count(self@),
    {
        let mut n: usize = 0;
        let mut i: usize = 0;
        assert(self@.take(0) =~= Seq::<RecordView>::empty());
        while i < self.entities.len()
            invariant
                i <= self@.len(),
                self@.len() == self.entities@.len(),
                n == enemy_count(self@.take(i as int)),
                n <= i,
            decreases self@.len() - i,
        {
            assert(self@.take(i + 1).drop_last() =~= self@.take(i as int));
            if self.entities[i].enemy {
                n = n + 1;
            }
            i = i + 1;
        }
        assert(self@.take(self@.len() as int) =~= self@);
        n
    }

    /// Whether the entity `id` is in the registry.
    pub fn contains(&self, id: EntityId) -> (r: bool)
        requires
            self.wf(),
        ensures
            r == (index_of(self@, id) is Some),
    {
        self.find(id).is_some()
    }

    /// Hit points of the entity `id`, if it is there and has any.
    pub fn health_of(&self, id: EntityId) -> (r: Option<Health>)
        requires
            self.wf(),
        ensures
            r == (match index_of(self@, id) {
                Some(i) => self@[i].health,
                None => None,
            }),
    {
        match self.find(id) {
            Some(i) => self.entities[i].health,
            None => None,
        }
    }

    /// Experience of the entity `id`, if it is there and has any.
    pub fn experience_of(&self, id: EntityId) -> (r: Option<u32>)
        requires
            self.wf(),
        ensures
            r == (match index_of(self@, id) {
                Some(i) => self@[i].experience,
                None => None,
            }),
    {
        match self.find(id) {
            Some(i) => self.entities[i].experience,
            None => None,
        }
    }

    /// Remaining punch-through of the entity `id`, if it is there and has any.
    pub fn punchthrough_of(&self, id: EntityId) -> (r: Option<u32>)
        requires
            self.wf(),
        ensures
            r == (match index_of(self@, id) {
                Some(i) => self@[i].punchthrough,
                None => None,
            }),
    {
        match self.find(id) {
            Some(i) => self.entities[i].punchthrough,
            None => None,
        }
    }

    /// Whether the entity `victim` holds a running debounce timer for hits
    /// from `source`.
    pub fn is_debounced(&self, victim: EntityId, source: EntityId) -> (r: bool)
        requires
            self.wf(),
        ensures
            r == (match index_of(self@, victim) {
                Some(i) => self@[i].window matches Some(m) && m.contains_key(source),
                None => false,
            }),
    {
        match self.find(victim) {
            Some(i) => match &self.entities[i].window {
                Some(w) => w.damage_sources.contains_key(&source),
                None => false,
            },
            None => false,
        }
    }

    /// Position of the entity `id` in the registry.
    pub fn find(&self, id: EntityId) -> (r: Option<usize>)
        requires
            ids_unique(self@),
        ensures
            r == (match index_of(self@, id) {
                Some(i) => Some(i as usize),
                None => None::<usize>,
            }),
            r matches Some(i) ==> i < self@.len() && self@[i as int].id == id,
    {
        let mut i: usize = 0;
        while i < self.entities.len()
            invariant
                i <= self@.len(),
                self@.len() == self.entities@.len(),
                ids_unique(self@),
                forall|j: int| 0 <= j < i ==> self@[j].id != id,
            decreases self@.len() - i,
        {
            if self.entities[i].id == id {
                assert(self@[i as int].id == id);
                let ghost k = choose|k: int| 0 <= k < self@.len() && self@[k].id == id;
                assert(k == i) by {
                    if k > i {
                        assert(self@[i as int].id != self@[k].id);
                    }
                }
                return Some(i);
            }
            i = i + 1;
        }
        None
    }
}

} // verus!
