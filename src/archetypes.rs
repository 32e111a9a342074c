use vstd::prelude::*;

use crate::world::{bare_record, EntityRecord, Health, InvincibilityWindow, RecordView};
use crate::EntityId;

verus! {

/// The record of an enemy: 1 hit point, 1 contact damage, a drop of 1
/// experience on death, solid, with an empty invincibility window.
pub open spec fn enemy_of(id: EntityId) -> RecordView {
    RecordView {
        health: Some(Health { max: 1, current: 1 }),
        damage: Some(1),
        window: Some(Map::empty()),
        drop_exp: Some(1),
        enemy: true,
        solid: true,
        ..bare_record(id)
    }
}

/// The record of the player: 100 of 100 hit points, no experience yet,
/// solid, with an empty invincibility window.
pub open spec fn player_of(id: EntityId) -> RecordView {
    RecordView {
        health: Some(Health { max: 100, current: 100 }),
        experience: Some(0),
        window: Some(Map::empty()),
        player: true,
        solid: true,
        ..bare_record(id)
    }
}

/// The record of an experience pickup carrying `amount`.
pub open spec fn pickup_of(id: EntityId, amount: u32) -> RecordView {
    RecordView { experience: Some(amount), pickup: true, ..bare_record(id) }
}

pub fn enemy(id: EntityId) -> (r: EntityRecord)
    ensures
        r@ == enemy_of(id),
{
    let mut r = EntityRecord::new(id);
    r.health = Some(Health { max: 1, current: 1 });
    r.damage = Some(1);
    r.window = Some(InvincibilityWindow::new());
    r.drop_exp = Some(1);
    r.enemy = true;
    r.solid = true;
    r
}

pub fn player(id: EntityId) -> (r: EntityRecord)
    ensures
        r@ == player_of(id),
{
    let mut r = EntityRecord::new(id);
    r.health = Some(Health { max: 100, current: 100 });
    r.experience = Some(0);
    r.window = Some(InvincibilityWindow::new());
    r.player = true;
    r.solid = true;
    r
}

pub fn exp_pickup(id: EntityId, amount: u32) -> (r: EntityRecord)
    ensures
        r@ == pickup_of(id, amount),
{
    let mut r = EntityRecord::new(id);
    r.experience = Some(amount);
    r.pickup = true;
    r
}

} // verus!
