//! Per-frame simulation core of a top-down arena combat game.
//!
//! The registry ([`world::World`]) holds every entity that takes part in
//! combat, with its components as plain values. A frame resolves the
//! collision events found after movement into damage with per-source
//! invincibility windows, punch-through, pickups and lifetimes, and then, in
//! a later phase, removes the dead, drops their loot and clears every window
//! entry that names them. Positions, directions and overlap tests are left to
//! the caller: the core decides on the signs of a direction and on the side of
//! an overlap.

use vstd::prelude::*;

pub mod archetypes;
pub mod cleanup;
pub mod collision;
pub mod combat;
pub mod events;
pub mod frame;
pub mod movement;
pub mod pickup;
pub mod projectile;
pub mod spawner;
pub mod timer;
pub mod world;

verus! {

/// Bit pattern of a generational entity identifier.
pub type EntityId = u64;

} // verus!
