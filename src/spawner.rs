use vstd::prelude::*;

use crate::timer::Timer;

verus! {

/// The most enemies one completion of the spawn timer brings in.
pub const MAX_SPAWN_BATCH: usize = 30;

/// Keeps the enemy population topped up: each time the timer completes,
/// enough enemies are spawned to reach `desired_amount`, at most
/// [`MAX_SPAWN_BATCH`] at once.
#[derive(Clone, Copy, Debug, PartialEq, Eq, Structural)]
pub struct EnemySpawnConfig {
    pub timer: Timer,
    pub desired_amount: usize,
}

/// How many enemies to spawn when the population is `live` and the target
/// `desired`.
pub open spec fn batch_size(desired: usize, live: usize) -> usize {
    if desired > live {
        let deficit = (desired - live) as usize;
        if deficit > MAX_SPAWN_BATCH {
            MAX_SPAWN_BATCH
        } else {
            deficit
        }
    } else {
        0
    }
}

impl EnemySpawnConfig {
    pub fn new(timer: Timer, desired_amount: usize) -> (c: EnemySpawnConfig)
        ensures
            c == (EnemySpawnConfig { timer, desired_amount }),
    {
        EnemySpawnConfig { timer, desired_amount }
    }

    /// Advances the spawn timer by `delta` nanoseconds and returns how many
    /// enemies to spawn now, given that `live` enemies exist.
    ///
    /// Nothing is spawned unless the timer completed on this tick; then the
    /// batch is the deficit, capped at [`MAX_SPAWN_BATCH`], so it never
    /// takes the population past the target.
    pub fn spawn_new_enemies(&mut self, delta: u64, live: usize) -> (n: usize)
        ensures
            final(self).timer == old(self).timer.ticked(delta),
            final(self).desired_amount == old(self).desired_amount,
            n == (if final(self).timer.finished {
                batch_size(old(self).desired_amount, live)
            } else {
                0
            }),
            n <= MAX_SPAWN_BATCH,
            n > 0 ==> live + n <= old(self).desired_amount,
    {
        self.timer.tick(delta);
        if self.timer.finished() && self.desired_amount > live {
            let deficit = self.desired_amount - live;
            if deficit > MAX_SPAWN_BATCH {
                MAX_SPAWN_BATCH
            } else {
                deficit
            }
        } else {
            0
        }
    }
}

} // verus!
