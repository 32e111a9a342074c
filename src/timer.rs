use vstd::prelude::*;

verus! {

/// A countdown measured in nanoseconds of simulated time.
///
/// A one-shot timer stops at its duration and stays finished. A repeating
/// timer wraps around its duration and reports `finished` only on the ticks
/// that crossed it.
#[derive(Clone, Copy, Debug, PartialEq, Eq, Structural)]
pub struct Timer {
    pub duration: u64,
    pub elapsed: u64,
    pub repeating: bool,
    pub finished: bool,
}

impl Timer {
    /// The timer after `delta` nanoseconds have passed.
    pub open spec fn ticked(self, delta: u64) -> Timer {
        if !self.repeating && self.finished {
            self
        } else {
            let sum = self.elapsed + delta;
            let e: u64 = if sum > u64::MAX { u64::MAX } else { sum as u64 };
            let done = e >= self.duration;
            Timer {
                elapsed: if !done {
                    e
                } else if self.repeating {
                    if self.duration == 0 {
                        0
                    } else {
                        (e % self.duration) as u64
                    }
                } else {
                    self.duration
                },
                finished: done,
                ..self
            }
        }
    }

    pub fn new(duration: u64, repeating: bool) -> (t: Timer)
        ensures
            t == (Timer { duration, elapsed: 0, repeating, finished: false }),
    {
        Timer { duration, elapsed: 0, repeating, finished: false }
    }

    pub fn finished(&self) -> (r: bool)
        ensures
            r == self.finished,
    {
        self.finished
    }

    /// Advances the timer by `delta` nanoseconds; elapsed time saturates at
    /// `u64::MAX` instead of overflowing. A repeating timer of zero duration
    /// finishes on every tick and keeps no elapsed time.
    pub fn tick(&mut self, delta: u64)
        ensures
            *final(self) == old(self).ticked(delta),
    {
        if !self.repeating && self.finished {
            return;
        }
        let e = self.elapsed.saturating_add(delta);
        let done = e >= self.duration;
        if done {
            if self.repeating {
                self.elapsed = if self.duration == 0 { 0 } else { e % self.duration };
            } else {
                self.elapsed = self.duration;
            }
        } else {
            self.elapsed = e;
        }
        self.finished = done;
    }
}

/// Sum of a sequence of frame times.
pub open spec fn total(deltas: Seq<u64>) -> nat
    decreases deltas.len(),
{
    if deltas.len() == 0 {
        0
    } else {
        total(deltas.drop_last()) + deltas.last() as nat
    }
}

/// A one-shot timer ticked repeatedly.
pub open spec fn ticked_all(t: Timer, deltas: Seq<u64>) -> Timer
    decreases deltas.len(),
{
    if deltas.len() == 0 {
        t
    } else {
        ticked_all(t, deltas.drop_last()).ticked(deltas.last())
    }
}

/// A fresh one-shot timer of positive duration, ticked through any frame times, has finished
/// exactly when their total reaches its duration.
pub proof fn lemma_one_shot_finishes(duration: u64, deltas: Seq<u64>)
    requires
        duration > 0,
    ensures
        ticked_all(Timer { duration, elapsed: 0, repeating: false, finished: false }, deltas).finished
            <==> total(deltas) >= duration,
        !ticked_all(Timer { duration, elapsed: 0, repeating: false, finished: false }, deltas).finished
            ==> ticked_all(Timer { duration, elapsed: 0, repeating: false, finished: false }, deltas).elapsed
            == total(deltas),
        !ticked_all(Timer { duration, elapsed: 0, repeating: false, finished: false }, deltas).repeating,
        ticked_all(Timer { duration, elapsed: 0, repeating: false, finished: false }, deltas).duration
            == duration,
    decreases deltas.len(),
{
    if deltas.len() > 0 {
        let t0 = Timer { duration, elapsed: 0, repeating: false, finished: false };
        let prefix = deltas.drop_last();
        lemma_one_shot_finishes(duration, prefix);
        let before = ticked_all(t0, prefix);
        assert(ticked_all(t0, deltas) == before.ticked(deltas.last()));
        assert(total(deltas) == total(prefix) + deltas.last() as nat);
    }
}

} // verus!
