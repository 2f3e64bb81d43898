//! A fixed-duration countdown, in the two modes the simulation needs: a
//! one-shot timer that clamps at its duration (recording window) and a
//! repeating timer that wraps around (playback loop, reset countdown).

use vstd::prelude::*;

verus! {

/// Time is measured in integer milliseconds throughout the simulation.
pub const MILLIS_PER_SEC: u64 = 1000;

/// A countdown over a fixed duration, advanced by explicit deltas.
#[derive(Clone, Copy, PartialEq, Eq, Structural, Debug)]
pub struct Timer {
    /// Total duration of one cycle, in milliseconds. Always positive.
    pub duration: u64,
    /// Time elapsed in the current cycle, in milliseconds.
    /// At most `duration` for a one-shot timer, strictly below it when repeating.
    pub elapsed: u64,
    /// Whether the timer wraps around on completion instead of clamping.
    pub repeating: bool,
}

impl Timer {
    /// A timer is valid when its duration is positive and its elapsed time
    /// has not run past the cycle.
    pub open spec fn wf(self) -> bool {
        &&& self.duration >= 1
        &&& if self.repeating {
                self.elapsed < self.duration
            } else {
                self.elapsed <= self.duration
            }
    }

    pub fn new(duration: u64, repeating: bool) -> (t: Timer)
        requires
            duration >= 1,
        ensures
            t.wf(),
            t.duration == duration,
            t.elapsed == 0,
            t.repeating == repeating,
    {
        Timer { duration, elapsed: 0, repeating }
    }

    /// Advance the timer by `delta` milliseconds. Returns whether the cycle
    /// completed during this tick. A one-shot timer clamps at its duration;
    /// a repeating timer wraps the overshoot around.
    pub fn tick(&mut self, delta: u64) -> (completed: bool)
        requires
            old(self).wf(),
        ensures
            final(self).wf(),
            final(self).duration == old(self).duration,
            final(self).repeating == old(self).repeating,
            completed == (old(self).elapsed + delta >= old(self).duration),
            !old(self).repeating ==> final(self).elapsed
                == vstd::math::min((old(self).elapsed + delta) as int, old(self).duration as int),
            old(self).repeating ==> final(self).elapsed
                == (old(self).elapsed + delta) as int % old(self).duration as int,
    {
        let headroom = self.duration - self.elapsed;
        if delta >= headroom {
            if self.repeating {
                let over = delta - headroom;
                let wrapped = over % self.duration;
                proof {
                    vstd::arithmetic::div_mod::lemma_mod_add_multiples_vanish(
                        over as int,
                        self.duration as int,
                    );
                }
                self.elapsed = wrapped;
            } else {
                self.elapsed = self.duration;
            }
            true
        } else {
            proof {
                if self.repeating {
                    vstd::arithmetic::div_mod::lemma_small_mod(
                        (self.elapsed + delta) as nat,
                        self.duration as nat,
                    );
                }
            }
            self.elapsed = self.elapsed + delta;
            false
        }
    }

    /// Milliseconds left before the current cycle completes.
    pub fn remaining(&self) -> (r: u64)
        requires
            self.wf(),
        ensures
            r == self.duration - self.elapsed,
    {
        self.duration - self.elapsed
    }
}

/// Period of the level-reset countdown shown to the player, in milliseconds.
pub const RESET_PERIOD_MS: u64 = 5000;

/// The repeating countdown behind the on-screen reset indicator.
#[derive(Clone, Copy, PartialEq, Eq, Structural, Debug)]
pub struct ResetConfig {
    pub timer: Timer,
}

impl ResetConfig {
    pub open spec fn wf(self) -> bool {
        &&& self.timer.wf()
        &&& self.timer.duration == RESET_PERIOD_MS
        &&& self.timer.repeating
    }
}

/// The whole seconds the reset indicator currently displays.
#[derive(Clone, Copy, PartialEq, Eq, Structural, Debug)]
pub struct ResetText {
    pub seconds: u64,
}

/// Initial state of the reset indicator, before any tick has elapsed.
pub fn setup_text() -> (t: ResetText)
    ensures
        t.seconds == 10,
{
    ResetText { seconds: 10 }
}

/// Advance the reset countdown by one frame and refresh the displayed
/// number of whole seconds remaining in the cycle.
pub fn update_reset(config: &mut ResetConfig, text: &mut ResetText, delta: u64)
    requires
        old(config).wf(),
    ensures
        final(config).wf(),
        final(config).timer == (Timer {
            elapsed: ((old(config).timer.elapsed + delta) as int
                % old(config).timer.duration as int) as u64,
            ..old(config).timer
        }),
        final(text).seconds
            == final(config).timer.remaining_spec() / (MILLIS_PER_SEC as int),
{
    config.timer.tick(delta);
    let remaining = config.timer.remaining();
    text.seconds = remaining / MILLIS_PER_SEC;
}

impl Timer {
    /// Spec twin of `remaining`.
    pub open spec fn remaining_spec(self) -> int {
        self.duration - self.elapsed
    }
}

} // verus!
