use vstd::prelude::*;

verus! {

/// One period of the delay timer, 1/60 s, counted in thirds of a
/// millisecond so that it is a whole number.
pub const TIMER_PERIOD: u64 = 50;

/// Wall-clock time in thirds of a millisecond after adding `delta_ms`
/// milliseconds, saturating at the largest `u64`.
pub open spec fn accumulate(elapsed: nat, delta_ms: nat) -> nat {
    if elapsed + 3 * delta_ms > u64::MAX {
        u64::MAX as nat
    } else {
        elapsed + 3 * delta_ms
    }
}

/// Accumulates wall-clock time and says when a delay-timer period is due;
/// at most one period is consumed per step of the run loop.
pub struct Pacer {
    elapsed: u64,
}

impl View for Pacer {
    type V = nat;

    closed spec fn view(&self) -> nat {
        self.elapsed as nat
    }
}

impl Pacer {
    /// No time accumulated yet.
    pub fn new() -> (r: Pacer)
        ensures
            r@ == 0,
    {
        Pacer { elapsed: 0 }
    }

    /// Adds `delta_ms` milliseconds. Returns whether a full timer period has
    /// accumulated; if so, one period is taken off.
    pub fn advance(&mut self, delta_ms: u64) -> (tick: bool)
        ensures
            tick == (accumulate(old(self)@, delta_ms as nat) >= TIMER_PERIOD),
            final(self)@ == if tick {
                (accumulate(old(self)@, delta_ms as nat) - TIMER_PERIOD) as nat
            } else {
                accumulate(old(self)@, delta_ms as nat)
            },
    {
        let scaled = if delta_ms > u64::MAX / 3 {
            u64::MAX
        } else {
            delta_ms * 3
        };
        self.elapsed = self.elapsed.saturating_add(scaled);
        if self.elapsed >= TIMER_PERIOD {
            self.elapsed = self.elapsed - TIMER_PERIOD;
            true
        } else {
            false
        }
    }
}

} // verus!
