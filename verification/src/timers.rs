use vstd::prelude::*;

verus! {

/// The delay/sound timer pair.  Both counters saturate at zero and are
/// decremented once per call of `tick`, driven by the external 60 Hz clock,
/// independently of instruction execution.
#[derive(Clone, Copy, PartialEq, Eq, Structural, Debug)]
pub struct Timers {
    pub delay: u8,
    pub sound: u8,
}

/// One 60 Hz tick of a single counter: decrement if nonzero, else stay at
/// zero.
pub open spec fn ticked(v: u8) -> u8 {
    if v > 0 {
        (v - 1) as u8
    } else {
        0u8
    }
}

impl Timers {
    /// Both timers start at zero.
    pub fn new() -> (r: Timers)
        ensures
            r.delay == 0u8,
            r.sound == 0u8,
    {
        Timers { delay: 0, sound: 0 }
    }

    /// Decrement each nonzero counter by one; a zero counter stays at zero
    /// and never wraps around.
    pub fn tick(&mut self)
        ensures
            final(self).delay == ticked(old(self).delay),
            final(self).sound == ticked(old(self).sound),
    {
        if self.delay > 0 {
            self.delay = self.delay - 1;
        }
        if self.sound > 0 {
            self.sound = self.sound - 1;
        }
    }

    /// Current delay counter, read by the Fx07 opcode.
    pub fn delay_value(&self) -> (r: u8)
        ensures
            r == self.delay,
    {
        self.delay
    }

    /// Current sound counter, read by the audio collaborator.
    pub fn sound_value(&self) -> (r: u8)
        ensures
            r == self.sound,
    {
        self.sound
    }

    /// Set the delay counter, used by the Fx15 opcode.
    pub fn set_delay(&mut self, v: u8)
        ensures
            final(self).delay == v,
            final(self).sound == old(self).sound,
    {
        self.delay = v;
    }

    /// Set the sound counter, used by the Fx18 opcode.
    pub fn set_sound(&mut self, v: u8)
        ensures
            final(self).sound == v,
            final(self).delay == old(self).delay,
    {
        self.sound = v;
    }
}

/// A timer that has reached zero stays at zero under any number of further
/// ticks: one tick of a zero counter yields zero again.
pub proof fn lemma_tick_monotonic_floor(v: u8)
    requires
        v == 0u8,
    ensures
        ticked(v) == 0u8,
{
}

} // verus!
