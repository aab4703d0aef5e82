use vstd::prelude::*;

verus! {

/// One countdown step: decrement, clamped at zero.
pub open spec fn ticked(v: u8) -> u8 {
    if v > 0 {
        (v - 1) as u8
    } else {
        0
    }
}

/// The register after `k` countdown steps.
pub open spec fn ticked_n(v: u8, k: nat) -> u8
    decreases k,
{
    if k == 0 {
        v
    } else {
        ticked(ticked_n(v, (k - 1) as nat))
    }
}

/// The countdown law: after any number of paced steps the register holds
/// its value less the number of steps, clamped at zero -- it never wraps
/// below zero and never moves by more than one per step.
pub proof fn lemma_timer_countdown(v: u8, k: nat)
    ensures
        ticked_n(v, k) == if v >= k {
            (v - k) as u8
        } else {
            0
        },
    decreases k,
{
    if k > 0 {
        lemma_timer_countdown(v, (k - 1) as nat);
    }
}

/// The delay timer: an 8-bit register that its own paced agent decrements
/// toward zero while the CPU reads and writes it.
pub struct DelayTimer {
    pub value: u8,
}

impl DelayTimer {
    pub fn new() -> (r: DelayTimer)
        ensures
            r.value == 0,
    {
        DelayTimer { value: 0 }
    }

    pub fn get_value(&self) -> (r: u8)
        ensures
            r == self.value,
    {
        self.value
    }

    pub fn set_value(&mut self, val: u8)
        ensures
            final(self).value == val,
    {
        self.value = val;
    }

    /// One paced tick: decrement, clamped at zero.
    pub fn tick(&mut self)
        ensures
            final(self).value == ticked(old(self).value),
    {
        if self.value > 0 {
            self.value = self.value - 1;
        }
    }
}

/// The sound timer: the same countdown register; while it is above zero the
/// host's tone generator is told to sound.
pub struct SoundTimer {
    pub value: u8,
}

impl SoundTimer {
    pub fn new() -> (r: SoundTimer)
        ensures
            r.value == 0,
    {
        SoundTimer { value: 0 }
    }

    pub fn set_value(&mut self, val: u8)
        ensures
            final(self).value == val,
    {
        self.value = val;
    }

    /// One paced tick: decrement, clamped at zero, and report whether the
    /// tone is to sound afterwards.
    pub fn tick(&mut self) -> (tone_on: bool)
        ensures
            final(self).value == ticked(old(self).value),
            tone_on == (final(self).value > 0),
    {
        if self.value > 0 {
            self.value = self.value - 1;
        }
        self.value > 0
    }
}

} // verus!
