//! The timer subsystem: a delay counter and a sound counter, each counting
//! down once per tick while it is not zero.
//!
//! Ticks come at 60 Hz. The counters are driven from outside: whoever owns
//! them measures elapsed time, asks a `Cadence` how many ticks are due and
//! hands that number over. A counter at zero stays at zero at no cost until a
//! new value is set.

use vstd::prelude::*;

verus! {

/// Ticks per second.
pub const TIMER_HZ: u64 = 60;

/// Microseconds per second.
pub const MICROS_PER_SECOND: u64 = 1_000_000;

/// A counter after one tick: one less, unless it is already zero.
pub open spec fn tick_once(value: u8) -> u8 {
    if value > 0 {
        (value - 1) as u8
    } else {
        0
    }
}

/// A counter after `ticks` ticks, one after the other.
pub open spec fn decay(value: u8, ticks: nat) -> u8
    decreases ticks,
{
    if ticks == 0 {
        value
    } else {
        tick_once(decay(value, (ticks - 1) as nat))
    }
}

/// The two counters.
#[derive(Clone, Copy, Debug, PartialEq, Eq, Structural)]
pub struct Timers {
    /// The delay counter.
    pub delay: u8,
    /// The sound counter.
    pub sound: u8,
}

/// A counter decays tick by tick down to zero and stops there. After `ticks`
/// ticks it has lost `ticks`, or everything if it held less; so a counter set
/// to `value` reads zero after `value` ticks. It never rises: a later sample
/// is never above an earlier one. Ticking in two rounds is ticking the sum.
pub proof fn lemma_decay(value: u8, ticks: nat, later: nat)
    requires
        ticks <= later,
    ensures
        decay(value, ticks) == if ticks >= value {
            0
        } else {
            value - ticks
        },
        decay(value, value as nat) == 0,
        decay(value, later) <= decay(value, ticks) <= value,
        decay(decay(value, ticks), (later - ticks) as nat) == decay(value, later),
{
    lemma_decay_from(value, ticks);
    lemma_decay_from(value, later);
    lemma_decay_from(value, value as nat);
    lemma_decay_from(decay(value, ticks), (later - ticks) as nat);
}

proof fn lemma_decay_from(value: u8, ticks: nat)
    ensures
        decay(value, ticks) == if ticks >= value {
            0
        } else {
            value - ticks
        },
    decreases ticks,
{
    if ticks > 0 {
        lemma_decay_from(value, (ticks - 1) as nat);
    }
}

impl Timers {
    /// Both counters after `ticks` ticks.
    pub open spec fn ticked(self, ticks: nat) -> Timers {
        Timers { delay: decay(self.delay, ticks), sound: decay(self.sound, ticks) }
    }

    /// Two counters at zero.
    pub fn new() -> (timers: Timers)
        ensures
            timers == (Timers { delay: 0, sound: 0 }),
    {
        Timers { delay: 0, sound: 0 }
    }

    /// The delay counter.
    pub fn get_dt_reg(&self) -> (value: u8)
        ensures
            value == self.delay,
    {
        self.delay
    }

    /// Sets the delay counter. It decays from `value` on; zero stops it.
    pub fn set_dt_reg(&mut self, value: u8)
        ensures
            *final(self) == (Timers { delay: value, ..*old(self) }),
    {
        self.delay = value;
    }

    /// The sound counter.
    pub fn get_st_reg(&self) -> (value: u8)
        ensures
            value == self.sound,
    {
        self.sound
    }

    /// Sets the sound counter. It decays from `value` on; zero stops it.
    pub fn set_st_reg(&mut self, value: u8)
        ensures
            *final(self) == (Timers { sound: value, ..*old(self) }),
    {
        self.sound = value;
    }

    /// Whether both counters are at zero, so that ticks change nothing.
    pub fn is_idle(&self) -> (idle: bool)
        ensures
            idle == (self.delay == 0 && self.sound == 0),
    {
        self.delay == 0 && self.sound == 0
    }

    /// One tick: each counter that is not zero loses one.
    pub fn tick(&mut self)
        ensures
            *final(self) == old(self).ticked(1),
    {
        assert(decay(self.delay, 1) == tick_once(decay(self.delay, 0)));
        assert(decay(self.sound, 1) == tick_once(decay(self.sound, 0)));
        if self.delay > 0 {
            self.delay = self.delay - 1;
        }
        if self.sound > 0 {
            self.sound = self.sound - 1;
        }
    }

    /// `ticks` ticks at once.
    pub fn advance(&mut self, ticks: u64)
        ensures
            *final(self) == old(self).ticked(ticks as nat),
    {
        proof {
            lemma_decay_from(self.delay, ticks as nat);
            lemma_decay_from(self.sound, ticks as nat);
        }
        if ticks >= self.delay as u64 {
            self.delay = 0;
        } else {
            self.delay = self.delay - ticks as u8;
        }
        if ticks >= self.sound as u64 {
            self.sound = 0;
        } else {
            self.sound = self.sound - ticks as u8;
        }
    }
}

/// Turns elapsed time into ticks at `TIMER_HZ` without drift: the part of a
/// tick that has not yet come due is carried over to the next call.
#[derive(Clone, Copy, Debug)]
pub struct Cadence {
    carry: u64,
}

impl View for Cadence {
    type V = nat;

    /// The time carried over, in sixtieths of a microsecond.
    closed spec fn view(&self) -> nat {
        self.carry as nat
    }
}

impl Cadence {
    /// The carried time is less than one tick.
    pub open spec fn wf(&self) -> bool {
        self@ < MICROS_PER_SECOND
    }

    /// A cadence with nothing carried over.
    pub fn new() -> (cadence: Cadence)
        ensures
            cadence.wf(),
            cadence@ == 0,
    {
        Cadence { carry: 0 }
    }

    /// The time carried over, in sixtieths of a microsecond.
    pub fn carry(&self) -> (carry: u64)
        ensures
            carry == self@,
    {
        self.carry
    }

    /// The number of ticks that have come due after a further
    /// `elapsed_micros` microseconds. What was carried plus what elapsed is
    /// what was handed out plus what is carried now.
    pub fn ticks_due(&mut self, elapsed_micros: u64) -> (ticks: u64)
        requires
            old(self).wf(),
        ensures
            final(self).wf(),
            old(self)@ + elapsed_micros * TIMER_HZ == ticks * MICROS_PER_SECOND + final(self)@,
    {
        let scaled: u128 = (elapsed_micros as u128) * 60;
        let total: u128 = self.carry as u128 + scaled;
        let ticks: u128 = total / 1_000_000;
        let carry: u128 = total % 1_000_000;
        self.carry = carry as u64;
        ticks as u64
    }
}

} // verus!
