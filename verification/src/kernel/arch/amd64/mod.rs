//! x86-64: the local APIC timer of a hart and the saved register context.
use vstd::prelude::*;

pub mod interrupt;

verus! {

/// Divide configuration written to the APIC timer: divide by one.
pub const TIMER_DIVIDE_BY_1: u64 = 0b111;

/// Number of picoseconds in a second.
pub const PS_PER_SECOND: u64 = 1_000_000_000_000;

/// The initial count of the APIC timer for an interval of `ns`: the timer
/// frequency divided by the number of intervals in a second.
pub open spec fn timer_count(frq: u64, ns: u64) -> u64 {
    (frq / (PS_PER_SECOND / ns)) as u64
}

/// A positive interval of at most a second fits at least once in a second.
pub proof fn lemma_intervals_per_second(ns: u64)
    requires
        0 < ns <= PS_PER_SECOND,
    ensures
        PS_PER_SECOND / ns >= 1,
{
    assert(PS_PER_SECOND / ns >= 1) by (nonlinear_arith)
        requires 0 < ns <= PS_PER_SECOND;
}

/// The values to program into the APIC timer: its divide configuration and
/// its initial count.
#[derive(Copy, Clone, Debug, PartialEq, Eq, Structural)]
pub struct TimerProgram {
    pub divide_config: u64,
    pub initial_count: u64,
}

/// A hart: its timer frequency and architectural id.
pub struct Hart {
    pub timer_frq: u64,
    pub arch_id: u64,
}

impl Hart {
    /// Programs the timer to fire after `ns`: divide by one and the count
    /// `timer_count`. `ns` must be positive and at most a second's worth
    /// of picoseconds, or the division fails.
    pub fn timer_set(&self, ns: u64) -> (r: TimerProgram)
        requires
            0 < ns <= PS_PER_SECOND,
        ensures
            r == (TimerProgram { divide_config: TIMER_DIVIDE_BY_1, initial_count: timer_count(self.timer_frq, ns) }),
    {
        proof {
            lemma_intervals_per_second(ns);
        }
        TimerProgram { divide_config: TIMER_DIVIDE_BY_1, initial_count: self.timer_frq / (PS_PER_SECOND / ns) }
    }

    /// Sends the inter-processor interrupt `vec`; nothing is done yet.
    pub fn send_ipi(vec: usize) {
    }
}

/// The APIC timer of a hart.
pub struct Timer {
    pub frq: u64,
}

impl Timer {
    /// Programs the timer to fire after `ns` (see `Hart::timer_set`).
    pub fn set(&self, ns: u64) -> (r: TimerProgram)
        requires
            0 < ns <= PS_PER_SECOND,
        ensures
            r == (TimerProgram { divide_config: TIMER_DIVIDE_BY_1, initial_count: timer_count(self.frq, ns) }),
    {
        proof {
            lemma_intervals_per_second(ns);
        }
        TimerProgram { divide_config: TIMER_DIVIDE_BY_1, initial_count: self.frq / (PS_PER_SECOND / ns) }
    }
}

/// The registers saved for a context.
pub struct Context {
    pub gpr: [u64; 16],
    pub fpr: [u64; 8],
    pub vcr: [[u64; 8]; 32],
    pub omr: [u64; 8],
}

} // verus!
