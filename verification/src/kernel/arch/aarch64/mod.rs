//! AArch64: the physical timer and the saved register context.
use vstd::prelude::*;
use super::amd64::{lemma_intervals_per_second, PS_PER_SECOND};

verus! {

/// The generic physical timer.
pub struct Timer;

/// Values to program into the physical timer: the timer value and the
/// control word that enables it.
#[derive(Copy, Clone, Debug, PartialEq, Eq, Structural)]
pub struct TimerProgram {
    pub tval: u64,
    pub ctl: u64,
}

impl Timer {
    /// Programs the timer to fire after `ns`, for the counter frequency
    /// `cntfrq`: the frequency divided by the number of intervals in a
    /// second, then enabled.
    pub fn set(&self, cntfrq: u64, ns: u32) -> (r: TimerProgram)
        requires
            ns > 0,
        ensures
            r == (TimerProgram { tval: (cntfrq / (PS_PER_SECOND / (ns as u64))) as u64, ctl: 1 }),
    {
        proof {
            lemma_intervals_per_second(ns as u64);
        }
        let per_second = PS_PER_SECOND / (ns as u64);
        TimerProgram { tval: cntfrq / per_second, ctl: 1 }
    }
}

/// The registers saved for a context.
pub struct Context {
    pub spsr: u64,
    pub elr: u64,
    pub esr: u64,
    pub sp: u64,
    pub tpidr: u64,
    pub gpr: [u64; 31],
    pub fpr: [u128; 32],
    pub fsr: [u64; 2],
}

} // verus!
