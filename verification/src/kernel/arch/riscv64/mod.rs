//! RISC-V: the machine timer and the saved register context.
use vstd::prelude::*;
use super::amd64::{lemma_intervals_per_second, PS_PER_SECOND};

verus! {

/// The machine timer: its frequency.
pub struct Timer {
    pub frq: u64,
}

impl Timer {
    /// The compare value that makes the timer fire `ns` after the current
    /// time `mtime`.
    pub fn set(&self, mtime: u64, ns: u32) -> (r: u64)
        requires
            ns > 0,
            mtime + self.frq / (PS_PER_SECOND / (ns as u64)) <= u64::MAX,
        ensures
            r == mtime + self.frq / (PS_PER_SECOND / (ns as u64)),
    {
        proof {
            lemma_intervals_per_second(ns as u64);
        }
        mtime + self.frq / (PS_PER_SECOND / (ns as u64))
    }
}

/// The registers saved for a context.
pub struct Context {
    pub status: u64,
    pub epc: u64,
    pub tval: u64,
    pub gpr: [u64; 31],
    pub fpr: [u128; 32],
    pub fsr: u32,
    pub vcr: [u128; 32],
    pub vsr: [u64; 7],
}

} // verus!
