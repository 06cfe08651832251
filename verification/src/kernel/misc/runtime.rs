//! Kernel runtime support: the allocator and the reader-writer lock.
use vstd::prelude::*;

verus! {

/// The kernel's global allocator.
pub struct System;

/// A lock guarding a value: the lock word and the value.
pub struct RwLock<T> {
    pub lock: usize,
    pub data: T,
}

impl<T> RwLock<T> {
    /// An unlocked lock holding `v`.
    pub fn new(v: T) -> (r: Self)
        ensures
            r.lock == 0,
            r.data == v,
    {
        RwLock { lock: 0, data: v }
    }
}

/// The writer of the kernel's text output.
pub struct OutWriter;

} // verus!
