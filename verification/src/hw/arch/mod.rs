//! Architecture support: register wrappers and the per-architecture modules.
use vstd::prelude::*;


pub mod aarch64;
pub mod bits;
pub mod amd64;
pub mod riscv;

verus! {

/// A read-write register.
#[derive(Copy, Clone, Default, Eq, PartialEq)]
pub struct RW<T>(pub T);

impl<T: Copy> RW<T> {
    pub fn read(&self) -> (r: T)
        ensures
            r == self.0,
    {
        self.0
    }

    pub fn write(&mut self, val: T)
        ensures
            final(self).0 == val,
    {
        self.0 = val;
    }

    /// Writes `val` and returns the value read before.
    pub fn swap(&mut self, val: T) -> (r: T)
        ensures
            r == old(self).0,
            final(self).0 == val,
    {
        let v = self.read();
        self.write(val);
        v
    }
}

/// A read-only register.
#[derive(Copy, Clone, Default, Eq, PartialEq)]
pub struct RO<T>(pub T);

impl<T: Copy> RO<T> {
    pub fn read(&self) -> (r: T)
        ensures
            r == self.0,
    {
        self.0
    }
}

/// A write-only register.
#[derive(Copy, Clone, Default, Eq, PartialEq)]
pub struct WO<T>(pub T);

impl<T> WO<T> {
    pub fn write(&mut self, val: T)
        ensures
            final(self).0 == val,
    {
        self.0 = val;
    }
}

} // verus!
