//! x86-64 page table entries.
use vstd::prelude::*;
use crate::hw::arch::bits::{has_flags, lemma_set_clear};

verus! {

pub const PRESENT: u64 = 0x0000_0000_0000_0001;
pub const ENABLE_WRITE_ACCESS: u64 = 0x0000_0000_0000_0002;
pub const ENABLE_UNPRIVILEGED: u64 = 0x0000_0000_0000_0004;
pub const PAGE_LEVEL_WRITE_THROUGH: u64 = 0x0000_0000_0000_0008;
pub const PAGE_LEVEL_CACHE_DISABLE: u64 = 0x0000_0000_0000_0010;
pub const ACCESSED: u64 = 0x0000_0000_0000_0020;
pub const AVAILABLE_MASK: u64 = 0x7FFF_0000_0000_0E00;
pub const NO_EXEC: u64 = 0x8000_0000_0000_0000;
pub const DIRTY: u64 = 0x0000_0000_0000_0040;
pub const GLOBAL_PAGE: u64 = 0x0000_0000_0000_0100;
pub const PAGE_SIZE: u64 = 0x0000_0000_0000_0080;
pub const LVL1_PAGE_ATTR_TABLE: u64 = 0x0000_0000_0000_0080;
pub const LVL2_2MB_PAGE_ATTR_TABLE: u64 = 0x0000_0000_0000_1000;
pub const LVL3_1GB_PAGE_ATTR_TABLE: u64 = 0x0000_0000_0000_1000;
pub const BASE_ADDR_MASK: u64 = 0x0000_FFFF_FFFF_F000;
pub const L2P_PAGE_ATTR_TABLE: u64 = 0x0000_0000_0000_0800;
pub const L2P_BASE_ADDR_MASK: u64 = 0x0000_FFFF_FFE0_0000;
pub const L3P_PAGE_ATTR_TABLE: u64 = 0x0000_0000_0000_0800;
pub const L3P_BASE_ADDR_MASK: u64 = 0x0000_FFFF_C000_0000;

/// A page table entry.
#[derive(Copy, Clone, Eq, PartialEq)]
pub struct Entry(pub u64);

/// `x` with the bits of `m` set when `v` holds, cleared otherwise.
pub open spec fn with_flags(x: u64, m: u64, v: bool) -> u64 {
    if v {
        x | m
    } else {
        x & !m
    }
}

impl Entry {
    /// Every page is readable.
    pub fn set_read(&mut self, _v: bool)
        ensures
            *final(self) == *old(self),
    {
    }

    pub fn get_read(&self) -> (r: bool)
        ensures
            r,
    {
        true
    }

    pub fn set_write(&mut self, v: bool)
        ensures
            final(self).0 == with_flags(old(self).0, ENABLE_WRITE_ACCESS, v),
            has_flags(final(self).0, ENABLE_WRITE_ACCESS) == v,
            final(self).0 & !ENABLE_WRITE_ACCESS == old(self).0 & !ENABLE_WRITE_ACCESS,
    {
        proof {
            lemma_set_clear(self.0, ENABLE_WRITE_ACCESS);
        }
        if v {
            self.0 = self.0 | ENABLE_WRITE_ACCESS;
        } else {
            self.0 = self.0 & !ENABLE_WRITE_ACCESS;
        }
    }

    pub fn get_write(&self) -> (r: bool)
        ensures
            r == has_flags(self.0, ENABLE_WRITE_ACCESS),
    {
        self.0 & ENABLE_WRITE_ACCESS == ENABLE_WRITE_ACCESS
    }

    /// Execution is allowed unless the no-execute bit is set.
    pub fn set_exec(&mut self, v: bool)
        ensures
            final(self).0 == with_flags(old(self).0, NO_EXEC, !v),
            has_flags(final(self).0, NO_EXEC) == !v,
            final(self).0 & !NO_EXEC == old(self).0 & !NO_EXEC,
    {
        proof {
            lemma_set_clear(self.0, NO_EXEC);
        }
        if !v {
            self.0 = self.0 | NO_EXEC;
        } else {
            self.0 = self.0 & !NO_EXEC;
        }
    }

    pub fn get_exec(&self) -> (r: bool)
        ensures
            r == !has_flags(self.0, NO_EXEC),
    {
        self.0 & NO_EXEC != NO_EXEC
    }

    pub fn set_user(&mut self, v: bool)
        ensures
            final(self).0 == with_flags(old(self).0, ENABLE_UNPRIVILEGED, v),
            has_flags(final(self).0, ENABLE_UNPRIVILEGED) == v,
            final(self).0 & !ENABLE_UNPRIVILEGED == old(self).0 & !ENABLE_UNPRIVILEGED,
    {
        proof {
            lemma_set_clear(self.0, ENABLE_UNPRIVILEGED);
        }
        if v {
            self.0 = self.0 | ENABLE_UNPRIVILEGED;
        } else {
            self.0 = self.0 & !ENABLE_UNPRIVILEGED;
        }
    }

    pub fn get_user(&self) -> (r: bool)
        ensures
            r == has_flags(self.0, ENABLE_UNPRIVILEGED),
    {
        self.0 & ENABLE_UNPRIVILEGED == ENABLE_UNPRIVILEGED
    }

    pub fn set_global(&mut self, v: bool)
        ensures
            final(self).0 == with_flags(old(self).0, GLOBAL_PAGE, v),
            has_flags(final(self).0, GLOBAL_PAGE) == v,
            final(self).0 & !GLOBAL_PAGE == old(self).0 & !GLOBAL_PAGE,
    {
        proof {
            lemma_set_clear(self.0, GLOBAL_PAGE);
        }
        if v {
            self.0 = self.0 | GLOBAL_PAGE;
        } else {
            self.0 = self.0 & !GLOBAL_PAGE;
        }
    }

    pub fn get_global(&self) -> (r: bool)
        ensures
            r == has_flags(self.0, GLOBAL_PAGE),
    {
        self.0 & GLOBAL_PAGE == GLOBAL_PAGE
    }

    pub fn set_valid(&mut self, v: bool)
        ensures
            final(self).0 == with_flags(old(self).0, PRESENT, v),
            has_flags(final(self).0, PRESENT) == v,
            final(self).0 & !PRESENT == old(self).0 & !PRESENT,
    {
        proof {
            lemma_set_clear(self.0, PRESENT);
        }
        if v {
            self.0 = self.0 | PRESENT;
        } else {
            self.0 = self.0 & !PRESENT;
        }
    }

    pub fn get_valid(&self) -> (r: bool)
        ensures
            r == has_flags(self.0, PRESENT),
    {
        self.0 & PRESENT == PRESENT
    }
}

/// The root of a set of page tables.
pub struct PageTables(pub usize);

} // verus!
