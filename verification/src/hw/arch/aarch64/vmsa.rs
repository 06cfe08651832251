//! The VMSAv8-64 translation table format.
use vstd::prelude::*;

verus! {

pub const VALID: u64 = 0x0000_0000_0000_0001;
pub const TYPE: u64 = 0x0000_0000_0000_0002;
pub const TYPE_BLOCK: u64 = 0x0000_0000_0000_0000;
pub const TYPE_TABLE: u64 = 0x0000_0000_0000_0002;
pub const TYPE_RESERVED: u64 = 0x0000_0000_0000_0000;
pub const TYPE_PAGE: u64 = 0x0000_0000_0000_0002;
pub const TABLE_IGNORED_MASK: u64 = 0x07F8_0000_0000_FFC0;
pub const TABLE_4K_NEXT_LEVEL_TABLE_ADDR_MASK: u64 = 0x0000_FFFF_FFFF_F000;
pub const TABLE_16K_NEXT_LEVEL_TABLE_ADDR_MASK: u64 = 0x0000_FFFF_FFFF_C000;
pub const TABLE_64K_NEXT_LEVEL_TABLE_ADDR_MASK: u64 = 0x0000_FFFF_FFFF_0000;
pub const TABLE_PRIVILEGED_EXEC_NEVER: u64 = 0x0800_0000_0000_0000;
pub const TABLE_UNPRIVILEGED_EXEC_NEVER: u64 = 0x1000_0000_0000_0000;
pub const TABLE_ACCESS_DISABLE_UNPRIVILEGED: u64 = 0x2000_0000_0000_0000;
pub const TABLE_ACCESS_DISABLE_WRITE: u64 = 0x4000_0000_0000_0000;
pub const TABLE_NON_SECURE: u64 = 0x8000_0000_0000_0000;
pub const ATTR_ATTR_IDX_MASK: u64 = 0x0000_0000_0000_001C;
pub const ATTR_NON_SECURE: u64 = 0x0000_0000_0000_0020;
pub const ATTR_ACCESS_ENABLE_UNPRIVILEGED: u64 = 0x0000_0000_0000_0040;
pub const ATTR_ACCESS_DISABLE_WRITE: u64 = 0x0000_0000_0000_0080;
pub const ATTR_SHAREABILITY_MASK: u64 = 0x0000_0000_0000_0300;
pub const ATTR_ACCESS_FLAG: u64 = 0x0000_0000_0000_0400;
pub const ATTR_NOT_GLOBAL: u64 = 0x0000_0000_0000_0800;
pub const ATTR_OA_MASK: u64 = 0x0000_0000_0000_F000;
pub const ATTR_BLOCK_TRANSITION_ENTRY: u64 = 0x0000_0000_0001_0000;
pub const ATTR_DIRTY_BIT_MODIFIER: u64 = 0x0004_0000_0000_0000;
pub const ATTR_CONTIGUOUS: u64 = 0x0008_0000_0000_0000;
pub const ATTR_PRIVILEGED_EXEC_NEVER: u64 = 0x0010_0000_0000_0000;
pub const ATTR_UNPRIVILEGED_EXEC_NEVER: u64 = 0x0020_0000_0000_0000;
pub const ATTR_IGNORED: u64 = 0x8780_0000_0000_0000;
pub const ATTR_PAGE_BASED_HW_ATTRS_MASK: u64 = 0x7800_0000_0000_0000;
pub const BLOCK_NT: u64 = 0x0000_0000_0001_0000;
pub const BLOCK_GP: u64 = 0x0004_0000_0000_0000;
pub const BLOCK_LEVEL1_4K_OUTPUT_ADDR_MASK: u64 = 0x0000_FFFF_C000_0000;
pub const BLOCK_LEVEL2_4K_OUTPUT_ADDR_MASK: u64 = 0x0000_FFFF_FFE0_0000;
pub const BLOCK_LEVEL2_16K_OUTPUT_ADDR_MASK: u64 = 0x0000_FFFF_FE00_0000;
pub const BLOCK_LEVEL2_64K_OUTPUT_ADDR_MASK: u64 = 0x0000_FFFF_E000_0000;
pub const PAGE_4K_OUTPUT_ADDR_MASK: u64 = 0x0000_FFFF_FFFF_F000;
pub const PAGE_16K_OUTPUT_ADDR_MASK: u64 = 0x0000_FFFF_FFFF_C000;
pub const PAGE_64K_OUTPUT_ADDR_MASK: u64 = 0x0000_FFFF_FFFF_0000;
pub const PAGE_64K_TA_MASK: u64 = 0x0000_0000_0000_F000;
pub const LEVEL1_4K_BLOCK_SIZE: u64 = 0x4000_0000;
pub const LEVEL1_64K_BLOCK_SIZE: u64 = 0x400_0000_0000;
pub const LEVEL2_4K_BLOCK_SIZE: u64 = 0x20_0000;
pub const LEVEL2_16K_BLOCK_SIZE: u64 = 0x200_0000;
pub const LEVEL2_64K_BLOCK_SIZE: u64 = 0x2000_0000;
pub const LEVEL3_4K_PAGE_SIZE: u64 = 0x1000;
pub const LEVEL3_16K_PAGE_SIZE: u64 = 0x4000;
pub const LEVEL3_64K_PAGE_SIZE: u64 = 0x1_0000;

/// The translation registers of an address space: both table bases and
/// the translation control register.
pub struct PageTables {
    pub ttbr0: u64,
    pub ttbr1: u64,
    pub tcr: u64,
}

impl PageTables {
    /// The register values to load, in order: TTBR0, TTBR1, TCR.
    pub fn load(&self) -> (r: (u64, u64, u64))
        ensures
            r == (self.ttbr0, self.ttbr1, self.tcr),
    {
        (self.ttbr0, self.ttbr1, self.tcr)
    }
}

} // verus!
