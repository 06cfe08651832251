//! RISC-V: address translation register, page table entries and the
//! platform-level interrupt controller.
use vstd::prelude::*;

pub mod atp;
pub mod plic;

verus! {

/// The supervisor address translation and protection register.
#[allow(non_camel_case_types)]
pub struct satp;

impl satp {
    pub const PPN_MASK: u64 = 0x0000_0FFF_FFFF_FFFF;
    pub const ASID_MASK: u64 = 0x0FFF_F000_0000_0000;
    pub const ASID_SHIFT: u64 = 44;
    pub const MODE_MASK: u64 = 0xF000_0000_0000_0000;
    pub const MODE_SHIFT: u64 = 60;
    pub const MODE_BARE: u64 = 0;
    pub const MODE_SV32: u64 = 0x1000_0000_0000_0000;
    pub const MODE_SV39: u64 = 0x8000_0000_0000_0000;
    pub const MODE_SV48: u64 = 0x9000_0000_0000_0000;
    pub const MODE_SV57: u64 = 0xA000_0000_0000_0000;
    pub const MODE_SV64: u64 = 0xB000_0000_0000_0000;
}

/// Handlers of the interrupt causes, by address.
#[derive(Copy, Clone, Default)]
pub struct InterruptVectorTable {
    pub user_software: Option<usize>,
    pub supervisor_software: Option<usize>,
    pub virt_supervisor_software: Option<usize>,
    pub machine_software: Option<usize>,
    pub user_timer: Option<usize>,
    pub supervisor_timer: Option<usize>,
    pub virt_supervisor_timer: Option<usize>,
    pub machine_timer: Option<usize>,
    pub user_external: Option<usize>,
    pub supervisor_external: Option<usize>,
    pub virt_supervisor_external: Option<usize>,
    pub machine_external: Option<usize>,
}

} // verus!
