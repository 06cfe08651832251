//! x86-64: interrupt descriptor tables, flag registers and time stamps.
use vstd::prelude::*;

pub mod apic;
pub mod atp;

verus! {

pub const PAGE_FAULT_ERROR_NOT_PRESENT: usize = 0x1;
pub const PAGE_FAULT_ERROR_READ_WRITE: usize = 0x2;
pub const PAGE_FAULT_ERROR_USER_MODE: usize = 0x4;
pub const PAGE_FAULT_ERROR_RSV: usize = 0x8;
pub const PAGE_FAULT_ERROR_INST_FETCH: usize = 0x10;

/// The flags register.
pub struct RFLAGS;

impl RFLAGS {
    /// Alignment Check
    pub const AC: u64 = 1 << 18;
}

/// The 64-bit time stamp made of the two halves that `rdtsc` leaves in
/// `eax` (low) and `edx` (high).
pub fn rdtsc64(eax: u32, edx: u32) -> (r: u64)
    ensures
        r == eax + edx * 0x1_0000_0000,
{
    let lo = eax as u64;
    let hi = edx as u64;
    assert(lo | (hi << 32u64) == lo + hi * 0x1_0000_0000) by (bit_vector)
        requires
            lo < 0x1_0000_0000,
            hi < 0x1_0000_0000,
    ;
    lo | (hi << 32u64)
}

/// Operand of `lgdt`/`lidt`.
#[derive(Copy, Clone, Debug, Default)]
pub struct DescriptorTablePointer {
    pub base: u64,
    pub limit: u16,
}

/// An entry of the interrupt descriptor table.
#[derive(Copy, Clone)]
pub struct IdtEntry {
    ptr_low: u16,
    pub gdt_selector: u16,
    pub options: u16,
    ptr_middle: u16,
    ptr_high: u32,
    reserved: u32,
}

/// Options of a present 64-bit interrupt descriptor with no handler yet.
pub const IDT_ENTRY_DEFAULT_OPTIONS: u16 = 0b1110_0000_0000;

impl IdtEntry {
    /// The handler address the entry holds.
    pub closed spec fn handler(self) -> u64 {
        (self.ptr_low as int + self.ptr_middle as int * 0x10000 + self.ptr_high as int
            * 0x1_0000_0000) as u64
    }

    /// The code segment selector of the descriptor.
    pub closed spec fn selector(self) -> u16 {
        self.gdt_selector
    }

    /// The type and attribute bits of the descriptor.
    pub closed spec fn entry_options(self) -> u16 {
        self.options
    }

    /// The reserved double word, which is always zero.
    pub closed spec fn reserved_word(self) -> u32 {
        self.reserved
    }

    pub closed spec fn is_zeroed(self) -> bool {
        self.ptr_low == 0 && self.gdt_selector == 0 && self.options == 0 && self.ptr_middle == 0
            && self.ptr_high == 0 && self.reserved == 0
    }

    /// An entry is determined by its handler, selector, options and
    /// reserved word: entries that agree on them are equal (so `empty()`
    /// is `default()`).
    pub proof fn lemma_entry_determined(a: Self, b: Self)
        requires
            a.handler() == b.handler(),
            a.selector() == b.selector(),
            a.entry_options() == b.entry_options(),
            a.reserved_word() == b.reserved_word(),
        ensures
            a == b,
    {
        let xa = a.ptr_low as int + a.ptr_middle as int * 0x10000 + a.ptr_high as int * 0x1_0000_0000;
        let xb = b.ptr_low as int + b.ptr_middle as int * 0x10000 + b.ptr_high as int * 0x1_0000_0000;
        assert(xa < 0x1_0000_0000_0000_0000 && xb < 0x1_0000_0000_0000_0000);
        assert(xa == xb);
        assert(a.ptr_high == b.ptr_high) by (nonlinear_arith)
            requires
                xa == a.ptr_low as int + a.ptr_middle as int * 0x10000 + a.ptr_high as int * 0x1_0000_0000,
                xb == b.ptr_low as int + b.ptr_middle as int * 0x10000 + b.ptr_high as int * 0x1_0000_0000,
                xa == xb,
                a.ptr_low < 0x10000, b.ptr_low < 0x10000, a.ptr_middle < 0x10000, b.ptr_middle < 0x10000;
        assert(a.ptr_middle == b.ptr_middle) by (nonlinear_arith)
            requires
                a.ptr_low as int + a.ptr_middle as int * 0x10000 == b.ptr_low as int + b.ptr_middle as int * 0x10000,
                a.ptr_low < 0x10000, b.ptr_low < 0x10000;
    }

    /// An entry with every field zero.
    pub fn zeroed() -> (r: Self)
        ensures
            r.is_zeroed(),
            r.handler() == 0,
    {
        IdtEntry { ptr_low: 0, gdt_selector: 0, options: 0, ptr_middle: 0, ptr_high: 0, reserved: 0 }
    }

    /// An entry without handler, with the default entry options.
    pub fn empty() -> (r: Self)
        ensures
            r.handler() == 0,
            r.selector() == 0,
            r.entry_options() == IDT_ENTRY_DEFAULT_OPTIONS,
            r.reserved_word() == 0,
    {
        Self::default()
    }

    /// An entry with the default entry options for the handler at `ptr`.
    pub fn new(ptr: u64) -> (r: Self)
        ensures
            r.handler() == ptr,
            r.selector() == 0,
            r.entry_options() == IDT_ENTRY_DEFAULT_OPTIONS,
            r.reserved_word() == 0,
    {
        let mut s = Self::default();
        s.set_ptr(ptr);
        s
    }

    /// Stores the handler address `ptr` in the entry's three address fields.
    pub fn set_ptr(&mut self, ptr: u64)
        ensures
            final(self).handler() == ptr,
            final(self).selector() == old(self).selector(),
            final(self).entry_options() == old(self).entry_options(),
            final(self).reserved_word() == old(self).reserved_word(),
    {
        let low = (ptr & 0xFFFF) as u16;
        let middle = (ptr >> 16u64 & 0xFFFF) as u16;
        let high = (ptr >> 32u64) as u32;
        assert(ptr == (ptr & 0xFFFF) + (ptr >> 16u64 & 0xFFFF) * 0x10000 + (ptr >> 32u64)
            * 0x1_0000_0000) by (bit_vector);
        assert(ptr & 0xFFFF < 0x10000 && ptr >> 16u64 & 0xFFFF < 0x10000 && ptr >> 32u64
            < 0x1_0000_0000) by (bit_vector);
        self.ptr_low = low;
        self.ptr_middle = middle;
        self.ptr_high = high;
    }

    /// The handler address the entry holds.
    pub fn ptr(&self) -> (r: u64)
        ensures
            r == self.handler(),
    {
        self.ptr_low as u64 + self.ptr_middle as u64 * 0x10000 + self.ptr_high as u64 * 0x1_0000_0000
    }
}

impl Default for IdtEntry {
    fn default() -> (r: Self)
        ensures
            r.handler() == 0,
            r.selector() == 0,
            r.entry_options() == IDT_ENTRY_DEFAULT_OPTIONS,
            r.reserved_word() == 0,
    {
        IdtEntry {
            ptr_low: 0,
            gdt_selector: 0,
            options: IDT_ENTRY_DEFAULT_OPTIONS,
            ptr_middle: 0,
            ptr_high: 0,
            reserved: 0,
        }
    }
}

/// The interrupt descriptor table: the architectural exceptions, then the
/// vectors free for software and devices.
#[derive(Copy, Clone)]
pub struct InterruptDescriptorTable {
    pub divide_by_0: IdtEntry,
    pub debug: IdtEntry,
    pub non_maskable_interrupt: IdtEntry,
    pub breakpoint: IdtEntry,
    pub overflow: IdtEntry,
    pub bound_range: IdtEntry,
    pub invalid_opcode: IdtEntry,
    pub device_not_available: IdtEntry,
    pub double_fault: IdtEntry,
    pub _reserved0: IdtEntry,
    pub invalid_tss: IdtEntry,
    pub segment_not_present: IdtEntry,
    pub stack: IdtEntry,
    pub general_protection: IdtEntry,
    pub page_fault: IdtEntry,
    pub _reserved1: IdtEntry,
    pub x87_fp_exception_pending: IdtEntry,
    pub alignment_check: IdtEntry,
    pub machine_check: IdtEntry,
    pub simd_fp: IdtEntry,
    pub _reserved2: [IdtEntry; 9],
    pub vmm_communication_event: IdtEntry,
    pub security_exception: IdtEntry,
    pub _reserved3: IdtEntry,
    pub software_external: [IdtEntry; 224],
}

impl InterruptDescriptorTable {
    /// Every entry of the table is zeroed.
    pub open spec fn all_zeroed(self) -> bool {
        &&& self.divide_by_0.is_zeroed() && self.debug.is_zeroed()
        &&& self.non_maskable_interrupt.is_zeroed() && self.breakpoint.is_zeroed()
        &&& self.overflow.is_zeroed() && self.bound_range.is_zeroed()
        &&& self.invalid_opcode.is_zeroed() && self.device_not_available.is_zeroed()
        &&& self.double_fault.is_zeroed() && self._reserved0.is_zeroed()
        &&& self.invalid_tss.is_zeroed() && self.segment_not_present.is_zeroed()
        &&& self.stack.is_zeroed() && self.general_protection.is_zeroed()
        &&& self.page_fault.is_zeroed() && self._reserved1.is_zeroed()
        &&& self.x87_fp_exception_pending.is_zeroed() && self.alignment_check.is_zeroed()
        &&& self.machine_check.is_zeroed() && self.simd_fp.is_zeroed()
        &&& forall|i: int| 0 <= i < 9 ==> (#[trigger] self._reserved2@[i]).is_zeroed()
        &&& self.vmm_communication_event.is_zeroed() && self.security_exception.is_zeroed()
        &&& self._reserved3.is_zeroed()
        &&& forall|i: int| 0 <= i < 224 ==> (#[trigger] self.software_external@[i]).is_zeroed()
    }

    /// A table whose every entry is zeroed.
    pub fn zeroed() -> (r: Self)
        ensures
            r.all_zeroed(),
    {
        let z = IdtEntry::zeroed();
        let reserved2 = [z; 9];
        let software_external = [z; 224];
        InterruptDescriptorTable {
            divide_by_0: z,
            debug: z,
            non_maskable_interrupt: z,
            breakpoint: z,
            overflow: z,
            bound_range: z,
            invalid_opcode: z,
            device_not_available: z,
            double_fault: z,
            _reserved0: z,
            invalid_tss: z,
            segment_not_present: z,
            stack: z,
            general_protection: z,
            page_fault: z,
            _reserved1: z,
            x87_fp_exception_pending: z,
            alignment_check: z,
            machine_check: z,
            simd_fp: z,
            _reserved2: reserved2,
            vmm_communication_event: z,
            security_exception: z,
            _reserved3: z,
            software_external,
        }
    }

    /// The operand that loads this table, placed at `base`.
    pub fn pointer(base: u64) -> (r: DescriptorTablePointer)
        ensures
            r.base == base,
            r.limit == 4095,
    {
        DescriptorTablePointer { base, limit: 4095 }
    }
}

} // verus!
