//! x86-64 interrupt vectors and the encoding of interrupt descriptors.
use vstd::prelude::*;

verus! {

pub const INTERRUPT_VECTOR_APIC_TIMER: u8 = 32;
pub const INTERRUPT_VECTOR_APIC_THERMAL: u8 = 33;
pub const INTERRUPT_VECTOR_APIC_COUNTER: u8 = 34;
pub const INTERRUPT_VECTOR_APIC_LINT0: u8 = 35;
pub const INTERRUPT_VECTOR_APIC_LINT1: u8 = 36;
pub const INTERRUPT_VECTOR_APIC_ERROR: u8 = 37;
pub const INTERRUPT_VECTOR_APIC_SPURI: u8 = 38;
pub const INTERRUPT_VECTOR_IPI_HART_UP: u8 = 39;
pub const INTERRUPT_VECTOR_IPI_HART_DOWN: u8 = 40;
pub const INTERRUPT_VECTOR_IPI_PING: u8 = 41;
pub const INTERRUPT_VECTOR_IPI_PONG: u8 = 42;
pub const INTERRUPT_VECTOR_SYSCALL: u8 = 128;

/// The descriptor mask that selects the upper offset bits: the mask
/// `0xFFFF_FFFF_FFFF_0000` shifted up by 32 bits (the shift binds tighter
/// than the mask).
pub const DESCRIPTOR_OFFSET_HIGH_MASK: u128 = 0xFFFF_FFFF_FFFF_0000_0000_0000;

/// The interrupt descriptor of the handler at address `f` with the descriptor options
/// `options`: the options shifted up by 16 bits, the low 16 bits of the
/// address, and the address masked with `DESCRIPTOR_OFFSET_HIGH_MASK`.
pub fn entry(f: u64, options: u32) -> (r: u128)
    ensures
        r == ((options as u128) << 16u128) | ((f as u128) & 0xFFFF) | ((f as u128)
            & DESCRIPTOR_OFFSET_HIGH_MASK),
{
    let offset = f as u128;
    assert(0xFFFF_FFFF_FFFF_0000u128 << 32u128 == DESCRIPTOR_OFFSET_HIGH_MASK) by (bit_vector);
    (options as u128) << 16u128 | offset & 0xFFFF | offset & 0xFFFF_FFFF_FFFF_0000u128 << 32u128
}

} // verus!
