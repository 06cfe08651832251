//! AArch64: the exception vector table and the per-feature modules.
use vstd::prelude::*;

pub mod gic;
pub mod vmsa;

verus! {

/// The instructions of one exception vector.
pub type ExceptionVector = [u64; 0x80];

/// The exception vector table: for each origin (current level with SP0,
/// current level with SPx, lower level in AArch64, lower level in AArch32)
/// the synchronous, IRQ, FIQ and SError vectors.
pub struct ExceptionVectorTable {
    pub current_sp0_sync: ExceptionVector,
    pub current_sp0_irq: ExceptionVector,
    pub current_sp0_fiq: ExceptionVector,
    pub current_sp0_serr: ExceptionVector,
    pub current_spx_sync: ExceptionVector,
    pub current_spx_irq: ExceptionVector,
    pub current_spx_fiq: ExceptionVector,
    pub current_spx_serr: ExceptionVector,
    pub lower_a64_sync: ExceptionVector,
    pub lower_a64_irq: ExceptionVector,
    pub lower_a64_fiq: ExceptionVector,
    pub lower_a64_serr: ExceptionVector,
    pub lower_a32_sync: ExceptionVector,
    pub lower_a32_irq: ExceptionVector,
    pub lower_a32_fiq: ExceptionVector,
    pub lower_a32_serr: ExceptionVector,
}

} // verus!
