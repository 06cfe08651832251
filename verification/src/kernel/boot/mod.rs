//! Booting: what the boot loaders hand over to the kernel.
use vstd::prelude::*;

pub mod uefi;

verus! {

/// The frame buffer the boot loader set up.
#[derive(Copy, Clone, Debug)]
pub struct GenericFramebuffer {
    pub width: u32,
    pub height: u32,
    pub format: u32,
    pub scanline: u32,
    /// Address of the first byte of the frame buffer.
    pub base: usize,
    /// Size of the frame buffer in bytes.
    pub size: usize,
}

} // verus!
