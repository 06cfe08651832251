//! The NS16550A serial port.
use vstd::prelude::*;
use super::arch::RW;

verus! {

/// Divisor latch value of the baud rate.
pub const DIVISOR: u16 = 592;

/// The line control value: eight data bits.
pub const LCR_8_BITS: u8 = 0b11;

/// The line control bit that exposes the divisor latch.
pub const LCR_DLAB: u8 = 0x80;

/// The registers of the serial port.
pub struct Ns16550a {
    pub data: RW<u8>,
    pub ier: RW<u8>,
    pub fcr: RW<u8>,
    pub lcr: RW<u8>,
    pub mcr: RW<u8>,
    pub lsr: RW<u8>,
    pub msr: RW<u8>,
    pub scr: RW<u8>,
}

/// The register writes that set the port up, in order: (register offset,
/// value).
pub open spec fn init_sequence() -> Seq<(usize, u8)> {
    seq![(3, LCR_8_BITS), (2, 1), (1, 1), (3, LCR_8_BITS | LCR_DLAB), (0, (DIVISOR & 0xff) as u8),
        (1, (DIVISOR >> 8) as u8), (3, LCR_8_BITS)]
}

impl Ns16550a {
    /// The register writes that set the port up: eight data bits, FIFOs and
    /// the receive interrupt on, then the divisor through the divisor latch.
    pub fn init(&self) -> (r: Vec<(usize, u8)>)
        ensures
            r@ == init_sequence(),
    {
        let lcr: u8 = (1 << 0u8) | (1 << 1u8);
        assert(lcr == LCR_8_BITS) by (bit_vector)
            requires lcr == (1u8 << 0u8) | (1u8 << 1u8);
        let mut w: Vec<(usize, u8)> = Vec::new();
        w.push((3, lcr));
        w.push((2, 1 << 0u8));
        w.push((1, 1 << 0u8));
        w.push((3, lcr | 1 << 7u8));
        w.push((0, (DIVISOR & 0xff) as u8));
        w.push((1, (DIVISOR >> 8u16) as u8));
        w.push((3, lcr));
        assert(w@ =~= init_sequence()) by {
            assert(1u8 << 0u8 == 1) by (bit_vector);
            assert(1u8 << 7u8 == LCR_DLAB) by (bit_vector);
        }
        w
    }

    /// Reads the data register.
    pub fn read(&self) -> (r: u8)
        ensures
            r == self.data.0,
    {
        self.data.read()
    }

    /// Writes the data register.
    pub fn write(&mut self, val: u8)
        ensures
            final(self).data.0 == val,
            final(self).ier == old(self).ier,
            final(self).lcr == old(self).lcr,
    {
        self.data.write(val)
    }
}

} // verus!
