//! Physical addresses of a given width, and value wrappers for printing.
use vstd::prelude::*;
use core::marker::PhantomData;

verus! {

/// The little-endian 16-bit word at `off`.
pub open spec fn le16(s: Seq<u8>, off: int) -> u16 {
    (s[off] as int + s[off + 1] as int * 0x100) as u16
}

/// The little-endian 32-bit word at `off`.
pub open spec fn le32(s: Seq<u8>, off: int) -> u32 {
    (s[off] as int + s[off + 1] as int * 0x100 + s[off + 2] as int * 0x10000 + s[off + 3] as int
        * 0x1000000) as u32
}

/// The little-endian 64-bit word at `off` (the host order of every supported target).
pub open spec fn le64(s: Seq<u8>, off: int) -> u64 {
    (s[off] as int + s[off + 1] as int * 0x100 + s[off + 2] as int * 0x10000 + s[off + 3] as int
        * 0x1000000 + s[off + 4] as int * 0x100000000 + s[off + 5] as int * 0x10000000000
        + s[off + 6] as int * 0x1000000000000 + s[off + 7] as int * 0x100000000000000) as u64
}

/// Reads the little-endian 16-bit word at `off`.
pub fn read_le16(data: &[u8], off: usize) -> (r: u16)
    requires
        off + 2 <= data@.len(),
    ensures
        r == le16(data@, off as int),
{
    (data[off] as u16) + (data[off + 1] as u16) * 0x100
}

/// Reads the little-endian 32-bit word at `off`.
pub fn read_le32(data: &[u8], off: usize) -> (r: u32)
    requires
        off + 4 <= data@.len(),
    ensures
        r == le32(data@, off as int),
{
    (data[off] as u32) + (data[off + 1] as u32) * 0x100 + (data[off + 2] as u32) * 0x10000
        + (data[off + 3] as u32) * 0x1000000
}

/// Reads the little-endian 64-bit word at `off`.
pub fn read_le64(data: &[u8], off: usize) -> (r: u64)
    requires
        off + 8 <= data@.len(),
    ensures
        r == le64(data@, off as int),
{
    (data[off] as u64) + (data[off + 1] as u64) * 0x100 + (data[off + 2] as u64) * 0x10000
        + (data[off + 3] as u64) * 0x1000000 + (data[off + 4] as u64) * 0x100000000 + (data[off
        + 5] as u64) * 0x10000000000 + (data[off + 6] as u64) * 0x1000000000000 + (data[off
        + 7] as u64) * 0x100000000000000
}


/// A 32-bit physical address of a `T`.
pub struct Ptr32<T>(pub u32, pub PhantomData<T>);

impl<T> Clone for Ptr32<T> {
    fn clone(&self) -> (r: Self)
        ensures
            r.0 == self.0,
    {
        Ptr32(self.0, PhantomData)
    }
}

impl<T> Copy for Ptr32<T> {}

impl<T> Ptr32<T> {
    /// The address as a machine word.
    pub fn get(self) -> (r: usize)
        ensures
            r == self.0,
    {
        self.0 as usize
    }

    /// The address `ptr`, cut to 32 bits.
    pub fn new(ptr: usize) -> (r: Self)
        ensures
            r.0 == ptr as u32,
    {
        Ptr32(ptr as u32, PhantomData)
    }

    pub fn as_ptr(&self) -> (r: usize)
        ensures
            r == self.0,
    {
        self.0 as usize
    }

    pub fn as_mut_ptr(&mut self) -> (r: usize)
        ensures
            r == old(self).0,
            *final(self) == *old(self),
    {
        self.0 as usize
    }

    /// Whether the address is null.
    pub fn is_null(&self) -> (r: bool)
        ensures
            r == (self.0 == 0),
    {
        self.0 == 0
    }
}

impl<T> Default for Ptr32<T> {
    fn default() -> (r: Self)
        ensures
            r.0 == 0,
    {
        Self::new(0)
    }
}

/// A 64-bit physical address of a `T`.
pub struct Ptr64<T>(pub u64, pub PhantomData<T>);

impl<T> Clone for Ptr64<T> {
    fn clone(&self) -> (r: Self)
        ensures
            r.0 == self.0,
    {
        Ptr64(self.0, PhantomData)
    }
}

impl<T> Copy for Ptr64<T> {}

impl<T> Ptr64<T> {
    /// The address as a machine word (cut to its width).
    pub fn get(self) -> (r: usize)
        ensures
            r == self.0 as usize,
    {
        self.0 as usize
    }

    /// The address `ptr`.
    pub fn new(ptr: usize) -> (r: Self)
        ensures
            r.0 == ptr,
    {
        Ptr64(ptr as u64, PhantomData)
    }

    pub fn as_ptr(&self) -> (r: usize)
        ensures
            r == self.0 as usize,
    {
        self.0 as usize
    }

    pub fn as_mut_ptr(&mut self) -> (r: usize)
        ensures
            r == old(self).0 as usize,
            *final(self) == *old(self),
    {
        self.0 as usize
    }

    /// Whether the address is null.
    pub fn is_null(&self) -> (r: bool)
        ensures
            r == (self.0 == 0),
    {
        self.0 == 0
    }
}

impl<T> Default for Ptr64<T> {
    fn default() -> (r: Self)
        ensures
            r.0 == 0,
    {
        Self::new(0)
    }
}

/// A value to be printed in hexadecimal.
pub struct DbgHex<T>(pub T);

/// A value to be printed in binary.
pub struct DbgBin<T>(pub T);

} // verus!
