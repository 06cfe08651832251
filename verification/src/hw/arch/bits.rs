//! Facts about setting and clearing flag bits in a 64-bit word.
use vstd::prelude::*;

verus! {

/// Whether every bit of `m` is set in `x`.
pub open spec fn has_flags(x: u64, m: u64) -> bool {
    x & m == m
}

/// Setting or clearing the bits of `m` leaves the other bits alone, and a
/// non-zero `m` reads back as set after setting and as clear after clearing.
pub proof fn lemma_set_clear(x: u64, m: u64)
    ensures
        (x | m) & m == m,
        (x | m) & !m == x & !m,
        (x & !m) & !m == x & !m,
        (x & !m) & m == 0,
        m != 0 ==> (x & !m) & m != m,
{
    assert((x | m) & m == m) by (bit_vector);
    assert((x | m) & !m == x & !m) by (bit_vector);
    assert((x & !m) & !m == x & !m) by (bit_vector);
    assert((x & !m) & m == 0) by (bit_vector);
}

} // verus!
