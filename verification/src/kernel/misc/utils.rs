use vstd::prelude::*;

verus! {

/// The unit a byte count is best printed in, together with the count
/// rounded to the nearest whole multiple of that unit.
pub open spec fn mem_unit_spec(memory: int) -> (Seq<char>, int) {
    if memory < 0x100000 {
        (seq!['K', 'B'], (memory + 0x200) / 0x400)
    } else if memory < 0x40000000 {
        (seq!['M', 'B'], (memory + 0x80000) / 0x100000)
    } else if memory < 0x10000000000 {
        (seq!['G', 'B'], (memory + 0x20000000) / 0x40000000)
    } else {
        (seq!['T', 'B'], (memory + 0x8000000000) / 0x10000000000)
    }
}

proof fn lemma_shift_is_division(a: u64)
    ensures
        a >> 10u64 == a / 0x400,
        a >> 20u64 == a / 0x100000,
        a >> 30u64 == a / 0x40000000,
        a >> 40u64 == a / 0x10000000000,
{
    assert(a >> 10u64 == a / 0x400) by (bit_vector);
    assert(a >> 20u64 == a / 0x100000) by (bit_vector);
    assert(a >> 30u64 == a / 0x40000000) by (bit_vector);
    assert(a >> 40u64 == a / 0x10000000000) by (bit_vector);
}

/// Picks a human readable unit for `memory` bytes and rounds the amount to it.
pub fn get_mem_unit(memory: usize) -> (r: (&'static str, usize))
    requires
        memory >= 0x10000000000 ==> memory + 0x8000000000 <= usize::MAX,
    ensures
        r.0@ == mem_unit_spec(memory as int).0,
        r.1 == mem_unit_spec(memory as int).1,
{
    proof {
        reveal_strlit("KB");
        reveal_strlit("MB");
        reveal_strlit("GB");
        reveal_strlit("TB");
    }
    let m = memory as u64;
    assert(m < 0x10000000000 ==> m + 0x20000000 <= u64::MAX);
    proof {
        lemma_shift_is_division((m + 0x200) as u64);
        lemma_shift_is_division((m + 0x80000) as u64);
        lemma_shift_is_division((m + 0x20000000) as u64);
        if m >= 0x10000000000 {
            lemma_shift_is_division((m + 0x8000000000) as u64);
        }
    }
    let r: (&'static str, u64) = if m < 0x100000 {
        ("KB", (m + 0x200) >> 10u64)
    } else if m < 0x40000000 {
        ("MB", (m + 0x80000) >> 20u64)
    } else if m < 0x10000000000 {
        ("GB", (m + 0x20000000) >> 30u64)
    } else {
        ("TB", (m + 0x8000000000) >> 40u64)
    };
    proof {
        assert(r.1 <= memory);
    }
    (r.0, r.1 as usize)
}

/// A value that is printed by its type only.
pub struct NoDbg<T>(pub T);

} // verus!
