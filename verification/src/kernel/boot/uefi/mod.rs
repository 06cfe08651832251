//! Booting from UEFI: choosing the display mode and building the memory map.
use vstd::prelude::*;
use crate::hw::uefi::{MemoryDescriptor, MemoryType};

pub mod arch;
pub mod writer;

verus! {

/// Kind of a physical memory area.
#[derive(Copy, Clone, Debug, PartialEq, Eq, Structural)]
pub enum AreaType {
    Reserved,
    Usable,
    Firmware,
    Mmio,
}

/// A run of physical memory of one kind, in pages.
#[derive(Copy, Clone, Debug, PartialEq, Eq, Structural)]
pub struct MemoryArea {
    /// Physical address of the first page.
    pub offset: u64,
    /// Number of pages.
    pub length: u64,
    pub area_type: AreaType,
    pub attrs: u64,
}

/// Kind of the memory of a firmware memory type; `None` for the I/O port
/// space, which ends the building of the memory map.
pub open spec fn area_type_of(t: MemoryType) -> Option<AreaType> {
    match t {
        MemoryType::ReservedMemoryType => Some(AreaType::Reserved),
        MemoryType::LoaderCode => Some(AreaType::Usable),
        MemoryType::LoaderData => Some(AreaType::Usable),
        MemoryType::BootServicesCode => Some(AreaType::Usable),
        MemoryType::BootServicesData => Some(AreaType::Usable),
        MemoryType::RuntimeServicesCode => Some(AreaType::Firmware),
        MemoryType::RuntimeServicesData => Some(AreaType::Firmware),
        MemoryType::ConventionalMemory => Some(AreaType::Usable),
        MemoryType::UnusableMemory => Some(AreaType::Reserved),
        MemoryType::AcpiReclaimMemory => Some(AreaType::Firmware),
        MemoryType::AcpiMemoryNvs => Some(AreaType::Firmware),
        MemoryType::MemoryMappedIo => Some(AreaType::Mmio),
        MemoryType::MemoryMappedIoPortSpace => None,
        MemoryType::PalCode => Some(AreaType::Firmware),
        MemoryType::PersistentMemory => Some(AreaType::Usable),
    }
}

fn area_type(t: MemoryType) -> (r: Option<AreaType>)
    ensures
        r == area_type_of(t),
{
    match t {
        MemoryType::ReservedMemoryType => Some(AreaType::Reserved),
        MemoryType::LoaderCode => Some(AreaType::Usable),
        MemoryType::LoaderData => Some(AreaType::Usable),
        MemoryType::BootServicesCode => Some(AreaType::Usable),
        MemoryType::BootServicesData => Some(AreaType::Usable),
        MemoryType::RuntimeServicesCode => Some(AreaType::Firmware),
        MemoryType::RuntimeServicesData => Some(AreaType::Firmware),
        MemoryType::ConventionalMemory => Some(AreaType::Usable),
        MemoryType::UnusableMemory => Some(AreaType::Reserved),
        MemoryType::AcpiReclaimMemory => Some(AreaType::Firmware),
        MemoryType::AcpiMemoryNvs => Some(AreaType::Firmware),
        MemoryType::MemoryMappedIo => Some(AreaType::Mmio),
        MemoryType::MemoryMappedIoPortSpace => None,
        MemoryType::PalCode => Some(AreaType::Firmware),
        MemoryType::PersistentMemory => Some(AreaType::Usable),
    }
}

/// The areas recorded for the first `k` descriptors, and whether the
/// recording stopped: each descriptor adds an area, except that the I/O
/// port space stops the recording, and a descriptor that continues the
/// last area with memory of the same kind is added to that area and stops
/// the recording too.
pub open spec fn scan_areas(descs: Seq<MemoryDescriptor>, k: int) -> (Seq<MemoryArea>, bool)
    decreases k,
{
    if k <= 0 {
        (Seq::empty(), false)
    } else {
        let (a, stop) = scan_areas(descs, k - 1);
        let d = descs[k - 1];
        if stop {
            (a, true)
        } else {
            match area_type_of(d.mem_type) {
                None => (a, true),
                Some(ty) => if continues(a, ty, d) {
                    (a.update(a.len() - 1, MemoryArea { length: (a.last().length + d.number_of_pages) as u64, ..a.last() }), true)
                } else {
                    (a.push(MemoryArea { offset: d.physical_start, length: d.number_of_pages, area_type: ty, attrs: 0 }), false)
                },
            }
        }
    }
}

/// Every area of `a` starts no later than the ones after it.
pub open spec fn sorted_by_offset(a: Seq<MemoryArea>) -> bool {
    forall|i: int, j: int| 0 <= i < j < a.len() ==> #[trigger] a[i].offset <= #[trigger] a[j].offset
}

/// The end of the last of the areas `a`: its address plus its pages
/// shifted to bytes (the shift dropping what leaves 64 bits).
pub open spec fn last_end(a: Seq<MemoryArea>) -> int {
    a.last().offset + (a.last().length << 12u64)
}

/// Descriptor `d` of kind `ty` continues the last of the areas `a`: same
/// kind, and it starts where that area ends.
pub open spec fn continues(a: Seq<MemoryArea>, ty: AreaType, d: MemoryDescriptor) -> bool {
    a.len() > 0 && a.last().area_type == ty && last_end(a) == d.physical_start
}

/// Recording the first `k` descriptors overflows 64 bits: the end of the
/// last area, computed when a descriptor of its kind follows, or the pages
/// of an area grown by a descriptor that continues it.
pub open spec fn scan_overflows(descs: Seq<MemoryDescriptor>, k: int) -> bool
    decreases k,
{
    if k <= 0 {
        false
    } else {
        let (a, stop) = scan_areas(descs, k - 1);
        let d = descs[k - 1];
        scan_overflows(descs, k - 1) || (!stop && match area_type_of(d.mem_type) {
            None => false,
            Some(ty) => a.len() > 0 && a.last().area_type == ty && (last_end(a) > u64::MAX || (
            last_end(a) == d.physical_start && a.last().length + d.number_of_pages > u64::MAX)),
        })
    }
}

proof fn lemma_scan_bounds(descs: Seq<MemoryDescriptor>, k: int)
    requires
        0 <= k <= descs.len(),
    ensures
        scan_areas(descs, k).0.len() <= k,
        !scan_areas(descs, k).1 ==> scan_areas(descs, k).0.len() == k,
    decreases k,
{
    if k > 0 {
        lemma_scan_bounds(descs, k - 1);
    }
}

/// The display mode chosen among the first `k` modes, starting from the
/// current mode `(mode, width, height)`: a mode is taken when it is wider or
/// taller than the one chosen so far.
pub open spec fn chosen_mode(cur: (u32, u32, u32), modes: Seq<(u32, u32)>, k: int) -> (u32, u32, u32)
    decreases k,
{
    if k <= 0 {
        cur
    } else {
        let c = chosen_mode(cur, modes, k - 1);
        let (w, h) = modes[k - 1];
        if w > c.1 || h > c.2 {
            ((k - 1) as u32, w, h)
        } else {
            c
        }
    }
}

/// Chooses the display mode at boot: `modes[i]` is the resolution
/// (horizontal, vertical) of mode `i`, and the result is the mode number and
/// resolution that `chosen_mode` gives from the current mode.
pub fn select_gop_mode(mode: u32, width: u32, height: u32, modes: &Vec<(u32, u32)>) -> (r: (u32, u32, u32))
    requires
        modes@.len() <= u32::MAX,
    ensures
        r == chosen_mode((mode, width, height), modes@, modes@.len() as int),
{
    let mut best = (mode, width, height);
    let mut i: usize = 0;
    while i < modes.len()
        invariant
            i <= modes@.len() <= u32::MAX,
            best == chosen_mode((mode, width, height), modes@, i as int),
        decreases modes@.len() - i,
    {
        let (w, h) = modes[i];
        if w > best.1 || h > best.2 {
            best = (i as u32, w, h);
        }
        i = i + 1;
    }
    best
}

/// The areas the firmware's descriptors record, and whether the recording
/// stopped early (see `scan_areas`); `None` when recording them overflows
/// 64 bits (see `scan_overflows`).
pub fn memory_areas(descs: &Vec<MemoryDescriptor>) -> (r: Option<(Vec<MemoryArea>, bool)>)
    ensures
        r is None <==> scan_overflows(descs@, descs@.len() as int),
        r matches Some(v) ==> (v.0@, v.1) == scan_areas(descs@, descs@.len() as int),
{
    let mut areas: Vec<MemoryArea> = Vec::new();
    let mut k: usize = 0;
    let mut stop = false;
    while k < descs.len() && !stop
        invariant
            0 <= k <= descs@.len(),
            stop ==> scan_areas(descs@, descs@.len() as int) == (areas@, true),
            stop ==> !scan_overflows(descs@, descs@.len() as int),
            !stop ==> scan_areas(descs@, k as int) == (areas@, false),
            !stop ==> !scan_overflows(descs@, k as int),
        decreases descs@.len() - k + if stop { 0int } else { 1int },
    {
        proof {
            lemma_scan_bounds(descs@, k as int);
            lemma_scan_prefix(descs@, k as int + 1, descs@.len() as int);
        }
        let d = descs[k];
        match area_type(d.mem_type) {
            None => {
                stop = true;
                proof {
                    lemma_scan_stopped(descs@, k as int + 1, descs@.len() as int);
                }
            },
            Some(ty) => {
                let n = areas.len();
                let mut merge = false;
                if n > 0 && areas[n - 1].area_type == ty {
                    let last = areas[n - 1];
                    let end = match last.offset.checked_add(last.length << 12u64) {
                        Some(e) => e,
                        None => {
                            proof {
                                assert(scan_overflows(descs@, k as int + 1));
                                lemma_overflow_stays(descs@, k as int + 1, descs@.len() as int);
                            }
                            return None;
                        },
                    };
                    if end == d.physical_start {
                        let length = match last.length.checked_add(d.number_of_pages) {
                            Some(l) => l,
                            None => {
                                proof {
                                    assert(scan_overflows(descs@, k as int + 1));
                                    lemma_overflow_stays(descs@, k as int + 1, descs@.len() as int);
                                }
                                return None;
                            },
                        };
                        areas.set(n - 1, MemoryArea { length, ..last });
                        merge = true;
                    }
                }
                if merge {
                    stop = true;
                    proof {
                        assert(areas@ =~= scan_areas(descs@, k as int + 1).0);
                        assert(!scan_overflows(descs@, k as int + 1));
                        lemma_scan_stopped(descs@, k as int + 1, descs@.len() as int);
                    }
                } else {
                    areas.push(
                        MemoryArea {
                            offset: d.physical_start,
                            length: d.number_of_pages,
                            area_type: ty,
                            attrs: 0,
                        },
                    );
                    k = k + 1;
                    proof {
                        assert(areas@ =~= scan_areas(descs@, k as int).0);
                    }
                }
            },
        }
    }
    proof {
        if !stop {
            assert(k == descs@.len());
        }
    }
    Some((areas, stop))
}

/// Builds the physical memory map from the firmware's descriptors into
/// `mem_map`: the kind of each descriptor is recorded as `scan_areas`
/// says. When the recording stops early the areas recorded so far are
/// left as they are; otherwise they are sorted by address (by exchanging
/// neighbours, so areas at the same address keep their order) and `key`
/// takes the map key `map_key`.
pub fn init_mem_map(descs: &Vec<MemoryDescriptor>, map_key: usize, key: &mut usize, mem_map: &mut Vec<MemoryArea>)
    requires
        old(mem_map)@.len() == 0x100,
        descs@.len() >= 1,
        !scan_overflows(descs@, descs@.len() as int),
        scan_areas(descs@, descs@.len() as int).0.len() <= 0x100,
    ensures
        ({
            let (areas, stop) = scan_areas(descs@, descs@.len() as int);
            &&& final(mem_map)@.len() == 0x100
            &&& forall|i: int| areas.len() <= i < 0x100 ==> #[trigger] final(mem_map)@[i] == old(mem_map)@[i]
            &&& stop ==> final(mem_map)@.subrange(0, areas.len() as int) == areas && *final(key) == *old(key)
            &&& !stop ==> {
                &&& sorted_by_offset(final(mem_map)@.subrange(0, areas.len() as int))
                &&& final(mem_map)@.subrange(0, areas.len() as int).to_multiset() == areas.to_multiset()
                &&& forall|x: u64| #[trigger] at_offset(final(mem_map)@.subrange(0, areas.len() as int), x)
                    == at_offset(areas, x)
                &&& *final(key) == map_key
            }
        }),
{
    let (mut areas, stop) = match memory_areas(descs) {
        Some(r) => r,
        None => {
            return;
        },
    };
    proof {
        if !stop {
            lemma_scan_bounds(descs@, descs@.len() as int);
        }
    }
    let n = areas.len();
    if !stop {
        sort_by_offset(&mut areas);
        *key = map_key;
    }
    let mut i: usize = 0;
    while i < n
        invariant
            i <= n == areas@.len() <= 0x100,
            mem_map@.len() == 0x100,
            forall|j: int| 0 <= j < i ==> #[trigger] mem_map@[j] == areas@[j],
            forall|j: int| n <= j < 0x100 ==> #[trigger] mem_map@[j] == old(mem_map)@[j],
        decreases n - i,
    {
        mem_map.set(i, areas[i]);
        i = i + 1;
    }
    proof {
        assert(mem_map@.subrange(0, n as int) =~= areas@);
    }
}

/// Scanning stops for good: once stopped, further descriptors change nothing.
proof fn lemma_scan_stopped(descs: Seq<MemoryDescriptor>, k: int, m: int)
    requires
        1 <= k <= m,
        scan_areas(descs, k).1,
    ensures
        scan_areas(descs, m) == scan_areas(descs, k),
        scan_overflows(descs, m) == scan_overflows(descs, k),
    decreases m - k,
{
    if m > k {
        lemma_scan_stopped(descs, k, m - 1);
    }
}

/// The recording of more descriptors holds at least as many areas.
proof fn lemma_scan_prefix(descs: Seq<MemoryDescriptor>, k: int, m: int)
    requires
        0 <= k <= m,
    ensures
        scan_areas(descs, k).0.len() <= scan_areas(descs, m).0.len(),
    decreases m - k,
{
    if m > k {
        lemma_scan_prefix(descs, k, m - 1);
    }
}

/// Once recording overflows, recording more descriptors overflows too.
proof fn lemma_overflow_stays(descs: Seq<MemoryDescriptor>, k: int, m: int)
    requires
        0 <= k <= m,
        scan_overflows(descs, k),
    ensures
        scan_overflows(descs, m),
    decreases m - k,
{
    if m > k {
        lemma_overflow_stays(descs, k, m - 1);
    }
}

/// Sorts the areas by address, exchanging neighbours that are out of order.
fn sort_by_offset(v: &mut Vec<MemoryArea>)
    requires
        old(v)@.len() >= 1,
    ensures
        final(v)@.len() == old(v)@.len(),
        sorted_by_offset(final(v)@),
        final(v)@.to_multiset() == old(v)@.to_multiset(),
        forall|x: u64| #[trigger] at_offset(final(v)@, x) == at_offset(old(v)@, x),
{
    let n = v.len();
    let mut i: usize = 0;
    while i < n - 1
        invariant
            n == v@.len() >= 1,
            i <= n - 1,
            v@.to_multiset() == old(v)@.to_multiset(),
            forall|x: u64| #[trigger] at_offset(v@, x) == at_offset(old(v)@, x),
            forall|a: int, b: int| n - i <= a < b < n ==> #[trigger] v@[a].offset <= #[trigger] v@[b].offset,
            forall|a: int, b: int| 0 <= a < n - i <= b < n ==> #[trigger] v@[a].offset <= #[trigger] v@[b].offset,
        decreases n - 1 - i,
    {
        let mut j: usize = 0;
        while j < n - i - 1
            invariant
                n == v@.len() >= 1,
                i < n - 1,
                j <= n - i - 1,
                v@.to_multiset() == old(v)@.to_multiset(),
                forall|x: u64| #[trigger] at_offset(v@, x) == at_offset(old(v)@, x),
                forall|a: int, b: int| n - i <= a < b < n ==> #[trigger] v@[a].offset <= #[trigger] v@[b].offset,
                forall|a: int, b: int| 0 <= a < n - i <= b < n ==> #[trigger] v@[a].offset <= #[trigger] v@[b].offset,
                forall|a: int| 0 <= a <= j ==> #[trigger] v@[a].offset <= v@[j as int].offset,
            decreases n - i - 1 - j,
        {
            if v[j].offset > v[j + 1].offset {
                let x = v[j];
                let y = v[j + 1];
                let ghost before = v@;
                v.set(j, y);
                v.set(j + 1, x);
                proof {
                    lemma_swap_multiset(before, j as int, j as int + 1);
                    assert(v@ == before.update(j as int, y).update(j as int + 1, x));
                    assert forall|z: u64| #[trigger] at_offset(v@, z) == at_offset(old(v)@, z) by {
                        lemma_swap_at_offset(before, j as int, z);
                    }
                }
            }
            j = j + 1;
        }
        i = i + 1;
    }
}

/// The areas of `a` that start at `x`, in their order in `a`.
pub open spec fn at_offset(a: Seq<MemoryArea>, x: u64) -> Seq<MemoryArea> {
    a.filter(|m: MemoryArea| m.offset == x)
}

/// Exchanging two neighbours that start at different addresses keeps the
/// order of the areas at each address.
proof fn lemma_swap_at_offset(s: Seq<MemoryArea>, j: int, x: u64)
    requires
        0 <= j,
        j + 1 < s.len(),
        s[j].offset != s[j + 1].offset,
    ensures
        at_offset(s.update(j, s[j + 1]).update(j + 1, s[j]), x) == at_offset(s, x),
{
    let pred = |m: MemoryArea| m.offset == x;
    let p = s.subrange(0, j);
    let q = s.subrange(j + 2, s.len() as int);
    let ab = seq![s[j], s[j + 1]];
    let ba = seq![s[j + 1], s[j]];
    let t = s.update(j, s[j + 1]).update(j + 1, s[j]);
    assert(s =~= p + ab + q);
    assert(t =~= p + ba + q);
    Seq::filter_distributes_over_add(p + ab, q, pred);
    Seq::filter_distributes_over_add(p, ab, pred);
    Seq::filter_distributes_over_add(p + ba, q, pred);
    Seq::filter_distributes_over_add(p, ba, pred);
    assert(ab.filter(pred) == ba.filter(pred)) by {
        reveal_with_fuel(Seq::filter, 3);
        assert(ab.drop_last() =~= seq![s[j]]);
        assert(ba.drop_last() =~= seq![s[j + 1]]);
        assert(seq![s[j]].drop_last() =~= Seq::<MemoryArea>::empty());
        assert(seq![s[j + 1]].drop_last() =~= Seq::<MemoryArea>::empty());
    }
}

/// Exchanging two elements keeps the multiset of a sequence.
proof fn lemma_swap_multiset(s: Seq<MemoryArea>, a: int, b: int)
    requires
        0 <= a < s.len(),
        0 <= b < s.len(),
    ensures
        s.update(a, s[b]).update(b, s[a]).to_multiset() == s.to_multiset(),
{
    broadcast use vstd::seq_lib::to_multiset_update, vstd::seq_lib::to_multiset_contains,
        vstd::multiset::group_multiset_axioms;
    let m = s.to_multiset();
    let t = s.update(a, s[b]);
    assert(s.contains(s[a]));
    assert(t.to_multiset() == m.insert(s[b]).remove(s[a]));
    assert(t[b] == s[b]);
    let r = t.update(b, s[a]).to_multiset();
    assert(r == m.insert(s[b]).remove(s[a]).insert(s[a]).remove(s[b]));
    assert(m.count(s[a]) > 0);
    assert forall|z: MemoryArea| #[trigger] r.count(z) == m.count(z) by {}
    assert(r =~= m);
}

/// The kind of memory each firmware memory type is: the memory the loader
/// and the boot services used, conventional and persistent memory are
/// usable; the runtime services' code and data, the ACPI tables and
/// non-volatile storage and the PAL code stay with the firmware; reserved
/// and unusable memory are reserved; memory-mapped I/O is I/O; the I/O port
/// space is no memory at all.
pub proof fn law_memory_kinds(t: MemoryType)
    ensures
        area_type_of(t) == Some(AreaType::Usable) <==> (t == MemoryType::LoaderCode || t
            == MemoryType::LoaderData || t == MemoryType::BootServicesCode || t
            == MemoryType::BootServicesData || t == MemoryType::ConventionalMemory || t
            == MemoryType::PersistentMemory),
        area_type_of(t) == Some(AreaType::Firmware) <==> (t == MemoryType::RuntimeServicesCode || t
            == MemoryType::RuntimeServicesData || t == MemoryType::AcpiReclaimMemory || t
            == MemoryType::AcpiMemoryNvs || t == MemoryType::PalCode),
        area_type_of(t) == Some(AreaType::Reserved) <==> (t == MemoryType::ReservedMemoryType || t
            == MemoryType::UnusableMemory),
        area_type_of(t) == Some(AreaType::Mmio) <==> t == MemoryType::MemoryMappedIo,
        area_type_of(t) is None <==> t == MemoryType::MemoryMappedIoPortSpace,
{
}

/// An area of the memory map starts as a descriptor records it, with the
/// descriptor's kind of memory: every area but a grown last one is a
/// descriptor's address, page count and kind.
pub proof fn law_areas_keep_their_kind(descs: Seq<MemoryDescriptor>, k: int, i: int)
    requires
        0 <= k <= descs.len(),
        0 <= i < scan_areas(descs, k).0.len(),
    ensures
        exists|n: int| 0 <= n < k && {
            let d = #[trigger] descs[n];
            &&& area_type_of(d.mem_type) == Some(scan_areas(descs, k).0[i].area_type)
            &&& scan_areas(descs, k).0[i].offset == d.physical_start
        },
    decreases k,
{
    let (a, stop) = scan_areas(descs, k - 1);
    if i < a.len() {
        law_areas_keep_their_kind(descs, k - 1, i);
        let n = choose|n: int| 0 <= n < k - 1 && {
            let d = #[trigger] descs[n];
            &&& area_type_of(d.mem_type) == Some(a[i].area_type)
            &&& a[i].offset == d.physical_start
        };
        assert(descs[n] == descs[n]);
    } else {
        assert(descs[k - 1] == descs[k - 1]);
    }
}

} // verus!
