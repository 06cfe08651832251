//! Physical memory: page descriptors and the buddy allocator of a zone.
use vstd::prelude::*;
use core::cmp::Ordering;

pub mod buddy;
pub mod cache;

verus! {

pub const PAGE_SHIFT: usize = 12;

/// Highest order of a block handed out by the buddy allocator (512 pages).
pub const MAX_PAGE_ORDER: usize = 9;

/// Marks a list link or head reference that points nowhere.
pub const NO_PAGE: usize = usize::MAX;

/// Number of pages in a block of order `o`.
pub open spec fn order_size(o: int) -> int {
    if o <= 0 {
        1
    } else if o == 1 {
        2
    } else if o == 2 {
        4
    } else if o == 3 {
        8
    } else if o == 4 {
        16
    } else if o == 5 {
        32
    } else if o == 6 {
        64
    } else if o == 7 {
        128
    } else if o == 8 {
        256
    } else {
        512
    }
}

/// Number of pages in a block of order `o`.
pub fn order_pages(o: usize) -> (r: usize)
    requires
        o <= MAX_PAGE_ORDER,
    ensures
        r == order_size(o as int),
{
    match o {
        0 => 1,
        1 => 2,
        2 => 4,
        3 => 8,
        4 => 16,
        5 => 32,
        6 => 64,
        7 => 128,
        8 => 256,
        _ => 512,
    }
}

/// Descriptor of one physical page.
#[derive(Copy, Clone, Debug)]
pub struct PageDescriptor {
    /// Previous page of the list this page heads or belongs to.
    pub prev: usize,
    /// For a tail page of a compound page: its head; otherwise the next page
    /// of a list.
    pub next: usize,
    pub lru: usize,
    pub refs: u32,
    pub virt: u32,
    /// Order of the compound page this page heads.
    pub idx: usize,
    pub flags: u32,
}

impl PageDescriptor {
    pub const FLAGS_TYPE_MASK: u32 = 0xF;
    pub const FLAGS_TYPE_UNUSABLE: u32 = 0x0;
    pub const FLAGS_TYPE_UNUSED: u32 = 0x1;
    pub const FLAGS_TYPE_KERNEL_STATIC: u32 = 0x2;
    pub const FLAGS_TYPE_KERNEL_DYNAMIC: u32 = 0x3;
    pub const FLAGS_TYPE_USER: u32 = 0x4;
    pub const FLAGS_TYPE_USER_CACHED: u32 = 0x5;
    pub const FLAGS_TYPE_FIRMWARE: u32 = 0x6;
    pub const FLAGS_COMPOUND: u32 = 0x8;
    pub const FLAGS_PINNED: u32 = 0x10;
    pub const FLAGS_LOCKED: u32 = 0x20;
    pub const FLAGS_LOCKED_EXCLUSIVE: u32 = 0x40;
    pub const FLAGS_ORDER_MASK: u32 = 0xF80;
    pub const FLAGS_ORDER_SHIFT: u32 = 7;
    pub const MAX_PAGE_ORDER: u32 = 9;
    /// The page heads a compound page.
    pub const FLAGS_COMPOUND_HEAD: u32 = 0x1000;

    /// A descriptor with every field cleared and no links.
    pub fn empty() -> (r: Self)
        ensures
            r.prev == NO_PAGE && r.next == NO_PAGE && r.lru == NO_PAGE,
            r.refs == 0 && r.virt == 0 && r.idx == 0 && r.flags == 0,
    {
        PageDescriptor { prev: NO_PAGE, next: NO_PAGE, lru: NO_PAGE, refs: 0, virt: 0, idx: 0, flags: 0 }
    }

    /// The head of the compound page page `this` (this descriptor) belongs to:
    /// the page its link names when it is a tail page, itself otherwise.
    pub fn get_head(&self, this: usize) -> (r: usize)
        ensures
            r == if self.flags & Self::FLAGS_COMPOUND != 0 {
                self.next
            } else {
                this
            },
    {
        if self.flags & Self::FLAGS_COMPOUND != 0 {
            self.next
        } else {
            this
        }
    }

    /// Iterator over the list of pages that starts at page `start`.
    pub fn iter(start: usize) -> (r: PageDescIter)
        ensures
            r.0 == start,
    {
        PageDescIter(start)
    }
}

/// Iterator over a list of pages, following their `next` links.
pub struct PageDescIter(pub usize);

impl PageDescIter {
    /// The current page of the list, moving on to the one its link names; the
    /// list ends at `NO_PAGE` or at a link outside `pages`.
    pub fn next(&mut self, pages: &Vec<PageDescriptor>) -> (r: Option<usize>)
        ensures
            r == if old(self).0 < pages@.len() {
                Some(old(self).0)
            } else {
                None::<usize>
            },
            final(self).0 == if old(self).0 < pages@.len() {
                pages@[old(self).0 as int].next
            } else {
                old(self).0
            },
    {
        if self.0 < pages.len() {
            let page = self.0;
            self.0 = pages[page].next;
            Some(page)
        } else {
            None
        }
    }
}

/// A physical memory area, in pages.
#[derive(Copy, Clone, Debug, Default, PartialEq, Eq)]
pub struct PhysMemoryArea {
    /// Length of the area, in pages.
    pub length: u32,
    pub flags: u32,
    /// Index of the node the area belongs to.
    pub node: usize,
}

impl PhysMemoryArea {
    pub const FLAGS_TYPE_MASK: usize = 0b11;
    pub const FLAGS_TYPE_UNUSABLE: usize = 0b00;
    pub const FLAGS_TYPE_USABLE: usize = 0b01;
    pub const FLAGS_TYPE_FIRMWARE: usize = 0b10;
    pub const FLAGS_TYPE_MMIO: usize = 0b11;
    pub const FLAGS_PERSISTENT: usize = 1 << 2;
}

/// A virtual memory area of a context.
#[derive(Copy, Clone, Debug, Default)]
pub struct VirtMemoryArea {
    pub addr: u32,
    pub offset: u32,
    pub length: u32,
    pub flags: u32,
    /// The resource descriptor backing the area.
    pub rd: usize,
    /// The first page descriptor of the area.
    pub pages: usize,
}

impl VirtMemoryArea {
    pub const FLAGS_READ: usize = 0x1;
    pub const FLAGS_WRITE: usize = 0x2;
    pub const FLAGS_EXEC: usize = 0x4;
    pub const FLAGS_USER: usize = 0x8;
    pub const FLAGS_STACK: usize = 0x10;

    /// Start and end (start plus length) of the area.
    fn bounds(&self) -> (r: (u64, u64))
        ensures
            r.0 == self.addr,
            r.1 == self.addr + self.length,
    {
        (self.addr as u64, self.addr as u64 + self.length as u64)
    }

    /// Compares `addr` with the area: `Less` below its start, `Greater`
    /// beyond its end (start plus length), `Equal` within.
    pub fn cmp(&self, addr: usize) -> (r: Ordering)
        ensures
            r == if addr < self.addr {
                Ordering::Less
            } else if addr > self.addr + self.length {
                Ordering::Greater
            } else {
                Ordering::Equal
            },
    {
        let (start, end) = self.bounds();
        let a = widen(addr);
        if a < start {
            Ordering::Less
        } else if a > end {
            Ordering::Greater
        } else {
            Ordering::Equal
        }
    }
}

fn widen(x: usize) -> (r: u64)
    ensures
        r == x,
{
    x as u64
}

/// Largest number of pages a node can span.
pub const MAX_NODE_PAGES: usize = 0xFFFF_FFFF;

/// A memory node: its pages and the zone that hands them out.
pub struct NodeDescriptor {
    pub flags: u32,
    pub first_page: u32,
    pub spanned_pages: u32,
    pub present_pages: u32,
    pub zone_normal: buddy::ZoneDescriptor,
}

impl NodeDescriptor {
    /// The descriptor index of page `ppn`: its distance from the node's
    /// first page.
    pub fn get_page(&self, ppn: usize) -> (r: usize)
        requires
            self.first_page <= ppn,
            ppn - self.first_page < MAX_NODE_PAGES,
        ensures
            r == ppn - self.first_page,
    {
        ppn - self.first_page as usize
    }

    /// The page number of the descriptor with index `desc`.
    pub fn get_ppn(&self, desc: usize) -> (r: usize)
        requires
            desc + self.first_page <= usize::MAX,
        ensures
            r == desc + self.first_page,
    {
        desc + self.first_page as usize
    }
}

/// What to do about a page fault.
#[derive(Copy, Clone, Debug, PartialEq, Eq, Structural)]
pub enum PageFaultAction {
    /// Return to the faulting context without change.
    Ignore,
    /// Map the page writable (the entry's attributes with the write bit) at
    /// the page `ppn`: the faulting page itself when `copy` is false,
    /// otherwise a new page the old one (`ppn`) is copied to. `refs` is the
    /// old page's new reference count.
    MakeWritable { ppn: u64, copy: bool, refs: u32, attrs: u64 },
    /// The page is not present: block the context.
    Block,
    /// The fault cannot be handled.
    Unrecoverable,
}

/// The page number an entry names: the entry masked with the page number
/// mask shifted down (the shift binds tighter than the mask).
pub open spec fn entry_ppn(entry: u64) -> u64 {
    entry & 0x0000_0FFF_FFFF_FFFF
}

/// The handling of a fault with access attributes `attr` in `area` (the
/// virtual memory area of the faulting address, if there is one), whose
/// translation is `entry` and whose page has `refs` references: nothing
/// when there is no area or the area does not allow the access; for a
/// write to a page mapped read-only, the page made writable in place when
/// it has a single reference and copied otherwise; blocking when the page
/// is not present; otherwise the fault cannot be handled.
pub open spec fn page_fault_action(area: Option<VirtMemoryArea>, attr: u32, entry: u64, refs: u32) -> PageFaultAction {
    match area {
        None => PageFaultAction::Ignore,
        Some(a) => if a.flags & attr != attr {
            PageFaultAction::Ignore
        } else if attr & (VirtMemoryArea::FLAGS_WRITE as u32) != 0 && entry & crate::hw::arch::riscv::atp::WRITE == 0 {
            PageFaultAction::MakeWritable {
                ppn: entry_ppn(entry),
                copy: refs != 1,
                refs: if refs == 1 { 1 } else { (refs as int - 1) as u32 },
                attrs: entry | crate::hw::arch::riscv::atp::WRITE,
            }
        } else if entry & crate::hw::arch::riscv::atp::VALID == 0 {
            PageFaultAction::Block
        } else {
            PageFaultAction::Unrecoverable
        },
    }
}

/// Decides how to handle a page fault (see `page_fault_action`).
pub fn handle_page_fault(area: Option<VirtMemoryArea>, attr: u32, entry: u64, refs: u32) -> (r: PageFaultAction)
    ensures
        r == page_fault_action(area, attr, entry, refs),
{
    let a = match area {
        None => {
            return PageFaultAction::Ignore;
        },
        Some(a) => a,
    };
    if a.flags & attr != attr {
        return PageFaultAction::Ignore;
    }
    let write = VirtMemoryArea::FLAGS_WRITE as u32;
    if attr & write != 0 && entry & crate::hw::arch::riscv::atp::WRITE == 0 {
        let ppn = entry & crate::hw::arch::riscv::atp::PPN_MASK >> crate::hw::arch::riscv::atp::PPN_SHIFT;
        assert(0x003F_FFFF_FFFF_FC00u64 >> 10u64 == 0x0000_0FFF_FFFF_FFFFu64) by (bit_vector);
        assert(ppn == entry_ppn(entry));
        let new_refs = if refs == 1 {
            1
        } else if refs == 0 {
            assert((refs as int - 1) as u32 == 0xFFFF_FFFFu32) by (bit_vector)
                requires
                    refs == 0,
            ;
            u32::MAX
        } else {
            refs - 1
        };
        PageFaultAction::MakeWritable {
            ppn,
            copy: refs != 1,
            refs: new_refs,
            attrs: entry | crate::hw::arch::riscv::atp::WRITE,
        }
    } else if entry & crate::hw::arch::riscv::atp::VALID == 0 {
        PageFaultAction::Block
    } else {
        PageFaultAction::Unrecoverable
    }
}

pub struct CacheEntry {
    pub next: usize,
}

pub struct HeapEntry {
    pub next: usize,
    pub len: usize,
}

} // verus!
