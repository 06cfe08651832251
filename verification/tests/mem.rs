use core::cmp::Ordering;
use lib::kernel::mem::buddy::{ZoneDescriptor, FREE_HEAD};
use lib::kernel::mem::cache::{AllocError, CacheAlloc, CacheDescriptor};
use lib::kernel::mem::{
    handle_page_fault, order_pages, NodeDescriptor, PageDescriptor, PageFaultAction, VirtMemoryArea, NO_PAGE,
};
use lib::kernel::misc::fmt::{NodeLine, NodesDisplay};

fn zone(pages: usize) -> ZoneDescriptor {
    let mut descs = Vec::new();
    for _ in 0..pages {
        descs.push(PageDescriptor::empty());
    }
    let mut z = ZoneDescriptor::new(0, descs);
    z.init();
    z
}

fn is_free_head(z: &ZoneDescriptor, page: usize, order: usize) -> bool {
    z.pages[page].flags == FREE_HEAD && z.pages[page].idx == order
}

#[test]
fn buddy_alloc() {
    let mut z = zone(512);
    assert_eq!(z.managed_pages, 512);
    assert!(is_free_head(&z, 0, 9));

    assert_eq!(z.reserve(1, 1), Some(1));
    assert_eq!(z.managed_pages, 511);
    assert!(is_free_head(&z, 0, 0));
    assert_ne!(z.pages[1].flags, FREE_HEAD);
    for o in 1..9 {
        assert!(is_free_head(&z, 1 << o, o), "order {}", o);
    }

    assert_eq!(z.reserve(2, 1), Some(2));
    assert_eq!(z.managed_pages, 510);
    assert!(is_free_head(&z, 0, 0));
    assert_ne!(z.pages[2].flags, FREE_HEAD);
    assert!(is_free_head(&z, 3, 0));
    assert!(is_free_head(&z, 4, 2));
}

#[test]
fn order_pages_are_powers_of_two() {
    for o in 0..=9 {
        assert_eq!(order_pages(o), 1 << o);
    }
}

#[test]
fn init_makes_blocks_of_the_highest_order() {
    let z = zone(1024);
    assert_eq!(z.managed_pages, 1024);
    assert!(is_free_head(&z, 0, 9));
    assert!(is_free_head(&z, 512, 9));
}

#[test]
fn alloc_splits_the_smallest_block() {
    let mut z = zone(512);
    let a = z.alloc_order(0);
    assert_eq!(a, Some(0));
    assert_eq!(z.managed_pages, 511);
    assert!(is_free_head(&z, 1, 0));
    assert!(is_free_head(&z, 256, 8));
    let b = z.alloc_order(0);
    assert_eq!(b, Some(1));
    assert_eq!(z.managed_pages, 510);
}

#[test]
fn free_after_alloc_merges_back() {
    let mut z = zone(512);
    let a = z.alloc_order(3).unwrap();
    assert_eq!(z.managed_pages, 504);
    z.free(3, a);
    assert_eq!(z.managed_pages, 512);
    assert!(is_free_head(&z, 0, 9));
}

#[test]
fn alloc_fails_when_no_block_is_large_enough() {
    let mut z = zone(512);
    assert_eq!(z.alloc_order(9), Some(0));
    assert_eq!(z.managed_pages, 0);
    assert_eq!(z.alloc_order(0), None);
    assert_eq!(z.managed_pages, 0);
}

#[test]
fn reserve_outside_the_zone_is_refused() {
    let mut z = zone(512);
    assert_eq!(z.reserve(511, 1), None);
    assert_eq!(z.reserve(600, 2), None);
    assert_eq!(z.managed_pages, 512);
    assert!(is_free_head(&z, 0, 9));
}

#[test]
fn reserve_a_range_across_blocks() {
    let mut z = zone(1024);
    assert_eq!(z.reserve(500, 20), Some(500));
    assert_eq!(z.managed_pages, 1004);
    for p in 500..520 {
        assert_ne!(z.pages[p].flags, FREE_HEAD);
    }
    assert!(is_free_head(&z, 0, 8));
    assert!(is_free_head(&z, 520, 3));
}

#[test]
fn page_list_iteration_follows_links() {
    let mut pages = vec![PageDescriptor::empty(), PageDescriptor::empty(), PageDescriptor::empty()];
    pages[0].next = 2;
    pages[2].next = NO_PAGE;
    let mut it = PageDescriptor::iter(0);
    assert_eq!(it.next(&pages), Some(0));
    assert_eq!(it.next(&pages), Some(2));
    assert_eq!(it.next(&pages), None);
}

#[test]
fn compound_head_of_a_tail_page() {
    let mut d = PageDescriptor::empty();
    assert_eq!(d.get_head(7), 7);
    d.flags = PageDescriptor::FLAGS_COMPOUND;
    d.next = 4;
    assert_eq!(d.get_head(7), 4);
}

#[test]
fn cache_allocation_sequence() {
    let mut c = CacheDescriptor::new();
    assert!(c.needs_page(24, 8));
    assert_eq!(c.allocate(8, 8, None), Err(AllocError));
    assert_eq!(
        c.allocate(24, 8, Some(0x1000)),
        Ok(CacheAlloc { area: 0x1000, size: 24, reused: false })
    );
    assert!(!c.needs_page(8, 8));
    assert_eq!(c.allocate(8, 8, None), Ok(CacheAlloc { area: 0x1018, size: 8, reused: true }));
    assert_eq!(c.allocate(16, 8, None), Ok(CacheAlloc { area: 0x1020, size: 16, reused: true }));
    assert_eq!(c.allocate(16, 8, None), Ok(CacheAlloc { area: 0x1030, size: 16, reused: true }));
    assert_eq!(c.allocate(5, 8, None), Ok(CacheAlloc { area: 0x1040, size: 8, reused: true }));
    // the fresh page itself stays on the page-sized list
    assert_eq!(c.allocate(4096, 8, None), Ok(CacheAlloc { area: 0x1000, size: 4096, reused: true }));
}

#[test]
fn cache_alignment_decides_the_order() {
    let mut c = CacheDescriptor::new();
    assert_eq!(
        c.allocate(8, 64, Some(0x2000)),
        Ok(CacheAlloc { area: 0x2000, size: 8, reused: false })
    );
    assert_eq!(c.allocate(8, 64, None), Ok(CacheAlloc { area: 0x2040, size: 8, reused: true }));
}

fn area(flags: u32) -> Option<VirtMemoryArea> {
    Some(VirtMemoryArea { addr: 0x100, offset: 0, length: 0x10, flags, rd: 0, pages: 0 })
}

#[test]
fn page_fault_outside_any_area_is_ignored() {
    assert_eq!(handle_page_fault(None, 2, 0, 1), PageFaultAction::Ignore);
    assert_eq!(handle_page_fault(area(1), 2, 0x1, 1), PageFaultAction::Ignore);
}

#[test]
fn write_fault_on_a_single_reference_maps_in_place() {
    let entry: u64 = (0x1234 << 10) | 0x3;
    assert_eq!(
        handle_page_fault(area(3), 2, entry, 1),
        PageFaultAction::MakeWritable { ppn: entry & 0x0000_0FFF_FFFF_FFFF, copy: false, refs: 1, attrs: entry | 0x4 }
    );
}

#[test]
fn write_fault_on_a_shared_page_copies() {
    let entry: u64 = (0x1234 << 10) | 0x3;
    assert_eq!(
        handle_page_fault(area(3), 2, entry, 3),
        PageFaultAction::MakeWritable { ppn: entry & 0x0000_0FFF_FFFF_FFFF, copy: true, refs: 2, attrs: entry | 0x4 }
    );
    assert_eq!(
        handle_page_fault(area(3), 2, entry, 0),
        PageFaultAction::MakeWritable { ppn: entry & 0x0000_0FFF_FFFF_FFFF, copy: true, refs: u32::MAX, attrs: entry | 0x4 }
    );
}

#[test]
fn fault_on_a_missing_page_blocks() {
    assert_eq!(handle_page_fault(area(1), 1, 0x0, 1), PageFaultAction::Block);
    assert_eq!(handle_page_fault(area(3), 2, 0x4, 1), PageFaultAction::Block);
}

#[test]
fn fault_on_a_present_page_is_unrecoverable() {
    assert_eq!(handle_page_fault(area(1), 1, 0x3, 1), PageFaultAction::Unrecoverable);
}

#[test]
fn area_comparison() {
    let a = area(0).unwrap();
    assert_eq!(a.cmp(0xFF), Ordering::Less);
    assert_eq!(a.cmp(0x100), Ordering::Equal);
    assert_eq!(a.cmp(0x110), Ordering::Equal);
    assert_eq!(a.cmp(0x111), Ordering::Greater);
}

#[test]
fn cache_area_is_aligned_to_a_power_of_two() {
    let mut c = CacheDescriptor::new();
    c.allocate(24, 8, Some(0x7000)).unwrap();
    for align in [8u64, 16, 32, 64, 128, 256, 512, 1024, 2048] {
        let a = c.allocate(8, align, Some(0x9000)).unwrap();
        assert_eq!(a.area % align, 0, "align {}", align);
    }
}

#[test]
fn node_display_holds_the_node() {
    let node = NodeDescriptor { flags: 1, first_page: 0x40, spanned_pages: 512, present_pages: 512, zone_normal: zone(512) };
    let d = NodesDisplay::new(&node);
    assert_eq!(d.0.len(), 1);
    assert_eq!(d.0[0].first_page, 0x40);
    assert_eq!(d.0[0].zone_normal.managed_pages, 512);
}

#[test]
fn node_page_numbers() {
    let node = NodeDescriptor { flags: 0, first_page: 0x100, spanned_pages: 16, present_pages: 16, zone_normal: zone(512) };
    assert_eq!(node.get_page(0x105), 5);
    assert_eq!(node.get_ppn(5), 0x105);
}

fn no_free_buddies(z: &ZoneDescriptor) -> bool {
    let n = z.pages.len();
    for h in 0..n {
        let o = z.pages[h].idx;
        if z.pages[h].flags == FREE_HEAD && o < 9 {
            let size = 1usize << o;
            let buddy = if h % (2 * size) == 0 { h + size } else { h - size };
            if buddy < n && is_free_head(z, buddy, o) {
                return false;
            }
        }
    }
    true
}

#[test]
fn free_blocks_never_have_free_buddies() {
    let mut z = zone(1024);
    assert!(no_free_buddies(&z));
    assert_eq!(z.reserve(500, 20), Some(500));
    assert!(no_free_buddies(&z));
    let a = z.alloc_order(0).unwrap();
    let b = z.alloc_order(2).unwrap();
    let c = z.alloc_order(0).unwrap();
    assert!(no_free_buddies(&z));
    z.free(0, a);
    assert!(no_free_buddies(&z));
    z.free(0, c);
    assert!(no_free_buddies(&z));
    z.free(2, b);
    assert!(no_free_buddies(&z));
    assert_eq!(z.managed_pages, 1004);
}

#[test]
fn node_listing_lines() {
    let mut z = zone(512);
    z.first_page = 0x40;
    let node = NodeDescriptor { flags: 1, first_page: 0x40, spanned_pages: 512, present_pages: 512, zone_normal: z };
    let lines = NodesDisplay::new(&node).lines();
    assert_eq!(
        lines[0],
        NodeLine::Node { index: 0, start: 0x40000, end: 0x240000, spanned: 512, present: 512, flags: 1 }
    );
    assert_eq!(
        lines[1],
        NodeLine::Zone { start: 0x40000, end: 0x240000, spanned: 512, present: 512, managed: 512, flags: 1 }
    );
    // orders 0 to 8 are empty, order 9 holds the one block
    for o in 0..9 {
        assert_eq!(lines[2 + o], NodeLine::Order { order: o, size: 1 << o, areas: 0 });
    }
    assert_eq!(lines[11], NodeLine::Order { order: 9, size: 512, areas: 1 });
    assert_eq!(
        lines[12],
        NodeLine::Area { index: 0, start: 0x40000, end: 0x240000, flags: FREE_HEAD, order: 9 }
    );
    assert_eq!(lines.len(), 13);
}

#[test]
fn node_listing_is_cut_after_seventeen_areas() {
    let mut node = NodeDescriptor { flags: 0, first_page: 0, spanned_pages: 512, present_pages: 512, zone_normal: zone(512) };
    let mut taken = Vec::new();
    for _ in 0..40 {
        taken.push(node.zone_normal.alloc_order(0).unwrap());
    }
    // free every other page: twenty blocks of order 0 that cannot merge
    for k in (0..40).step_by(2) {
        node.zone_normal.free(0, taken[k]);
    }
    let lines = NodesDisplay::new(&node).lines();
    assert_eq!(lines[2], NodeLine::Order { order: 0, size: 1, areas: 20 });
    // the most recently freed block comes first
    assert!(matches!(lines[3], NodeLine::Area { index: 0, start: 0x26000, .. }));
    assert!(matches!(lines[19], NodeLine::Area { index: 16, .. }));
    assert_eq!(lines[20], NodeLine::More);
    assert!(matches!(lines[21], NodeLine::Order { order: 1, .. }));
}
