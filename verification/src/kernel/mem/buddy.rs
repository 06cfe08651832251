//! The buddy allocator of a memory zone.
use vstd::prelude::*;
use super::{order_pages, order_size, PageDescriptor, MAX_PAGE_ORDER, NO_PAGE};

verus! {

/// Flags of the head page of a free block.
pub const FREE_HEAD: u32 = 0x1001;

/// Flags of a tail page of a free block.
pub const FREE_TAIL: u32 = 0x9;

/// The zone has been initialised.
pub const ZONE_DESC_FLAG_INITIALIZED: u32 = 1;

/// Number of LRU generations kept per zone.
pub const LRU_GENERATIONS: usize = 8;

/// Total number of pages in the free lists of orders below `n`.
pub open spec fn free_total(areas: Seq<Vec<usize>>, n: int) -> int
    decreases n,
{
    if n <= 0 {
        0
    } else {
        free_total(areas, n - 1) + areas[n - 1]@.len() * order_size(n - 1)
    }
}

proof fn lemma_free_total_update(areas: Seq<Vec<usize>>, o: int, v: Vec<usize>, n: int)
    requires
        0 <= o < n,
        n <= areas.len(),
    ensures
        free_total(areas.update(o, v), n) == free_total(areas, n) + (v@.len() - areas[o]@.len())
            * order_size(o),
    decreases n,
{
    let a2 = areas.update(o, v);
    if n - 1 == o {
        lemma_free_total_same(areas, a2, o);
        assert(free_total(a2, n) == free_total(a2, o) + a2[o]@.len() * order_size(o));
        assert(free_total(areas, n) == free_total(areas, o) + areas[o]@.len() * order_size(o));
        let s = order_size(o);
        assert(v@.len() * s - areas[o]@.len() * s == (v@.len() - areas[o]@.len()) * s)
            by (nonlinear_arith);
    } else {
        lemma_free_total_update(areas, o, v, n - 1);
        assert(a2[n - 1] == areas[n - 1]);
    }
}

proof fn lemma_free_total_same(a: Seq<Vec<usize>>, b: Seq<Vec<usize>>, n: int)
    requires
        0 <= n <= a.len(),
        n <= b.len(),
        forall|i: int| 0 <= i < n ==> a[i]@.len() == b[i]@.len(),
    ensures
        free_total(a, n) == free_total(b, n),
    decreases n,
{
    if n > 0 {
        lemma_free_total_same(a, b, n - 1);
    }
}

/// Facts about block sizes used by splits and merges.
proof fn lemma_order_size(o: int)
    requires
        0 <= o < MAX_PAGE_ORDER,
    ensures
        order_size(o + 1) == 2 * order_size(o),
        order_size(o) >= 1,
        order_size(o + 1) <= 512,
        forall|h: int| #![trigger h % order_size(o + 1)]
            h % order_size(o + 1) == 0 ==> h % order_size(o) == 0 && (h + order_size(o))
                % order_size(o) == 0,
        forall|h: int| #![trigger h % order_size(o + 1)]
            h >= 0 && h % order_size(o) == 0 && h % order_size(o + 1) != 0 ==> h >= order_size(o)
                && (h - order_size(o)) % order_size(o + 1) == 0,
{
    let s = order_size(o);
    assert(order_size(o + 1) == 2 * s && s >= 1 && order_size(o + 1) <= 512) by {
        if o == 0 {
        } else if o == 1 {
        } else if o == 2 {
        } else if o == 3 {
        } else if o == 4 {
        } else if o == 5 {
        } else if o == 6 {
        } else if o == 7 {
        } else {
            assert(o == 8);
        }
    }
    assert forall|h: int| #![trigger h % order_size(o + 1)]
        h % order_size(o + 1) == 0 implies h % s == 0 && (h + s) % s == 0 by {
        lemma_halves_aligned(h, s);
    }
    assert forall|h: int| #![trigger h % order_size(o + 1)]
        h >= 0 && h % s == 0 && h % order_size(o + 1) != 0 implies h >= s && (h - s) % order_size(
            o + 1,
        ) == 0 by {
        lemma_upper_half(h, s);
    }
}

proof fn lemma_halves_aligned(h: int, s: int)
    requires
        s >= 1,
        h % (2 * s) == 0,
    ensures
        h % s == 0,
        (h + s) % s == 0,
{
    vstd::arithmetic::div_mod::lemma_fundamental_div_mod(h, 2 * s);
    let q = h / (2 * s);
    assert(h == s * (2 * q)) by (nonlinear_arith)
        requires h == (2 * s) * q + h % (2 * s), h % (2 * s) == 0;
    vstd::arithmetic::div_mod::lemma_mod_multiples_basic(2 * q, s);
    assert(h + s == (2 * q + 1) * s) by (nonlinear_arith)
        requires h == s * (2 * q);
    vstd::arithmetic::div_mod::lemma_mod_multiples_basic(2 * q + 1, s);
    assert(h == (2 * q) * s) by (nonlinear_arith)
        requires h == s * (2 * q);
}

proof fn lemma_upper_half(h: int, s: int)
    requires
        s >= 1,
        h >= 0,
        h % s == 0,
        h % (2 * s) != 0,
    ensures
        h >= s,
        (h - s) % (2 * s) == 0,
{
    vstd::arithmetic::div_mod::lemma_fundamental_div_mod(h, s);
    let k = h / s;
    assert(h == s * k) by (nonlinear_arith)
        requires h == s * (h / s) + h % s, h % s == 0, k == h / s;
    if k % 2 == 0 {
        vstd::arithmetic::div_mod::lemma_fundamental_div_mod(k, 2);
        let m = k / 2;
        assert(h == m * (2 * s)) by (nonlinear_arith)
            requires h == s * k, k == 2 * (k / 2) + k % 2, k % 2 == 0, m == k / 2;
        vstd::arithmetic::div_mod::lemma_mod_multiples_basic(m, 2 * s);
    } else {
        vstd::arithmetic::div_mod::lemma_fundamental_div_mod(k, 2);
        let m = k / 2;
        assert(k >= 1) by (nonlinear_arith)
            requires h == s * k, h >= 0, s >= 1, k % 2 != 0;
        assert(h - s == m * (2 * s)) by (nonlinear_arith)
            requires h == s * k, k == 2 * (k / 2) + k % 2, k % 2 == 1, m == k / 2;
        assert(h >= s) by (nonlinear_arith)
            requires h == s * k, k >= 1, s >= 1;
        vstd::arithmetic::div_mod::lemma_mod_multiples_basic(m, 2 * s);
    }
}

proof fn lemma_free_total_nonneg(areas: Seq<Vec<usize>>, n: int)
    ensures
        free_total(areas, n) >= 0,
    decreases n,
{
    if n > 0 {
        lemma_free_total_nonneg(areas, n - 1);
        let a = areas[n - 1]@.len();
        let b = order_size(n - 1);
        assert(a * b >= 0) by (nonlinear_arith)
            requires b >= 1;
    }
}

/// `b` is `a` with the `n` free pages from `h` on taken: exactly those pages
/// stop being free, and the page count drops by `n`.
pub open spec fn taken_pages(a: ZoneDescriptor, b: ZoneDescriptor, h: int, n: int) -> bool {
    &&& forall|p: int| h <= p < h + n ==> #[trigger] a.page_is_free(p)
    &&& forall|p: int| #[trigger] b.page_is_free(p) == (a.page_is_free(p) && !(h <= p < h + n))
    &&& b.managed() == a.managed() - n
}

/// `b` is `a` with the `n` pages from `h` on given back: exactly those pages
/// become free too, and the page count grows by `n`.
pub open spec fn returned_pages(a: ZoneDescriptor, b: ZoneDescriptor, h: int, n: int) -> bool {
    &&& forall|p: int| #[trigger] b.page_is_free(p) == (a.page_is_free(p) || (h <= p < h + n))
    &&& b.managed() == a.managed() + n
}

/// Giving back pages right after taking them restores the zone's free pages
/// and its page count.
pub proof fn law_return_after_take(z0: ZoneDescriptor, z1: ZoneDescriptor, z2: ZoneDescriptor, h: int, n: int)
    requires
        taken_pages(z0, z1, h, n),
        returned_pages(z1, z2, h, n),
    ensures
        forall|p: int| #[trigger] z2.page_is_free(p) == z0.page_is_free(p),
        z2.managed() == z0.managed(),
{
    assert forall|p: int| #[trigger] z2.page_is_free(p) == z0.page_is_free(p) by {
        assert(z1.page_is_free(p) == (z0.page_is_free(p) && !(h <= p < h + n)));
    }
}

/// The buddy of the block of order `o` at `h`: the block after it when `h`
/// is aligned to twice the block's size, the block before it otherwise.
pub open spec fn buddy_of(h: int, o: int) -> int {
    if h % (2 * order_size(o)) == 0 {
        h + order_size(o)
    } else {
        h - order_size(o)
    }
}

/// Descriptor of a memory zone: its pages and the free lists of its buddy
/// allocator (one per order, each a stack of block heads).
pub struct ZoneDescriptor {
    pub flags: u32,
    pub first_page: u32,
    pub spanned_pages: u32,
    pub present_pages: u32,
    pub managed_pages: usize,
    pub pages: Vec<PageDescriptor>,
    pub lru_scan_limit: u32,
    pub lru_swap_limit: u32,
    free_areas: Vec<Vec<usize>>,
}

impl ZoneDescriptor {
    /// Whether a free block of order `o` starts at page `h`.
    pub closed spec fn is_free(self, o: int, h: int) -> bool {
        0 <= o <= MAX_PAGE_ORDER && 0 <= h <= usize::MAX && self.free_areas@[o]@.contains(h as usize)
    }

    /// The free list of order `o`: the heads of its free blocks, the most
    /// recently added last.
    pub closed spec fn free_list(self, o: int) -> Seq<usize> {
        self.free_areas@[o]@
    }

    /// The zone's scalar fields: flags, first page, spanned and present pages,
    /// and the two LRU limits.
    pub closed spec fn header(self) -> (u32, u32, u32, u32, u32, u32) {
        (self.flags, self.first_page, self.spanned_pages, self.present_pages, self.lru_scan_limit,
            self.lru_swap_limit)
    }

    /// The zone's first page number.
    pub open spec fn first_ppn(self) -> int {
        self.header().1 as int
    }

    /// The number of pages the zone spans.
    pub open spec fn span(self) -> int {
        self.header().2 as int
    }

    /// Number of pages handed to the buddy allocator and not taken.
    pub closed spec fn managed(self) -> usize {
        self.managed_pages
    }

    /// The zone's page descriptors.
    pub closed spec fn page_descs(self) -> Seq<PageDescriptor> {
        self.pages@
    }

    /// Number of pages of the zone.
    pub closed spec fn len(self) -> nat {
        self.pages@.len()
    }

    /// Total number of pages in free blocks.
    pub closed spec fn total_free(self) -> int {
        free_total(self.free_areas@, MAX_PAGE_ORDER + 1)
    }

    /// Structure of the free lists, without the page count.
    pub closed spec fn blocks_wf(self) -> bool {
        &&& self.free_areas@.len() == MAX_PAGE_ORDER + 1
        &&& self.pages@.len() < usize::MAX - 1024
        &&& self.spanned_pages == self.pages@.len()
        &&& forall|o: int| 0 <= o <= MAX_PAGE_ORDER ==> (#[trigger] self.free_areas@[o])@.no_duplicates()
        &&& forall|o: int, h: int| #[trigger] self.is_free(o, h) ==> {
            &&& h % order_size(o) == 0
            &&& h + order_size(o) <= self.pages@.len()
            &&& self.pages@[h].idx == o
            &&& self.pages@[h].flags == FREE_HEAD
        }
        &&& forall|h: int| 0 <= h < self.pages@.len() && (#[trigger] self.pages@[h]).flags == FREE_HEAD
            ==> self.is_free(self.pages@[h].idx as int, h)
        &&& forall|o1: int, h1: int, o2: int, h2: int|
            #[trigger] self.is_free(o1, h1) && #[trigger] self.is_free(o2, h2) && !(o1 == o2 && h1
                == h2) ==> h1 + order_size(o1) <= h2 || h2 + order_size(o2) <= h1
    }

    /// The zone's invariant: well-formed free lists whose pages are the
    /// managed pages.
    pub closed spec fn wf(self) -> bool {
        &&& self.blocks_wf()
        &&& self.managed_pages == self.total_free()
    }

    /// Page `p` (counted from the zone's first page) lies in a free block.
    pub open spec fn page_is_free(self, p: int) -> bool {
        exists|o: int, h: int| #[trigger] self.is_free(o, h) && h <= p < h + order_size(o)
    }

    /// A block of `2^o` pages at `h` lies in the zone, aligned, and meets no
    /// free block.
    pub open spec fn block_is_taken(self, o: int, h: int) -> bool {
        &&& 0 <= o <= MAX_PAGE_ORDER
        &&& 0 <= h
        &&& h % order_size(o) == 0
        &&& h + order_size(o) <= self.len()
        &&& forall|o2: int, h2: int| #[trigger]
            self.is_free(o2, h2) ==> h + order_size(o) <= h2 || h2 + order_size(o2) <= h
    }

    /// No two free blocks of the same order below the highest are buddies:
    /// a block whose buddy is free has been merged with it.
    pub open spec fn no_free_buddies(self) -> bool {
        forall|o: int, h1: int, h2: int|
            #[trigger] self.is_free(o, h1) && #[trigger] self.is_free(o, h2) && o < MAX_PAGE_ORDER
                ==> h2 != buddy_of(h1, o)
    }

    /// The free list of order `o`, the most recently added head last; every
    /// head starts a block of the zone.
    pub fn free_area(&self, o: usize) -> (r: &Vec<usize>)
        requires
            self.wf(),
            o <= MAX_PAGE_ORDER,
        ensures
            r@ == self.free_list(o as int),
            self.len() <= u32::MAX,
            forall|k: int| 0 <= k < r@.len() ==> #[trigger] r@[k] + order_size(o as int) <= self.len(),
    {
        proof {
            assert forall|k: int| 0 <= k < self.free_areas@[o as int]@.len() implies #[trigger]
                self.free_areas@[o as int]@[k] + order_size(o as int) <= self.pages@.len() by {
                assert(self.is_free(o as int, self.free_areas@[o as int]@[k] as int));
            }
        }
        &self.free_areas[o]
    }

    /// The descriptor of page `i` of the zone.
    pub fn page(&self, i: usize) -> (r: &PageDescriptor)
        requires
            i < self.len(),
        ensures
            *r == self.page_descs()[i as int],
    {
        &self.pages[i]
    }

    /// The zone's scalar fields, as `header` names them in order, and its
    /// managed page count.
    pub fn fields(&self) -> (r: (u32, u32, u32, u32, u32, u32, usize))
        ensures
            (r.0, r.1, r.2, r.3, r.4, r.5) == self.header(),
            r.6 == self.managed(),
    {
        (self.flags, self.first_page, self.spanned_pages, self.present_pages, self.lru_scan_limit,
            self.lru_swap_limit, self.managed_pages)
    }

    /// A zone over `pages` with every page in use.
    pub fn new(first_page: u32, pages: Vec<PageDescriptor>) -> (r: Self)
        requires
            pages@.len() < 0x1_0000_0000,
            pages@.len() < usize::MAX - 1024,
            forall|i: int| 0 <= i < pages@.len() ==> (#[trigger] pages@[i]).flags != FREE_HEAD,
        ensures
            r.wf(),
            r.len() == pages@.len(),
            r.page_descs() == pages@,
            r.managed() == 0,
            r.header() == (0u32, first_page, pages@.len() as u32, pages@.len() as u32, 0u32, 0u32),
            r.first_ppn() == first_page,
            r.span() == pages@.len(),
            forall|o: int, h: int| !(#[trigger] r.is_free(o, h)),
            r.no_free_buddies(),
    {
        let mut free_areas: Vec<Vec<usize>> = Vec::new();
        let mut i: usize = 0;
        while i <= MAX_PAGE_ORDER
            invariant
                i <= MAX_PAGE_ORDER + 1,
                free_areas@.len() == i,
                forall|o: int| 0 <= o < i ==> (#[trigger] free_areas@[o])@.len() == 0,
            decreases MAX_PAGE_ORDER + 1 - i,
        {
            free_areas.push(Vec::new());
            i += 1;
        }
        let n = pages.len() as u32;
        let r = ZoneDescriptor {
            flags: 0,
            first_page,
            spanned_pages: n,
            present_pages: n,
            managed_pages: 0,
            pages,
            lru_scan_limit: 0,
            lru_swap_limit: 0,
            free_areas,
        };
        proof {
            assert forall|o: int, h: int| !(#[trigger] r.is_free(o, h)) by {
                if 0 <= o <= MAX_PAGE_ORDER {
                    assert(r.free_areas@[o]@.len() == 0);
                }
            }
            assert forall|o: int| 0 <= o <= MAX_PAGE_ORDER implies (
            #[trigger] r.free_areas@[o])@.no_duplicates() by {}
            lemma_free_total_zero(r.free_areas@, MAX_PAGE_ORDER + 1);
        }
        r
    }

    /// Adds the block of order `order` at `head` to the free lists: the head
    /// page records its order, the tail pages point at the head.
    fn add_compound_page(&mut self, head: usize, order: usize)
        requires
            old(self).blocks_wf(),
            old(self).block_is_taken(order as int, head as int),
            forall|i: int|
                head <= i < head + order_size(order as int) ==> (#[trigger] old(self).pages@[i]).flags
                    != FREE_HEAD,
        ensures
            final(self).blocks_wf(),
            final(self).len() == old(self).len(),
            final(self).managed() == old(self).managed(),
            final(self).header() == old(self).header(),
            final(self).total_free() == old(self).total_free() + order_size(order as int),
            forall|o: int, h: int| #[trigger]
                final(self).is_free(o, h) == (old(self).is_free(o, h) || (o == order && h == head)),
            forall|i: int|
                0 <= i < old(self).len() && !(head <= i < head + order_size(order as int)) ==> (
                #[trigger] final(self).pages@[i]) == old(self).pages@[i],
    {
        let size = order_pages(order);
        let mut page = self.pages[head];
        page.idx = order;
        page.flags = FREE_HEAD;
        self.pages.set(head, page);
        let mut i: usize = head + 1;
        while i < head + size
            invariant
                head < i <= head + size,
                size == order_size(order as int),
                head + size <= self.pages@.len(),
                self.pages@.len() == old(self).pages@.len(),
                self.pages@.len() < usize::MAX - 1024,
                self.free_areas@ == old(self).free_areas@,
                self.managed_pages == old(self).managed_pages,
                self.header() == old(self).header(),
                self.pages@[head as int].idx == order,
                self.pages@[head as int].flags == FREE_HEAD,
                forall|j: int|
                    head < j < head + size ==> (#[trigger] self.pages@[j]).flags == old(
                        self,
                    ).pages@[j].flags,
                forall|j: int|
                    0 <= j < self.pages@.len() && !(head <= j < head + size) ==> (
                    #[trigger] self.pages@[j]) == old(self).pages@[j],
            decreases head + size - i,
        {
            let mut tail = self.pages[i];
            tail.next = head;
            self.pages.set(i, tail);
            i += 1;
        }
        let ghost mid = *self;
        let mut list: Vec<usize> = Vec::new();
        self.free_areas.set_and_swap(order, &mut list);
        list.push(head);
        self.free_areas.set_and_swap(order, &mut list);
        proof {
            assert(self.free_areas@ == mid.free_areas@.update(order as int, self.free_areas@[order as int]));
            lemma_free_total_update(mid.free_areas@, order as int, self.free_areas@[order as int], MAX_PAGE_ORDER + 1);
            assert(!old(self).is_free(order as int, head as int)) by {
                if old(self).is_free(order as int, head as int) {
                    assert(old(self).pages@[head as int].flags == FREE_HEAD);
                }
            }
            assert forall|o: int, h: int| #[trigger]
                self.is_free(o, h) == (old(self).is_free(o, h) || (o == order && h == head)) by {
                if 0 <= o <= MAX_PAGE_ORDER && o != order {
                    assert(self.free_areas@[o] == old(self).free_areas@[o]);
                }
                if o == order && 0 <= h <= usize::MAX {
                    assert(self.free_areas@[o]@ == old(self).free_areas@[o]@.push(head));
                    if h != head {
                        assert(self.free_areas@[o]@.contains(h as usize) ==> old(self).free_areas@[o]@.contains(h as usize));
                        assert(old(self).free_areas@[o]@.contains(h as usize) ==> self.free_areas@[o]@.contains(h as usize)) by {
                            if old(self).free_areas@[o]@.contains(h as usize) {
                                let k = choose|k: int| 0 <= k < old(self).free_areas@[o]@.len() && old(self).free_areas@[o]@[k] == h as usize;
                                assert(self.free_areas@[o]@[k] == h as usize);
                            }
                        }
                    } else {
                        assert(self.free_areas@[o]@[self.free_areas@[o]@.len() - 1] == head);
                    }
                }
            }
            assert forall|o: int| 0 <= o <= MAX_PAGE_ORDER implies (
            #[trigger] self.free_areas@[o])@.no_duplicates() by {
                if o == order {
                    let s = self.free_areas@[o]@;
                    let t = old(self).free_areas@[o]@;
                    assert(s == t.push(head));
                    assert(!t.contains(head));
                    assert forall|a: int, b: int| 0 <= a < s.len() && 0 <= b < s.len() && a != b implies s[a] != s[b] by {
                        if a < t.len() && b < t.len() {
                            assert(s[a] == t[a] && s[b] == t[b]);
                        } else if a < t.len() {
                            assert(s[a] == t[a]);
                        } else {
                            assert(s[b] == t[b]);
                        }
                    }
                } else {
                    assert(self.free_areas@[o] == old(self).free_areas@[o]);
                }
            }
            assert forall|o: int, h: int| #[trigger] self.is_free(o, h) implies {
                &&& h % order_size(o) == 0
                &&& h + order_size(o) <= self.pages@.len()
                &&& self.pages@[h].idx == o
                &&& self.pages@[h].flags == FREE_HEAD
            } by {
                if !(o == order && h == head) {
                    assert(old(self).is_free(o, h));
                    assert(h + order_size(o) <= head || head + order_size(order as int) <= h);
                    assert(self.pages@[h] == old(self).pages@[h]);
                }
            }
            assert forall|h: int| 0 <= h < self.pages@.len() && (#[trigger] self.pages@[h]).flags
                == FREE_HEAD implies self.is_free(self.pages@[h].idx as int, h) by {
                if !(head <= h < head + order_size(order as int)) {
                    assert(self.pages@[h] == old(self).pages@[h]);
                } else if h != head {
                    assert(self.pages@[h].flags == old(self).pages@[h].flags);
                }
            }
        }
    }

    /// Takes a block of `2^order` pages from the free lists: the smallest free
    /// block of at least that order is split, the upper halves going back to
    /// the free lists. `None` when no such block is free.
    pub fn alloc_order(&mut self, order: usize) -> (r: Option<usize>)
        requires
            old(self).wf(),
            order <= MAX_PAGE_ORDER,
        ensures
            final(self).wf(),
            final(self).len() == old(self).len(),
            final(self).header() == old(self).header(),
            match r {
                None => {
                    &&& forall|o: int, h: int| order <= o ==> !(#[trigger] old(self).is_free(o, h))
                    &&& forall|o: int, h: int| #[trigger] final(self).is_free(o, h) == old(self).is_free(o, h)
                    &&& final(self).managed() == old(self).managed()
                    &&& forall|p: int| #[trigger] final(self).page_is_free(p) == old(self).page_is_free(p)
                },
                Some(h) => exists|o: int| {
                    &&& order <= o <= MAX_PAGE_ORDER
                    &&& #[trigger] old(self).is_free(o, h as int)
                    &&& h == old(self).free_list(o).last()
                    &&& forall|o2: int, h2: int| order <= o2 < o ==> !(#[trigger] old(self).is_free(o2, h2))
                    &&& forall|o2: int, h2: int| #[trigger] final(self).is_free(o2, h2) == (
                        (old(self).is_free(o2, h2) && !(o2 == o && h2 == h)) || (order <= o2 < o
                            && h2 == h + order_size(o2)))
                    &&& final(self).block_is_taken(order as int, h as int)
                    &&& final(self).managed() == old(self).managed() - order_size(order as int)
                    &&& forall|p: int| #[trigger] final(self).page_is_free(p) == (old(self).page_is_free(p)
                        && !(h <= p < h + order_size(order as int)))
                },
            },
            r matches Some(h) ==> taken_pages(*old(self), *final(self), h as int, order_size(order as int)),
            old(self).no_free_buddies() ==> final(self).no_free_buddies(),
    {
        let mut i = order;
        while i <= MAX_PAGE_ORDER && self.free_areas[i].len() == 0
            invariant
                order <= i <= MAX_PAGE_ORDER + 1,
                self.wf(),
                *self == *old(self),
                forall|o: int, h: int| order <= o < i ==> !(#[trigger] self.is_free(o, h)),
            decreases MAX_PAGE_ORDER + 1 - i,
        {
            i += 1;
        }
        if i > MAX_PAGE_ORDER {
            proof {
                lemma_same_pages(*old(self), *self);
            }
            return None;
        }
        let ghost start = *self;
        let mut list: Vec<usize> = Vec::new();
        self.free_areas.set_and_swap(i, &mut list);
        let h = match list.pop() {
            Some(h) => h,
            None => {
                self.free_areas.set_and_swap(i, &mut list);
                proof {
                    assert(self.free_areas@ =~= old(self).free_areas@);
                    lemma_same_lists(*old(self), *self);
                    lemma_same_pages(*old(self), *self);
                }
                return None;
            },
        };
        self.free_areas.set_and_swap(i, &mut list);
        proof {
            let t = start.free_areas@[i as int]@;
            assert(t.last() == h);
            assert(start.is_free(i as int, h as int));
        }
        let mut page = self.pages[h];
        page.idx = order;
        page.flags = if order > 0 {
            PageDescriptor::FLAGS_COMPOUND_HEAD
        } else {
            0
        };
        self.pages.set(h, page);
        let ghost popped = *self;
        proof {
            let t = start.free_areas@[i as int]@;
            let s = self.free_areas@[i as int]@;
            assert(s == t.drop_last());
            assert(self.free_areas@ == start.free_areas@.update(i as int, self.free_areas@[i as int]));
            lemma_free_total_update(start.free_areas@, i as int, self.free_areas@[i as int], MAX_PAGE_ORDER + 1);
            assert forall|o: int, hh: int| #[trigger]
                self.is_free(o, hh) == (start.is_free(o, hh) && !(o == i && hh == h)) by {
                if 0 <= o <= MAX_PAGE_ORDER && o != i {
                    assert(self.free_areas@[o] == start.free_areas@[o]);
                }
                if o == i && 0 <= hh <= usize::MAX {
                    if hh == h {
                        assert(!s.contains(h)) by {
                            if s.contains(h) {
                                let k = choose|k: int| 0 <= k < s.len() && s[k] == h;
                                assert(t[k] == t[t.len() - 1]);
                            }
                        }
                    } else {
                        if t.contains(hh as usize) {
                            let k = choose|k: int| 0 <= k < t.len() && t[k] == hh as usize;
                            assert(k != t.len() - 1);
                            assert(s[k] == hh as usize);
                        }
                        if s.contains(hh as usize) {
                            let k = choose|k: int| 0 <= k < s.len() && s[k] == hh as usize;
                            assert(t[k] == hh as usize);
                        }
                    }
                }
            }
            assert forall|o: int| 0 <= o <= MAX_PAGE_ORDER implies (
            #[trigger] self.free_areas@[o])@.no_duplicates() by {
                if o != i {
                    assert(self.free_areas@[o] == start.free_areas@[o]);
                } else {
                    assert forall|a: int, b: int| 0 <= a < s.len() && 0 <= b < s.len() && a != b implies s[a] != s[b] by {
                        assert(s[a] == t[a] && s[b] == t[b]);
                    }
                }
            }
            assert forall|o: int, hh: int| #[trigger] self.is_free(o, hh) implies {
                &&& hh % order_size(o) == 0
                &&& hh + order_size(o) <= self.pages@.len()
                &&& self.pages@[hh].idx == o
                &&& self.pages@[hh].flags == FREE_HEAD
            } by {
                assert(start.is_free(o, hh));
                assert(hh != h) by {
                    if hh == h {
                        assert(o != i);
                    }
                }
            }
            assert forall|hh: int| 0 <= hh < self.pages@.len() && (#[trigger] self.pages@[hh]).flags
                == FREE_HEAD implies self.is_free(self.pages@[hh].idx as int, hh) by {
                assert(hh != h);
                assert(start.pages@[hh] == self.pages@[hh]);
            }
        }
        // split the block, the upper halves go back to the free lists
        let mut j = i;
        while j > order
            invariant
                self.header() == old(self).header(),
                order <= j <= i <= MAX_PAGE_ORDER,
                forall|o: int, hh: int| order <= o < i ==> !(#[trigger] old(self).is_free(o, hh)),
                self.blocks_wf(),
                self.len() == start.len(),
                self.managed_pages == start.managed_pages,
                start.wf(),
                start.is_free(i as int, h as int),
                (h as int) % order_size(i as int) == 0,
                self.total_free() == start.total_free() - order_size(j as int),
                forall|o: int, hh: int| #[trigger] self.is_free(o, hh) == (
                    (start.is_free(o, hh) && !(o == i && hh == h)) || (j <= o < i && hh == h
                        + order_size(o))),
                self.block_is_taken(j as int, h as int),
                forall|k: int|
                    h <= k < h + order_size(j as int) ==> (#[trigger] self.pages@[k]).flags
                        != FREE_HEAD,
            decreases j,
        {
            let jj = j - 1;
            let half = order_pages(jj);
            proof {
                lemma_order_size(jj as int);
                assert((h + order_size(jj as int)) % order_size(jj as int) == 0) by {
                    // h is aligned to the larger block
                    lemma_aligned_down(h as int, i as int, j as int);
                }
            }
            self.add_compound_page(h + half, jj);
            proof {
                lemma_aligned_down(h as int, i as int, jj as int);
            }
            j = jj;
        }
        proof {
            lemma_free_total_nonneg(self.free_areas@, MAX_PAGE_ORDER + 1);
        }
        let ghost split = *self;
        self.managed_pages = self.managed_pages - order_pages(order);
        proof {
            assert(j == order);
            assert(start == *old(self));
            assert(old(self).is_free(i as int, h as int));
            assert forall|o: int, hh: int| #[trigger] self.is_free(o, hh) == split.is_free(o, hh) by {}
            assert(self.blocks_wf());
            assert(self.managed_pages == self.total_free());
            assert(self.block_is_taken(order as int, h as int));
            let o = i as int;
            assert({
                &&& order <= o <= MAX_PAGE_ORDER
                &&& old(self).is_free(o, h as int)
                &&& forall|o2: int, h2: int| #[trigger] self.is_free(o2, h2) == (
                    (old(self).is_free(o2, h2) && !(o2 == o && h2 == h)) || (order <= o2 < o
                        && h2 == h + order_size(o2)))
                &&& self.block_is_taken(order as int, h as int)
                &&& self.managed() == old(self).managed() - order_size(order as int)
            });
            lemma_alloc_pages(*old(self), *self, order as int, o, h as int);
            if old(self).no_free_buddies() {
                lemma_split_no_buddies(*old(self), *self, order as int, o, h as int);
            }
            assert forall|p: int| h <= p < h + order_size(order as int) implies #[trigger] old(self).page_is_free(p) by {
                lemma_order_size_mono(order as int, o);
                assert(old(self).is_free(o, h as int));
            }
        }
        Some(h)
    }
}

impl ZoneDescriptor {
    /// Takes the free block of order `o` at `h` out of its free list; its head
    /// page becomes a plain tail page.
    fn take_free_block(&mut self, o: usize, h: usize)
        requires
            old(self).blocks_wf(),
            old(self).is_free(o as int, h as int),
        ensures
            final(self).blocks_wf(),
            final(self).len() == old(self).len(),
            final(self).managed_pages == old(self).managed_pages,
            final(self).header() == old(self).header(),
            final(self).total_free() == old(self).total_free() - order_size(o as int),
            forall|o2: int, h2: int| #[trigger]
                final(self).is_free(o2, h2) == (old(self).is_free(o2, h2) && !(o2 == o && h2 == h)),
            final(self).pages@[h as int].flags == FREE_TAIL,
            forall|i: int| 0 <= i < old(self).len() && i != h ==> (#[trigger] final(self).pages@[i])
                == old(self).pages@[i],
    {
        let ghost start = *self;
        let mut list: Vec<usize> = Vec::new();
        self.free_areas.set_and_swap(o, &mut list);
        let mut k: usize = 0;
        while k < list.len() && list[k] != h
            invariant
                list@ == start.free_areas@[o as int]@,
                list@.contains(h),
                k <= list@.len(),
                forall|m: int| 0 <= m < k ==> list@[m] != h,
            decreases list.len() - k,
        {
            k += 1;
        }
        proof {
            if k == list@.len() {
                let m = choose|m: int| 0 <= m < list@.len() && list@[m] == h;
                assert(list@[m] != h);
            }
        }
        list.remove(k);
        self.free_areas.set_and_swap(o, &mut list);
        let mut page = self.pages[h];
        page.flags = FREE_TAIL;
        page.idx = 0;
        self.pages.set(h, page);
        proof {
            let t = start.free_areas@[o as int]@;
            let u = self.free_areas@[o as int]@;
            assert(t[k as int] == h);
            assert(u == t.remove(k as int));
            assert(self.free_areas@ == start.free_areas@.update(o as int, self.free_areas@[o as int]));
            lemma_free_total_update(start.free_areas@, o as int, self.free_areas@[o as int], MAX_PAGE_ORDER + 1);
            assert forall|o2: int, h2: int| #[trigger]
                self.is_free(o2, h2) == (start.is_free(o2, h2) && !(o2 == o && h2 == h)) by {
                if 0 <= o2 <= MAX_PAGE_ORDER && o2 != o {
                    assert(self.free_areas@[o2] == start.free_areas@[o2]);
                }
                if o2 == o && 0 <= h2 <= usize::MAX {
                    if h2 == h {
                        if u.contains(h) {
                            let m = choose|m: int| 0 <= m < u.len() && u[m] == h;
                            if m < k {
                                assert(t[m] == h);
                            } else {
                                assert(t[m + 1] == h);
                            }
                        }
                    } else {
                        if t.contains(h2 as usize) {
                            let m = choose|m: int| 0 <= m < t.len() && t[m] == h2 as usize;
                            assert(m != k);
                            if m < k {
                                assert(u[m] == h2 as usize);
                            } else {
                                assert(u[m - 1] == h2 as usize);
                            }
                        }
                        if u.contains(h2 as usize) {
                            let m = choose|m: int| 0 <= m < u.len() && u[m] == h2 as usize;
                            if m < k {
                                assert(t[m] == h2 as usize);
                            } else {
                                assert(t[m + 1] == h2 as usize);
                            }
                        }
                    }
                }
            }
            assert forall|o2: int| 0 <= o2 <= MAX_PAGE_ORDER implies (
            #[trigger] self.free_areas@[o2])@.no_duplicates() by {
                if o2 != o {
                    assert(self.free_areas@[o2] == start.free_areas@[o2]);
                } else {
                    assert(t.no_duplicates());
                    assert forall|a: int, b: int| 0 <= a < u.len() && 0 <= b < u.len() && a != b implies u[a] != u[b] by {
                        let a2 = if a < k { a } else { a + 1 };
                        let b2 = if b < k { b } else { b + 1 };
                        assert(u[a] == t[a2] && u[b] == t[b2]);
                    }
                }
            }
            assert forall|o2: int, hh: int| #[trigger] self.is_free(o2, hh) implies {
                &&& hh % order_size(o2) == 0
                &&& hh + order_size(o2) <= self.pages@.len()
                &&& self.pages@[hh].idx == o2
                &&& self.pages@[hh].flags == FREE_HEAD
            } by {
                assert(start.is_free(o2, hh));
                if hh == h {
                    assert(start.is_free(o as int, h as int));
                    assert(o2 == o);
                }
            }
            assert forall|hh: int| 0 <= hh < self.pages@.len() && (#[trigger] self.pages@[hh]).flags
                == FREE_HEAD implies self.is_free(self.pages@[hh].idx as int, hh) by {
                assert(hh != h);
                assert(start.pages@[hh] == self.pages@[hh]);
                assert(start.is_free(start.pages@[hh].idx as int, hh));
                if start.pages@[hh].idx == o {
                    assert(hh != h);
                }
            }
        }
    }

    /// Returns the block of `2^order` pages at `pages` to the free lists,
    /// merging it with its buddy as long as the buddy is a free block of the
    /// same order.
    pub fn free(&mut self, order: usize, pages: usize)
        requires
            old(self).wf(),
            old(self).block_is_taken(order as int, pages as int),
        ensures
            final(self).wf(),
            final(self).len() == old(self).len(),
            final(self).header() == old(self).header(),
            final(self).managed() == old(self).managed() + order_size(order as int),
            exists|o: int, h: int| {
                &&& order <= o <= MAX_PAGE_ORDER
                &&& h <= pages && pages + order_size(order as int) <= h + order_size(o)
                &&& #[trigger] final(self).is_free(o, h)
                &&& forall|o2: int, h2: int| #[trigger] final(self).is_free(o2, h2) == ((o2 == o
                    && h2 == h) || (old(self).is_free(o2, h2) && !(h <= h2 < h + order_size(o))))
                &&& o < MAX_PAGE_ORDER ==> !old(self).is_free(o, buddy_of(h, o))
            },
            forall|p: int| #[trigger] final(self).page_is_free(p) == (old(self).page_is_free(p) || (pages
                <= p < pages + order_size(order as int))),
            returned_pages(*old(self), *final(self), pages as int, order_size(order as int)),
            old(self).no_free_buddies() ==> final(self).no_free_buddies(),
    {
        let ghost start = *self;
        let size0 = order_pages(order);
        proof {
            lemma_total_free_bound(*self);
            lemma_order_size_bounds(order as int);
            assert forall|i: int| pages <= i < pages + size0 implies (#[trigger] self.pages@[i]).flags
                != FREE_HEAD by {
                if self.pages@[i].flags == FREE_HEAD {
                    assert(self.is_free(self.pages@[i].idx as int, i));
                }
            }
        }
        // the tail pages point at the head
        let mut t: usize = pages + 1;
        while t < pages + size0
            invariant
                self.header() == old(self).header(),
                pages < t <= pages + size0,
                size0 == order_size(order as int),
                pages + size0 <= self.pages@.len(),
                self.pages@.len() == start.pages@.len(),
                self.pages@.len() < usize::MAX - 1024,
                self.free_areas@ == start.free_areas@,
                self.managed_pages == start.managed_pages,
                self.spanned_pages == start.spanned_pages,
                forall|i: int|
                    0 <= i < self.pages@.len() && (t <= i || i < pages + 1) ==> (
                    #[trigger] self.pages@[i]) == start.pages@[i],
                forall|i: int|
                    pages < i < t ==> (#[trigger] self.pages@[i]).flags == FREE_TAIL,
            decreases pages + size0 - t,
        {
            let mut tail = self.pages[t];
            tail.next = pages;
            tail.flags = FREE_TAIL;
            self.pages.set(t, tail);
            t += 1;
        }
        proof {
            assert forall|o: int, h: int| #[trigger] self.is_free(o, h) == start.is_free(o, h) by {}
            assert forall|hh: int| 0 <= hh < self.pages@.len() && (#[trigger] self.pages@[hh]).flags
                == FREE_HEAD implies self.is_free(self.pages@[hh].idx as int, hh) by {
                assert(self.pages@[hh] == start.pages@[hh]);
            }
            assert forall|o: int, h: int| #[trigger] self.is_free(o, h) implies self.pages@[h]
                == start.pages@[h] by {
                assert(h + order_size(o) <= pages || pages + size0 <= h);
            }
        }
        let ghost order0 = order;
        let mut order = order;
        let mut h = pages;
        while order < MAX_PAGE_ORDER
            invariant
                self.header() == old(self).header(),
                start.wf(),
                self.blocks_wf(),
                self.len() == start.len(),
                self.managed_pages == start.managed_pages,
                start.managed_pages + size0 <= usize::MAX,
                size0 == order_size(order0 as int),
                order0 <= order,
                order <= MAX_PAGE_ORDER,
                self.block_is_taken(order as int, h as int),
                forall|i: int|
                    h <= i < h + order_size(order as int) ==> (#[trigger] self.pages@[i]).flags
                        != FREE_HEAD,
                h <= pages && pages + size0 <= h + order_size(order as int),
                self.total_free() + order_size(order as int) == start.total_free() + size0,
                forall|o2: int, h2: int| #[trigger] self.is_free(o2, h2) == (start.is_free(o2, h2)
                    && !(h <= h2 < h + order_size(order as int))),
                start.block_is_taken(order0 as int, pages as int),
                forall|q: int| h <= q < h + order_size(order as int) && !(pages <= q < pages + size0)
                    ==> #[trigger] start.page_is_free(q),
            ensures
                order < MAX_PAGE_ORDER ==> !start.is_free(order as int, buddy_of(h as int, order as int)),
            decreases MAX_PAGE_ORDER - order,
        {
            let size = order_pages(order);
            proof {
                lemma_order_size(order as int);
            }
            let lower = h % (2 * size) == 0;
            let buddy = if lower {
                h + size
            } else {
                h - size
            };
            proof {
                if !lower {
                    lemma_upper_half(h as int, size as int);
                }
            }
            if buddy >= self.pages.len() {
                break;
            }
            let bp = self.pages[buddy];
            if !(bp.flags == FREE_HEAD && bp.idx == order) {
                proof {
                    assert(buddy as int == buddy_of(h as int, order as int));
                    if start.is_free(order as int, buddy as int) {
                        assert(!(h <= buddy < h + size));
                        assert(self.is_free(order as int, buddy as int));
                    }
                }
                break;
            }
            let ghost before = *self;
            proof {
                assert(self.is_free(order as int, buddy as int));
                assert forall|i: int| buddy < i < buddy + size implies (#[trigger] self.pages@[i]).flags
                    != FREE_HEAD by {
                    if self.pages@[i].flags == FREE_HEAD {
                        assert(self.is_free(self.pages@[i].idx as int, i));
                    }
                }
            }
            self.take_free_block(order, buddy);
            let ghost taken = *self;
            let new_h = if lower {
                h
            } else {
                buddy
            };
            let upper = if lower {
                buddy
            } else {
                h
            };
            let mut up = self.pages[upper];
            up.flags = FREE_TAIL;
            up.idx = 0;
            up.prev = NO_PAGE;
            self.pages.set(upper, up);
            proof {
                assert forall|o2: int, h2: int| #[trigger] self.is_free(o2, h2) == taken.is_free(o2, h2) by {}
                assert forall|o2: int, h2: int| #[trigger] self.is_free(o2, h2) implies self.pages@[h2]
                    == before.pages@[h2] || h2 == buddy by {
                    assert(before.is_free(o2, h2));
                    if h2 == upper {
                        assert(h2 == buddy || h2 == h);
                    }
                }
                assert forall|o2: int, hh: int| #[trigger] self.is_free(o2, hh) implies {
                    &&& hh % order_size(o2) == 0
                    &&& hh + order_size(o2) <= self.pages@.len()
                    &&& self.pages@[hh].idx == o2
                    &&& self.pages@[hh].flags == FREE_HEAD
                } by {
                    assert(before.is_free(o2, hh));
                    assert(hh != buddy);
                    assert(hh != h);
                }
                assert forall|hh: int| 0 <= hh < self.pages@.len() && (#[trigger] self.pages@[hh]).flags
                    == FREE_HEAD implies self.is_free(self.pages@[hh].idx as int, hh) by {
                    assert(hh != upper);
                }
                assert((new_h as int) % order_size(order + 1) == 0) by {
                    if !lower {
                        lemma_upper_half(h as int, size as int);
                    }
                }
                assert forall|o2: int, h2: int| #[trigger] self.is_free(o2, h2) implies new_h + order_size(order + 1)
                    <= h2 || h2 + order_size(o2) <= new_h by {
                    assert(before.is_free(o2, h2));
                    assert(before.is_free(order as int, buddy as int));
                    if !(o2 == order && h2 == buddy) {
                        assert(buddy + size <= h2 || h2 + order_size(o2) <= buddy);
                    }
                }
                assert forall|q: int| new_h <= q < new_h + order_size(order + 1) && !(pages <= q < pages
                    + size0) implies #[trigger] start.page_is_free(q) by {
                    if buddy <= q < buddy + size {
                        assert(start.is_free(order as int, buddy as int));
                    }
                }
                assert forall|o2: int, h2: int| #[trigger] self.is_free(o2, h2) == (start.is_free(o2, h2)
                    && !(new_h <= h2 < new_h + order_size(order + 1))) by {
                    if start.is_free(o2, h2) && h <= h2 < h + size {
                    } else if start.is_free(o2, h2) && buddy <= h2 < buddy + size && !(o2 == order && h2 == buddy) {
                        assert(before.is_free(o2, h2));
                        assert(before.is_free(order as int, buddy as int));
                    }
                }
            }
            h = new_h;
            order = order + 1;
        }
        self.add_compound_page(h, order);
        let ghost added = *self;
        self.managed_pages = self.managed_pages + size0;
        proof {
            assert forall|o: int, hh: int| #[trigger] self.is_free(o, hh) == added.is_free(o, hh) by {}
            assert(self.blocks_wf());
            assert(self.is_free(order as int, h as int));
            lemma_free_pages(start, *self, order0 as int, pages as int, order as int, h as int);
            if start.no_free_buddies() {
                lemma_merged_no_buddies(start, *self, order as int, h as int);
            }
        }
    }
}

impl ZoneDescriptor {
    /// Hands every page of a zone without free blocks to the buddy allocator,
    /// as blocks of the highest order, and marks the zone initialised.
    pub fn init(&mut self)
        requires
            old(self).wf(),
            forall|o: int, h: int| !(#[trigger] old(self).is_free(o, h)),
            old(self).len() % 512 == 0,
            old(self).managed() == 0,
            forall|i: int| 0 <= i < old(self).len() ==> (#[trigger] old(self).page_descs()[i]).flags != FREE_HEAD,
        ensures
            final(self).wf(),
            final(self).len() == old(self).len(),
            final(self).managed() == old(self).len(),
            forall|o: int, h: int| #[trigger] final(self).is_free(o, h) == (o == MAX_PAGE_ORDER && 0 <= h
                < old(self).len() && h % 512 == 0),
            final(self).no_free_buddies(),
            final(self).header() == ((old(self).header().0 | ZONE_DESC_FLAG_INITIALIZED) as u32, old(
                self,
            ).header().1, old(self).header().2, old(self).header().3, old(self).header().4, old(
                self,
            ).header().5),
    {
        let n = self.pages.len();
        let mut i = n;
        while i > 0
            invariant
                i <= n,
                i % 512 == 0,
                n == self.pages@.len(),
                n % 512 == 0,
                self.blocks_wf(),
                self.managed_pages == self.total_free(),
                self.managed_pages == n - i,
                forall|o: int, h: int| #[trigger] self.is_free(o, h) == (o == MAX_PAGE_ORDER && i <= h
                    < n && h % 512 == 0),
                forall|k: int| 0 <= k < i ==> (#[trigger] self.pages@[k]).flags != FREE_HEAD,
                n == old(self).pages@.len(),
                self.header() == old(self).header(),
            decreases i,
        {
            let b = i - 512;
            proof {
                assert forall|o: int, h: int| #[trigger] self.is_free(o, h) implies b + 512 <= h
                    || h + order_size(o) <= b by {}
            }
            self.add_compound_page(b, MAX_PAGE_ORDER);
            let ghost added = *self;
            self.managed_pages = self.managed_pages + 512;
            proof {
                lemma_same_lists(added, *self);
                assert forall|o: int, h: int| #[trigger] self.is_free(o, h) == (o == MAX_PAGE_ORDER
                    && b <= h < n && h % 512 == 0) by {
                    if b <= h < b + 512 && h % 512 == 0 {
                        assert(h == b);
                    }
                }
            }
            i = b;
        }
        let ghost filled = *self;
        self.flags = self.flags | ZONE_DESC_FLAG_INITIALIZED;
        proof {
            lemma_same_lists(filled, *self);
        }
    }
}


/// The free blocks (order and head) of the lists of orders below `n`, list
/// by list.
spec fn blocks_in(areas: Seq<Vec<usize>>, n: int) -> Seq<(int, int)>
    decreases n,
{
    if n <= 0 {
        Seq::empty()
    } else {
        blocks_in(areas, n - 1) + areas[n - 1]@.map_values(|h: usize| (n - 1, h as int))
    }
}

/// Total number of pages of the blocks `bs`.
spec fn sizes(bs: Seq<(int, int)>) -> int
    decreases bs.len(),
{
    if bs.len() == 0 {
        0
    } else {
        sizes(bs.drop_last()) + order_size(bs.last().0)
    }
}

/// The pages of the blocks `bs`.
spec fn cover(bs: Seq<(int, int)>) -> Set<int>
    decreases bs.len(),
{
    if bs.len() == 0 {
        Set::empty()
    } else {
        cover(bs.drop_last()).union(
            vstd::set_lib::set_int_range(bs.last().1, bs.last().1 + order_size(bs.last().0)),
        )
    }
}

proof fn lemma_sizes_concat(a: Seq<(int, int)>, b: Seq<(int, int)>)
    ensures
        sizes(a + b) == sizes(a) + sizes(b),
    decreases b.len(),
{
    if b.len() > 0 {
        lemma_sizes_concat(a, b.drop_last());
        assert((a + b).drop_last() =~= a + b.drop_last());
        assert((a + b).last() == b.last());
    } else {
        assert(a + b =~= a);
    }
}

proof fn lemma_sizes_list(l: Seq<usize>, o: int)
    ensures
        sizes(l.map_values(|h: usize| (o, h as int))) == l.len() * order_size(o),
    decreases l.len(),
{
    if l.len() > 0 {
        lemma_sizes_list(l.drop_last(), o);
        assert(l.map_values(|h: usize| (o, h as int)).drop_last() =~= l.drop_last().map_values(
            |h: usize| (o, h as int),
        ));
        let n = l.len() as int;
        let s = order_size(o);
        assert(n * s == (n - 1) * s + s) by (nonlinear_arith);
    }
}

proof fn lemma_free_total_sizes(areas: Seq<Vec<usize>>, n: int)
    ensures
        free_total(areas, n) == sizes(blocks_in(areas, n)),
    decreases n,
{
    if n > 0 {
        lemma_free_total_sizes(areas, n - 1);
        lemma_sizes_concat(
            blocks_in(areas, n - 1),
            areas[n - 1]@.map_values(|h: usize| (n - 1, h as int)),
        );
        lemma_sizes_list(areas[n - 1]@, n - 1);
    }
}

/// The blocks of the lists below `n` are distinct and come from those lists.
proof fn lemma_blocks_in(areas: Seq<Vec<usize>>, n: int)
    requires
        0 <= n <= areas.len(),
        forall|o: int| 0 <= o < n ==> (#[trigger] areas[o])@.no_duplicates(),
    ensures
        forall|k: int| #![trigger blocks_in(areas, n)[k]]
            0 <= k < blocks_in(areas, n).len() ==> {
                &&& 0 <= blocks_in(areas, n)[k].0 < n
                &&& 0 <= blocks_in(areas, n)[k].1 <= usize::MAX
                &&& areas[blocks_in(areas, n)[k].0]@.contains(blocks_in(areas, n)[k].1 as usize)
            },
        forall|i: int, j: int|
            0 <= i < j < blocks_in(areas, n).len() ==> blocks_in(areas, n)[i] != blocks_in(areas, n)[j],
    decreases n,
{
    if n > 0 {
        lemma_blocks_in(areas, n - 1);
        let a = blocks_in(areas, n - 1);
        let l = areas[n - 1]@;
        let b = l.map_values(|h: usize| (n - 1, h as int));
        let bs = blocks_in(areas, n);
        assert(bs == a + b);
        assert forall|k: int| #![trigger bs[k]] 0 <= k < bs.len() implies {
            &&& 0 <= bs[k].0 < n
            &&& 0 <= bs[k].1 <= usize::MAX
            &&& areas[bs[k].0]@.contains(bs[k].1 as usize)
        } by {
            if k < a.len() {
                assert(bs[k] == a[k]);
            } else {
                assert(bs[k] == b[k - a.len()]);
                assert(l[k - a.len()] == bs[k].1 as usize);
            }
        }
        assert forall|i: int, j: int| 0 <= i < j < bs.len() implies bs[i] != bs[j] by {
            if j < a.len() {
                assert(bs[i] == a[i] && bs[j] == a[j]);
            } else if i < a.len() {
                assert(bs[i] == a[i]);
                assert(bs[j] == b[j - a.len()]);
            } else {
                assert(bs[i] == b[i - a.len()] && bs[j] == b[j - a.len()]);
                assert(l[i - a.len()] != l[j - a.len()]);
            }
        }
    }
}

/// Pairwise disjoint blocks cover as many pages as they hold.
proof fn lemma_cover_len(bs: Seq<(int, int)>)
    requires
        forall|i: int, j: int|
            0 <= i < j < bs.len() ==> bs[i].1 + order_size(bs[i].0) <= bs[j].1 || bs[j].1 + order_size(
                bs[j].0,
            ) <= bs[i].1,
    ensures
        cover(bs).finite(),
        cover(bs).len() == sizes(bs),
        forall|p: int|
            cover(bs).contains(p) ==> exists|i: int|
                #![trigger bs[i]]
                0 <= i < bs.len() && bs[i].1 <= p < bs[i].1 + order_size(bs[i].0),
    decreases bs.len(),
{
    if bs.len() > 0 {
        let a = bs.drop_last();
        lemma_cover_len(a);
        let lo = bs.last().1;
        let hi = lo + order_size(bs.last().0);
        let r = vstd::set_lib::set_int_range(lo, hi);
        vstd::set_lib::lemma_int_range(lo, hi);
        assert(cover(a).disjoint(r)) by {
            assert forall|p: int| cover(a).contains(p) implies !r.contains(p) by {
                let i = choose|i: int| #![trigger a[i]] 0 <= i < a.len() && a[i].1 <= p < a[i].1 + order_size(a[i].0);
                assert(bs[i] == a[i]);
                assert(bs[i].1 + order_size(bs[i].0) <= lo || hi <= bs[i].1);
            }
        }
        vstd::set_lib::lemma_set_disjoint_lens(cover(a), r);
        assert forall|p: int| cover(bs).contains(p) implies exists|i: int|
            #![trigger bs[i]]
            0 <= i < bs.len() && bs[i].1 <= p < bs[i].1 + order_size(bs[i].0) by {
            if cover(a).contains(p) {
                let i = choose|i: int| #![trigger a[i]] 0 <= i < a.len() && a[i].1 <= p < a[i].1 + order_size(a[i].0);
                assert(bs[i] == a[i]);
            } else {
                assert(bs[bs.len() - 1] == bs.last());
            }
        }
    }
}

/// The free blocks of a zone hold no more pages than the zone has.
proof fn lemma_total_free_bound(z: ZoneDescriptor)
    requires
        z.blocks_wf(),
    ensures
        z.total_free() <= z.len(),
{
    let areas = z.free_areas@;
    let n = MAX_PAGE_ORDER + 1;
    lemma_free_total_sizes(areas, n as int);
    lemma_blocks_in(areas, n as int);
    let bs = blocks_in(areas, n as int);
    assert forall|k: int| #![trigger bs[k]] 0 <= k < bs.len() implies z.is_free(bs[k].0, bs[k].1) by {}
    assert forall|i: int, j: int| 0 <= i < j < bs.len() implies bs[i].1 + order_size(bs[i].0) <= bs[j].1
        || bs[j].1 + order_size(bs[j].0) <= bs[i].1 by {
        assert(z.is_free(bs[i].0, bs[i].1));
        assert(z.is_free(bs[j].0, bs[j].1));
    }
    lemma_cover_len(bs);
    let range = vstd::set_lib::set_int_range(0, z.len() as int);
    vstd::set_lib::lemma_int_range(0, z.len() as int);
    assert forall|p: int| cover(bs).contains(p) implies range.contains(p) by {
        let i = choose|i: int| #![trigger bs[i]] 0 <= i < bs.len() && bs[i].1 <= p < bs[i].1 + order_size(bs[i].0);
        assert(z.is_free(bs[i].0, bs[i].1));
    }
    vstd::set_lib::lemma_len_subset(cover(bs), range);
}

/// The largest order whose block fits in `d` pages, at most the highest order.
fn largest_order_within(d: usize) -> (o: usize)
    requires
        d >= 1,
    ensures
        o <= MAX_PAGE_ORDER,
        order_size(o as int) <= d,
        o < MAX_PAGE_ORDER ==> d < order_size(o + 1),
        o == order_within(d as int),
{
    let mut o: usize = 0;
    while o < MAX_PAGE_ORDER && order_pages(o + 1) <= d
        invariant
            o <= MAX_PAGE_ORDER,
            order_size(o as int) <= d,
        decreases MAX_PAGE_ORDER - o,
    {
        o += 1;
    }
    o
}

/// The aligned block of size `s` that contains `q` starts at `q - q % s`.
proof fn lemma_block_start(h: int, q: int, s: int)
    requires
        s >= 1,
        h >= 0,
        h % s == 0,
        h <= q < h + s,
    ensures
        h == q - q % s,
{
    vstd::arithmetic::div_mod::lemma_fundamental_div_mod(h, s);
    let k = h / s;
    assert(h == k * s) by (nonlinear_arith)
        requires h == s * (h / s) + h % s, h % s == 0, k == h / s;
    vstd::arithmetic::div_mod::lemma_fundamental_div_mod_converse(q, s, k, q - h);
}

/// A block aligned to `order_size(m)` is aligned to the smaller `order_size(o)`,
/// and so is the address one such block further on.
proof fn lemma_step_aligned(a: int, o: int, m: int)
    requires
        0 <= o < m <= MAX_PAGE_ORDER,
        a % order_size(m) == 0,
    ensures
        a % order_size(o) == 0,
        (a + order_size(o)) % order_size(o) == 0,
        a >= order_size(o) ==> (a - order_size(o)) % order_size(o) == 0,
{
    lemma_aligned_down(a, m, o);
    lemma_order_size(o);
    vstd::arithmetic::div_mod::lemma_mod_add_multiples_vanish(a, order_size(o));
    assert(order_size(o) + a == a + order_size(o));
    if a >= order_size(o) {
        vstd::arithmetic::div_mod::lemma_mod_sub_multiples_vanish(a, order_size(o));
        assert(-order_size(o) + a == a - order_size(o));
    }
}

impl ZoneDescriptor {
    /// The free block that holds page `q`, found by looking at the aligned
    /// block of each order that contains it.
    fn free_block_of(&self, q: usize) -> (r: (usize, usize))
        requires
            self.wf(),
            self.page_is_free(q as int),
        ensures
            self.is_free(r.0 as int, r.1 as int),
            r.1 <= q < r.1 + order_size(r.0 as int),
    {
        let ghost w = choose|o: int, h: int| #[trigger] self.is_free(o, h) && h <= q < h + order_size(o);
        let mut o: usize = 0;
        while o <= MAX_PAGE_ORDER
            invariant
                o <= MAX_PAGE_ORDER + 1,
                self.wf(),
                self.is_free(w.0, w.1) && w.1 <= q < w.1 + order_size(w.0),
                w.0 >= o,
            decreases MAX_PAGE_ORDER + 1 - o,
        {
            let size = order_pages(o);
            proof {
                vstd::arithmetic::div_mod::lemma_mod_decreases(q as nat, size as nat);
            }
            let h = q - q % size;
            if h < self.pages.len() && self.pages[h].flags == FREE_HEAD && self.pages[h].idx == o {
                proof {
                    assert(self.is_free(self.pages@[h as int].idx as int, h as int));
                }
                return (o, h);
            }
            proof {
                if w.0 == o {
                    lemma_block_start(w.1, q as int, size as int);
                    assert(self.pages@[w.1].flags == FREE_HEAD);
                }
            }
            o += 1;
        }
        proof {
            assert(self.is_free(w.0, w.1));
            assert(w.0 <= MAX_PAGE_ORDER);
        }
        (0, 0)
    }
}


/// A free block of `z` that lies wholly outside the pages `lo .. hi`.
pub open spec fn kept_block(z: ZoneDescriptor, lo: int, hi: int, o: int, h: int) -> bool {
    z.is_free(o, h) && !(lo <= h < hi)
}

/// The largest order whose block fits in `d` pages, at most the highest
/// order.
pub open spec fn order_within(d: int) -> int {
    if d >= 512 {
        9
    } else if d >= 256 {
        8
    } else if d >= 128 {
        7
    } else if d >= 64 {
        6
    } else if d >= 32 {
        5
    } else if d >= 16 {
        4
    } else if d >= 8 {
        3
    } else if d >= 4 {
        2
    } else if d >= 2 {
        1
    } else {
        0
    }
}

/// The blocks (order and head) the pages `a .. s` go back as: from `a` up,
/// each the largest block that fits before `s`.
pub open spec fn blocks_up(a: int, s: int) -> Seq<(int, int)>
    decreases s - a,
{
    if a >= s {
        Seq::empty()
    } else {
        let o = order_within(s - a);
        seq![(o, a)] + blocks_up(a + order_size(o), s)
    }
}

/// The blocks (order and head) the pages `e .. b` go back as: from `b`
/// down, each the largest block that fits after `e`.
pub open spec fn blocks_down(e: int, b: int) -> Seq<(int, int)>
    decreases b - e,
{
    if b <= e {
        Seq::empty()
    } else {
        let o = order_within(b - e);
        seq![(o, b - order_size(o))] + blocks_down(e, b - order_size(o))
    }
}

/// The free block of `z` (order and head) that holds page `p`.
pub open spec fn block_of(z: ZoneDescriptor, p: int) -> (int, int) {
    choose|o: int, h: int| z.is_free(o, h) && h <= p < h + order_size(o)
}

/// The first page after the free block of `z` that holds page `p`.
pub open spec fn block_end(z: ZoneDescriptor, p: int) -> int {
    block_of(z, p).1 + order_size(block_of(z, p).0)
}

/// The free block that holds a page is the one a free block holding it names.
proof fn lemma_block_of(z: ZoneDescriptor, o: int, h: int, p: int)
    requires
        z.blocks_wf(),
        z.is_free(o, h),
        h <= p < h + order_size(o),
    ensures
        block_of(z, p) == (o, h),
{
    let (o2, h2) = block_of(z, p);
    assert(z.is_free(o2, h2) && h2 <= p < h2 + order_size(o2));
    if !(o2 == o && h2 == h) {
        assert(h + order_size(o) <= h2 || h2 + order_size(o2) <= h);
    }
}

impl ZoneDescriptor {
    /// Reserves the pages `ppn .. ppn + len` (absolute page numbers): every
    /// free block they touch leaves the free lists, and the parts of those
    /// blocks outside the range go back to them as aligned blocks. The pages
    /// must be free. `None`, with the zone unchanged, when the range does not
    /// lie in the zone before its last page; otherwise the index of the first
    /// reserved page within the zone.
    pub fn reserve(&mut self, ppn: usize, len: usize) -> (r: Option<usize>)
        requires
            old(self).wf(),
            len >= 1,
            ppn + len <= usize::MAX,
            ppn >= old(self).first_ppn() && ppn + len < old(self).first_ppn() + old(self).span()
                ==> forall|p: int|
                ppn - old(self).first_ppn() <= p < ppn - old(self).first_ppn() + len
                    ==> #[trigger] old(self).page_is_free(p),
        ensures
            r is None <==> (ppn < old(self).first_ppn() || ppn + len >= old(self).first_ppn()
                + old(self).span()),
            r is None ==> *final(self) == *old(self),
            r is Some ==> {
                &&& r->0 == ppn - old(self).first_ppn()
                &&& final(self).wf()
                &&& final(self).len() == old(self).len()
                &&& final(self).header() == old(self).header()
                &&& final(self).managed() == old(self).managed() - len
                &&& forall|p: int| 0 <= p < old(self).len() ==> #[trigger] final(self).page_is_free(p)
                    == (old(self).page_is_free(p) && !(r->0 <= p < r->0 + len))
                &&& taken_pages(*old(self), *final(self), r->0 as int, len as int)
                &&& forall|o: int, h: int| #[trigger] final(self).is_free(o, h) == (kept_block(
                    *old(self),
                    block_of(*old(self), r->0 as int).1,
                    block_end(*old(self), r->0 + len - 1),
                    o,
                    h,
                ) || blocks_up(block_of(*old(self), r->0 as int).1, r->0 as int).contains((o, h))
                    || blocks_down(r->0 + len, block_end(*old(self), r->0 + len - 1)).contains((o, h)))
            },
            old(self).no_free_buddies() ==> final(self).no_free_buddies(),
    {
        let first = self.first_page as usize;
        let spanned = self.spanned_pages as usize;
        if ppn < first || (ppn + len) as u64 >= first as u64 + spanned as u64 {
            return None;
        }
        let s = ppn - first;
        let e = s + len - 1;
        let ee = s + len;
        proof {
            assert(self.page_is_free(s as int));
            assert(self.page_is_free(e as int));
        }
        let (o1, h1) = self.free_block_of(s);
        let (o2, h2) = self.free_block_of(e);
        let end_aligned = h2 + order_pages(o2);
        let ghost z0 = *self;
        proof {
            lemma_blocks_within(z0, o1 as int, h1 as int, o2 as int, h2 as int, e as int);
        }
        // take every free block from the one holding the first page up to
        // the one holding the last page out of the free lists
        let mut page = h1;
        let ghost mut last_o: int = o1 as int;
        let ghost mut last_h: int = h1 as int;
        while page < end_aligned
            invariant
                z0.wf(),
                self.blocks_wf(),
                self.len() == z0.len(),
                self.header() == z0.header(),
                self.managed_pages == z0.managed_pages,
                s <= e < ee <= z0.len(),
                z0.is_free(o1 as int, h1 as int) && h1 <= s < h1 + order_size(o1 as int),
                z0.is_free(o2 as int, h2 as int) && h2 <= e < h2 + order_size(o2 as int),
                end_aligned == h2 + order_size(o2 as int),
                forall|p: int| s <= p <= e ==> #[trigger] z0.page_is_free(p),
                h1 <= page <= end_aligned,
                page <= e || page == end_aligned,
                page == h1 || page > s,
                page == h1 || (z0.is_free(last_o, last_h) && h1 <= last_h && last_h + order_size(last_o)
                    == page),
                forall|o: int, h: int| #[trigger] self.is_free(o, h) == (z0.is_free(o, h) && !(h1 <= h
                    < page)),
                forall|o: int, h: int| #[trigger] z0.is_free(o, h) && h1 <= h < page ==>  order_size(o) + h
                    <= page,
                self.total_free() == z0.total_free() - (page - h1),
            decreases end_aligned - page,
        {
            let ghost before = *self;
            let ghost bo: int = choose|o: int| #[trigger] z0.is_free(o, page as int) && page == page;
            proof {
                if page == h1 {
                    assert(z0.is_free(o1 as int, page as int));
                } else {
                    assert(z0.page_is_free(page as int));
                    let (o, h) = choose|o: int, h: int| #[trigger] z0.is_free(o, h) && h <= page < h
                        + order_size(o);
                    if h < page {
                        assert(h <= page - 1 < h + order_size(o));
                        assert(last_h <= page - 1 < last_h + order_size(last_o));
                        assert(false);
                    }
                    assert(z0.is_free(o, page as int));
                }
            }
            let o = self.pages[page].idx;
            proof {
                assert(self.is_free(bo, page as int));
                assert(o == bo);
                lemma_order_size_bounds(bo);
                if page + order_size(bo) > e + 1 {
                    assert(z0.is_free(bo, page as int) && page <= e < page + order_size(bo));
                    if page != h2 || bo != o2 {
                        assert(false);
                    }
                }
            }
            self.take_free_block(o, page);
            proof {
                assert forall|o3: int, h3: int| #[trigger] self.is_free(o3, h3) == (z0.is_free(o3, h3)
                    && !(h1 <= h3 < page + order_size(bo))) by {
                    if z0.is_free(o3, h3) && page < h3 < page + order_size(bo) {
                        assert(z0.is_free(bo, page as int));
                    }
                    if z0.is_free(o3, h3) && h3 == page && o3 != bo {
                        assert(z0.is_free(bo, page as int));
                    }
                }
                assert forall|o3: int, h3: int| #[trigger] z0.is_free(o3, h3) && h1 <= h3 < page + order_size(bo)
                    implies  order_size(o3) + h3 <= page + order_size(bo) by {
                    if h3 >= page {
                        assert(z0.is_free(bo, page as int));
                    }
                }
                last_o = bo;
                last_h = page as int;
            }
            page = page + order_pages(o);
        }
        proof {
            assert(page == end_aligned);
        }
        let ghost removed = *self;
        // the pages of the first block before the range go back
        let mut a = h1;
        let ghost mut m: int = o1 as int;
        let ghost mut up_done: Seq<(int, int)> = Seq::empty();
        proof {
            assert(blocks_up(h1 as int, s as int) =~= up_done + blocks_up(a as int, s as int));
        }
        while a < s
            invariant
                blocks_up(h1 as int, s as int) == up_done + blocks_up(a as int, s as int),
                forall|o: int, h: int| #[trigger] self.is_free(o, h) == (kept_block(z0, h1 as int,
                    end_aligned as int, o, h) || up_done.contains((o, h))),
                z0.wf(),
                self.blocks_wf(),
                self.len() == z0.len(),
                self.header() == z0.header(),
                self.managed_pages == z0.managed_pages,
                h1 <= a <= s < ee <= end_aligned <= z0.len(),
                0 <= m <= MAX_PAGE_ORDER,
                (a as int) % order_size(m) == 0,
                s - a < order_size(m),
                forall|o: int, h: int| kept_block(z0, h1 as int, end_aligned as int, o, h) ==> #[trigger]
                    self.is_free(o, h),
                forall|o: int, h: int| #[trigger] self.is_free(o, h) ==> kept_block(z0, h1 as int,
                    end_aligned as int, o, h) || (h1 <= h && order_size(o) + h <= a),
                forall|o: int, h: int| #[trigger] kept_block(z0, h1 as int, end_aligned as int, o, h) ==>
                    order_size(o) + h <= h1 || end_aligned <= h,
                forall|p: int| h1 <= p < a ==> #[trigger] self.page_is_free(p),
                self.total_free() == z0.total_free() - (end_aligned - h1) + (a - h1),
            decreases s - a,
        {
            let order = largest_order_within(s - a);
            proof {
                lemma_order_size_bounds(order as int);
                if order as int >= m {
                    lemma_order_size_mono(m, order as int);
                }
                lemma_step_aligned(a as int, order as int, m);
                assert forall|o: int, h: int| #[trigger] self.is_free(o, h) implies a + order_size(
                    order as int) <= h || h + order_size(o) <= a by {}
                assert forall|i: int| a <= i < a + order_size(order as int) implies (
                #[trigger] self.pages@[i]).flags != FREE_HEAD by {
                    if self.pages@[i].flags == FREE_HEAD {
                        assert(self.is_free(self.pages@[i].idx as int, i));
                    }
                }
            }
            let ghost before = *self;
            self.add_compound_page(a, order);
            proof {
                assert forall|p: int| h1 <= p < a + order_size(order as int) implies #[trigger] self.page_is_free(p) by {
                    if p < a {
                        assert(before.page_is_free(p));
                        let (o3, h3) = choose|o3: int, h3: int| #[trigger] before.is_free(o3, h3) && h3 <= p < h3
                            + order_size(o3);
                        assert(self.is_free(o3, h3));
                    } else {
                        assert(self.is_free(order as int, a as int));
                    }
                }
                if order < MAX_PAGE_ORDER {
                    lemma_order_size(order as int);
                }
                m = order as int;
                let rest = blocks_up(a + order_size(order as int), s as int);
                assert(blocks_up(a as int, s as int) == seq![(order as int, a as int)] + rest);
                assert(blocks_up(h1 as int, s as int) =~= up_done.push((order as int, a as int)) + rest);
                assert forall|o: int, h: int| #[trigger] self.is_free(o, h) == (kept_block(z0, h1 as int,
                    end_aligned as int, o, h) || up_done.push((order as int, a as int)).contains((o, h))) by {
                    if up_done.push((order as int, a as int)).contains((o, h)) && !up_done.contains((o, h)) {
                        let k = choose|k: int| 0 <= k < up_done.len() + 1 && up_done.push((order as int, a as int))[k] == (o, h);
                        assert(k == up_done.len());
                    }
                    if up_done.contains((o, h)) {
                        let k = choose|k: int| 0 <= k < up_done.len() && up_done[k] == (o, h);
                        assert(up_done.push((order as int, a as int))[k] == (o, h));
                    }
                    if o == order && h == a {
                        assert(up_done.push((order as int, a as int))[up_done.len() as int] == (o, h));
                    }
                }
                up_done = up_done.push((order as int, a as int));
            }
            a = a + order_pages(order);
        }
        proof {
            assert(blocks_up(a as int, s as int) =~= Seq::<(int, int)>::empty());
            assert(up_done =~= blocks_up(h1 as int, s as int));
        }
        // the pages of the last block after the range go back
        let mut b = end_aligned;
        let ghost mut n: int = o2 as int;
        proof {
            lemma_order_size_bounds(o2 as int);
            vstd::arithmetic::div_mod::lemma_mod_add_multiples_vanish(h2 as int, order_size(o2 as int));
            assert(order_size(o2 as int) + h2 == end_aligned);
        }
        let ghost mut down_done: Seq<(int, int)> = Seq::empty();
        proof {
            assert(blocks_down(ee as int, end_aligned as int) =~= down_done + blocks_down(ee as int, b as int));
        }
        while b > ee
            invariant
                blocks_down(ee as int, end_aligned as int) == down_done + blocks_down(ee as int, b as int),
                forall|o: int, h: int| #[trigger] self.is_free(o, h) == (kept_block(z0, h1 as int,
                    end_aligned as int, o, h) || blocks_up(h1 as int, s as int).contains((o, h))
                    || down_done.contains((o, h))),
                z0.wf(),
                self.blocks_wf(),
                self.len() == z0.len(),
                self.header() == z0.header(),
                self.managed_pages == z0.managed_pages,
                h1 <= s < ee <= b <= end_aligned <= z0.len(),
                0 <= n <= MAX_PAGE_ORDER,
                (b as int) % order_size(n) == 0,
                b - ee < order_size(n),
                forall|o: int, h: int| kept_block(z0, h1 as int, end_aligned as int, o, h) ==> #[trigger]
                    self.is_free(o, h),
                forall|o: int, h: int| #[trigger] self.is_free(o, h) ==> kept_block(z0, h1 as int,
                    end_aligned as int, o, h) || (h1 <= h && order_size(o) + h <= s) || (b <= h && order_size(o)
                    + h <= end_aligned),
                forall|o: int, h: int| #[trigger] kept_block(z0, h1 as int, end_aligned as int, o, h) ==>
                    order_size(o) + h <= h1 || end_aligned <= h,
                forall|p: int| (h1 <= p < s || b <= p < end_aligned) ==> #[trigger] self.page_is_free(p),
                self.total_free() == z0.total_free() - (end_aligned - h1) + (s - h1) + (end_aligned - b),
            decreases b - ee,
        {
            let order = largest_order_within(b - ee);
            let size = order_pages(order);
            proof {
                lemma_order_size_bounds(order as int);
                if order as int >= n {
                    lemma_order_size_mono(n, order as int);
                }
                lemma_step_aligned(b as int, order as int, n);
                assert forall|o: int, h: int| #[trigger] self.is_free(o, h) implies b <= h || h
                    + order_size(o) <= b - size by {}
                assert forall|i: int| b - size <= i < b implies (#[trigger] self.pages@[i]).flags
                    != FREE_HEAD by {
                    if self.pages@[i].flags == FREE_HEAD {
                        assert(self.is_free(self.pages@[i].idx as int, i));
                    }
                }
            }
            let ghost before = *self;
            self.add_compound_page(b - size, order);
            proof {
                assert forall|p: int| (h1 <= p < s || b - size <= p < end_aligned) implies #[trigger]
                    self.page_is_free(p) by {
                    if b - size <= p < b {
                        assert(self.is_free(order as int, b - size));
                    } else {
                        assert(before.page_is_free(p));
                        let (o3, h3) = choose|o3: int, h3: int| #[trigger] before.is_free(o3, h3) && h3 <= p < h3
                            + order_size(o3);
                        assert(self.is_free(o3, h3));
                    }
                }
                if order < MAX_PAGE_ORDER {
                    lemma_order_size(order as int);
                }
                n = order as int;
                let nb = b - order_size(order as int);
                let rest = blocks_down(ee as int, nb);
                assert(blocks_down(ee as int, b as int) == seq![(order as int, nb)] + rest);
                assert(blocks_down(ee as int, end_aligned as int) =~= down_done.push((order as int, nb)) + rest);
                assert forall|o: int, h: int| #[trigger] self.is_free(o, h) == (kept_block(z0, h1 as int,
                    end_aligned as int, o, h) || blocks_up(h1 as int, s as int).contains((o, h))
                    || down_done.push((order as int, nb)).contains((o, h))) by {
                    if down_done.push((order as int, nb)).contains((o, h)) && !down_done.contains((o, h)) {
                        let k = choose|k: int| 0 <= k < down_done.len() + 1 && down_done.push((order as int, nb))[k] == (o, h);
                        assert(k == down_done.len());
                    }
                    if down_done.contains((o, h)) {
                        let k = choose|k: int| 0 <= k < down_done.len() && down_done[k] == (o, h);
                        assert(down_done.push((order as int, nb))[k] == (o, h));
                    }
                    if o == order && h == nb {
                        assert(down_done.push((order as int, nb))[down_done.len() as int] == (o, h));
                    }
                }
                down_done = down_done.push((order as int, nb));
            }
            b = b - size;
        }
        proof {
            assert(blocks_down(ee as int, b as int) =~= Seq::<(int, int)>::empty());
            assert(down_done =~= blocks_down(ee as int, end_aligned as int));
        }
        let ghost restored = *self;
        proof {
            lemma_free_total_nonneg(self.free_areas@, MAX_PAGE_ORDER + 1);
        }
        self.managed_pages = self.managed_pages - len;
        proof {
            lemma_same_lists(restored, *self);
            assert forall|p: int| 0 <= p < z0.len() implies #[trigger] self.page_is_free(p) == (
            z0.page_is_free(p) && !(s <= p < s + len)) by {
                if h1 <= p < s || ee <= p < end_aligned {
                    assert(restored.page_is_free(p));
                    let (o3, h3) = choose|o3: int, h3: int| #[trigger] restored.is_free(o3, h3) && h3 <= p < h3
                        + order_size(o3);
                    assert(self.is_free(o3, h3));
                    if p < s {
                        assert(z0.is_free(o1 as int, h1 as int));
                    } else {
                        assert(z0.is_free(o2 as int, h2 as int));
                    }
                } else if s <= p < ee {
                    if self.page_is_free(p) {
                        let (o3, h3) = choose|o3: int, h3: int| #[trigger] self.is_free(o3, h3) && h3 <= p < h3
                            + order_size(o3);
                        assert(restored.is_free(o3, h3));
                    }
                } else {
                    if self.page_is_free(p) {
                        let (o3, h3) = choose|o3: int, h3: int| #[trigger] self.is_free(o3, h3) && h3 <= p < h3
                            + order_size(o3);
                        assert(restored.is_free(o3, h3));
                        assert(kept_block(z0, h1 as int, end_aligned as int, o3, h3));
                    }
                    if z0.page_is_free(p) {
                        let (o3, h3) = choose|o3: int, h3: int| #[trigger] z0.is_free(o3, h3) && h3 <= p < h3
                            + order_size(o3);
                        if h1 <= h3 < end_aligned {
                            assert(removed.is_free(o3, h3) == false);
                            assert(order_size(o3) + h3 <= end_aligned);
                        }
                        assert(kept_block(z0, h1 as int, end_aligned as int, o3, h3));
                        assert(restored.is_free(o3, h3));
                        assert(self.is_free(o3, h3));
                    }
                }
            }
            if z0.no_free_buddies() {
                lemma_reserved_no_buddies(z0, *self, o1 as int, h1 as int, o2 as int, h2 as int, s as int,
                    ee as int);
            }
        }
        Some(s)
    }
}

/// A free block is at least one page and at most the largest block.
proof fn lemma_order_size_bounds(o: int)
    requires
        0 <= o <= MAX_PAGE_ORDER,
    ensures
        1 <= order_size(o) <= 512,
{
}

/// Larger orders have larger blocks.
proof fn lemma_order_size_mono(a: int, b: int)
    requires
        0 <= a <= b <= MAX_PAGE_ORDER,
    ensures
        order_size(a) <= order_size(b),
        a < b ==> order_size(a + 1) <= order_size(b),
    decreases b - a,
{
    if a < b {
        lemma_order_size_mono(a, b - 1);
        lemma_order_size(b - 1);
    }
}

/// The free blocks that hold the first and the last page of a range lie in
/// the zone, the free blocks in between are disjoint from those outside.
proof fn lemma_blocks_within(z: ZoneDescriptor, o1: int, h1: int, o2: int, h2: int, e: int)
    requires
        z.wf(),
        z.is_free(o1, h1),
        z.is_free(o2, h2),
        h1 <= e,
        h2 <= e < h2 + order_size(o2),
    ensures
        h1 <= h2,
        h2 + order_size(o2) <= z.len(),
        h1 % order_size(o1) == 0,
        h2 % order_size(o2) == 0,
        0 <= o1 <= MAX_PAGE_ORDER,
        0 <= o2 <= MAX_PAGE_ORDER,
        forall|o: int, h: int| #[trigger] kept_block(z, h1, h2 + order_size(o2), o, h) ==> order_size(o) + h
            <= h1 || h2 + order_size(o2) <= h,
{
    if h2 < h1 {
        assert(h1 <= e < h2 + order_size(o2));
        assert(false);
    }
    assert forall|o: int, h: int| #[trigger] kept_block(z, h1, h2 + order_size(o2), o, h) implies order_size(o)
        + h <= h1 || h2 + order_size(o2) <= h by {
        if h < h1 {
            if !(o == o1 && h == h1) {
                assert(h + order_size(o) <= h1 || h1 + order_size(o1) <= h);
            }
        }
    }
}


/// Zones with the same free blocks have the same free pages.
proof fn lemma_same_pages(a: ZoneDescriptor, b: ZoneDescriptor)
    requires
        forall|o: int, h: int| #[trigger] b.is_free(o, h) == a.is_free(o, h),
    ensures
        forall|p: int| #[trigger] b.page_is_free(p) == a.page_is_free(p),
{
    assert forall|p: int| #[trigger] b.page_is_free(p) == a.page_is_free(p) by {
        if a.page_is_free(p) {
            let (o, h) = choose|o: int, h: int| #[trigger] a.is_free(o, h) && h <= p < h + order_size(o);
            assert(b.is_free(o, h));
        }
        if b.page_is_free(p) {
            let (o, h) = choose|o: int, h: int| #[trigger] b.is_free(o, h) && h <= p < h + order_size(o);
            assert(a.is_free(o, h));
        }
    }
}

/// The upper halves split off a block of order `o` down to order `order`
/// cover the block but for its first `2^order` pages: page `p` lies in the
/// half of the returned order.
proof fn half_of(h: int, order: int, o: int, p: int) -> (o2: int)
    requires
        0 <= order <= o <= MAX_PAGE_ORDER,
        h + order_size(order) <= p < h + order_size(o),
    ensures
        order <= o2 < o,
        h + order_size(o2) <= p < h + order_size(o2) + order_size(o2),
    decreases o,
{
    lemma_order_size(o - 1);
    if p >= h + order_size(o - 1) {
        o - 1
    } else {
        half_of(h, order, o - 1, p)
    }
}

/// The pages free after taking `2^order` pages at `h` out of the free block
/// of order `o` there (the upper halves going back) are the free pages
/// before but those taken.
proof fn lemma_alloc_pages(a: ZoneDescriptor, b: ZoneDescriptor, order: int, o: int, h: int)
    requires
        a.blocks_wf(),
        0 <= order <= o <= MAX_PAGE_ORDER,
        a.is_free(o, h),
        forall|o2: int, h2: int| #[trigger] b.is_free(o2, h2) == ((a.is_free(o2, h2) && !(o2 == o && h2 == h))
            || (order <= o2 < o && h2 == h + order_size(o2))),
    ensures
        forall|p: int| #[trigger] b.page_is_free(p) == (a.page_is_free(p) && !(h <= p < h + order_size(order))),
{
    assert forall|p: int| #[trigger] b.page_is_free(p) == (a.page_is_free(p) && !(h <= p < h + order_size(order))) by {
        if b.page_is_free(p) {
            let (o2, h2) = choose|o2: int, h2: int| #[trigger] b.is_free(o2, h2) && h2 <= p < h2 + order_size(o2);
            if a.is_free(o2, h2) && !(o2 == o && h2 == h) {
                assert(h2 + order_size(o2) <= h || h + order_size(o) <= h2);
                lemma_order_size_mono(order, o);
            } else {
                lemma_order_size(o2);
                lemma_order_size_mono(order, o2);
                lemma_order_size_mono(o2 + 1, o);
                assert(a.is_free(o, h) && h <= p < h + order_size(o));
            }
        }
        if a.page_is_free(p) && !(h <= p < h + order_size(order)) {
            let (o2, h2) = choose|o2: int, h2: int| #[trigger] a.is_free(o2, h2) && h2 <= p < h2 + order_size(o2);
            if o2 == o && h2 == h {
                let o3 = half_of(h, order, o, p);
                assert(b.is_free(o3, h + order_size(o3)));
                lemma_order_size(o3);
            } else {
                assert(b.is_free(o2, h2));
            }
        }
    }
}


/// Of two multiples of `s`, the smaller is at least `s` below the larger.
proof fn lemma_multiples_apart(a: int, b: int, s: int)
    requires
        s >= 1,
        a >= 0,
        b >= 0,
        a % s == 0,
        b % s == 0,
        a < b,
    ensures
        a + s <= b,
{
    vstd::arithmetic::div_mod::lemma_fundamental_div_mod(a, s);
    vstd::arithmetic::div_mod::lemma_fundamental_div_mod(b, s);
    let qa = a / s;
    let qb = b / s;
    assert(qa < qb) by (nonlinear_arith)
        requires a == s * qa, b == s * qb, a < b, s >= 1;
    assert(a + s <= b) by (nonlinear_arith)
        requires a == s * qa, b == s * qb, qa + 1 <= qb, s >= 1;
}

/// An aligned block that starts within a larger aligned block lies in it;
/// one that is larger and starts there starts where it does.
proof fn lemma_nested(h: int, o: int, h2: int, o2: int)
    requires
        0 <= o <= MAX_PAGE_ORDER,
        0 <= o2 <= MAX_PAGE_ORDER,
        h >= 0,
        h % order_size(o) == 0,
        h2 % order_size(o2) == 0,
        h <= h2 < h + order_size(o),
    ensures
        o2 <= o ==> h2 + order_size(o2) <= h + order_size(o),
        o2 > o ==> h2 == h,
{
    lemma_order_size_bounds(o);
    lemma_order_size_bounds(o2);
    if o2 <= o {
        lemma_aligned_down(h, o, o2);
        lemma_aligned_down(order_size(o), o, o2);
        vstd::arithmetic::div_mod::lemma_fundamental_div_mod(h, order_size(o2));
        vstd::arithmetic::div_mod::lemma_fundamental_div_mod(order_size(o), order_size(o2));
        let s = order_size(o2);
        let a = h / s;
        let b = order_size(o) / s;
        assert(h + order_size(o) == (a + b) * s) by (nonlinear_arith)
            requires h == s * a, order_size(o) == s * b;
        vstd::arithmetic::div_mod::lemma_mod_multiples_basic(a + b, s);
        if h2 + order_size(o2) > h + order_size(o) {
            lemma_multiples_apart(h2, h + order_size(o), s);
        }
    } else {
        lemma_aligned_down(h2, o2, o);
        if h < h2 {
            lemma_multiples_apart(h, h2, order_size(o));
        }
    }
}

/// The pages free after returning the taken block of `2^order0` pages at
/// `pages`, merged into the free block of order `o` at `h`, are the free
/// pages before and the returned ones.
proof fn lemma_free_pages(a: ZoneDescriptor, b: ZoneDescriptor, order0: int, pages: int, o: int, h: int)
    requires
        a.blocks_wf(),
        a.block_is_taken(order0, pages),
        order0 <= o <= MAX_PAGE_ORDER,
        0 <= h <= pages,
        pages + order_size(order0) <= h + order_size(o),
        h % order_size(o) == 0,
        forall|o2: int, h2: int| #[trigger] b.is_free(o2, h2) == ((o2 == o && h2 == h) || (a.is_free(o2, h2)
            && !(h <= h2 < h + order_size(o)))),
        forall|q: int| h <= q < h + order_size(o) && !(pages <= q < pages + order_size(order0))
            ==> #[trigger] a.page_is_free(q),
    ensures
        forall|p: int| #[trigger] b.page_is_free(p) == (a.page_is_free(p) || (pages <= p < pages
            + order_size(order0))),
{
    assert forall|p: int| #[trigger] b.page_is_free(p) == (a.page_is_free(p) || (pages <= p < pages
        + order_size(order0))) by {
        if b.page_is_free(p) {
            let (o2, h2) = choose|o2: int, h2: int| #[trigger] b.is_free(o2, h2) && h2 <= p < h2 + order_size(o2);
            if !(o2 == o && h2 == h) {
                assert(a.is_free(o2, h2));
            }
        }
        if pages <= p < pages + order_size(order0) {
            assert(b.is_free(o, h));
        }
        if a.page_is_free(p) {
            let (o2, h2) = choose|o2: int, h2: int| #[trigger] a.is_free(o2, h2) && h2 <= p < h2 + order_size(o2);
            if h <= h2 < h + order_size(o) {
                lemma_nested(h, o, h2, o2);
                if o2 > o {
                    assert(pages + order_size(order0) <= h2 || h2 + order_size(o2) <= pages);
                    lemma_order_size_mono(o, o2);
                    assert(false);
                }
                assert(b.is_free(o, h));
            } else {
                assert(b.is_free(o2, h2));
            }
        }
    }
}

/// Two zones with the same pages and free lists have the same free blocks.
proof fn lemma_same_lists(a: ZoneDescriptor, b: ZoneDescriptor)
    requires
        a.free_areas@ == b.free_areas@,
        a.pages@ == b.pages@,
        a.spanned_pages == b.spanned_pages,
        a.blocks_wf(),
    ensures
        b.blocks_wf(),
        a.total_free() == b.total_free(),
        forall|o: int, h: int|
            #![trigger a.is_free(o, h)]
            #![trigger b.is_free(o, h)]
            a.is_free(o, h) == b.is_free(o, h),
{
    assert forall|o: int, h: int| #[trigger] a.is_free(o, h) == b.is_free(o, h) by {}
    assert forall|o: int| 0 <= o <= MAX_PAGE_ORDER implies (#[trigger] b.free_areas@[o])@.no_duplicates() by {
        assert(a.free_areas@[o] == b.free_areas@[o]);
    }
    assert forall|o: int, h: int| #[trigger] b.is_free(o, h) implies {
        &&& h % order_size(o) == 0
        &&& h + order_size(o) <= b.pages@.len()
        &&& b.pages@[h].idx == o
        &&& b.pages@[h].flags == FREE_HEAD
    } by {
        assert(a.is_free(o, h));
    }
    assert forall|h: int| 0 <= h < b.pages@.len() && (#[trigger] b.pages@[h]).flags == FREE_HEAD
        implies b.is_free(b.pages@[h].idx as int, h) by {
        assert(a.pages@[h] == b.pages@[h]);
        assert(a.is_free(a.pages@[h].idx as int, h));
    }
    assert forall|o1: int, h1: int, o2: int, h2: int|
        #[trigger] b.is_free(o1, h1) && #[trigger] b.is_free(o2, h2) && !(o1 == o2 && h1 == h2)
        implies h1 + order_size(o1) <= h2 || h2 + order_size(o2) <= h1 by {
        assert(a.is_free(o1, h1) && a.is_free(o2, h2));
    }
}

/// A page aligned to a block of order `i` is aligned to every smaller block.
proof fn lemma_aligned_down(h: int, i: int, j: int)
    requires
        0 <= j <= i <= MAX_PAGE_ORDER,
        h % order_size(i) == 0,
    ensures
        h % order_size(j) == 0,
    decreases i - j,
{
    if j < i {
        lemma_order_size(i - 1);
        lemma_aligned_down(h, i - 1, j);
    }
}

proof fn lemma_free_total_zero(areas: Seq<Vec<usize>>, n: int)
    requires
        0 <= n <= areas.len(),
        forall|o: int| 0 <= o < n ==> (#[trigger] areas[o])@.len() == 0,
    ensures
        free_total(areas, n) == 0,
    decreases n,
{
    if n > 0 {
        lemma_free_total_zero(areas, n - 1);
    }
}

} // verus!

verus! {

/// A block's buddy is another block, whose buddy is the block again.
proof fn lemma_buddy_of_buddy(h: int, o: int)
    requires
        0 <= o < MAX_PAGE_ORDER,
        h >= 0,
        h % order_size(o) == 0,
    ensures
        buddy_of(h, o) != h,
        buddy_of(buddy_of(h, o), o) == h,
{
    lemma_order_size(o);
    let s = order_size(o);
    if h % (2 * s) == 0 {
        vstd::arithmetic::div_mod::lemma_add_mod_noop(h, s, 2 * s);
        vstd::arithmetic::div_mod::lemma_small_mod(s as nat, (2 * s) as nat);
        assert((h + s) % (2 * s) == s);
    } else {
        assert(h >= s && (h - s) % (2 * s) == 0);
    }
}

/// Splitting a block keeps buddies apart: below the split block's order the
/// only free blocks are the upper halves, one per order.
proof fn lemma_split_no_buddies(a: ZoneDescriptor, b: ZoneDescriptor, order: int, o: int, h: int)
    requires
        a.no_free_buddies(),
        order <= o,
        forall|o2: int, h2: int| order <= o2 < o ==> !(#[trigger] a.is_free(o2, h2)),
        forall|o2: int, h2: int| #[trigger] b.is_free(o2, h2) == ((a.is_free(o2, h2) && !(o2 == o
            && h2 == h)) || (order <= o2 < o && h2 == h + order_size(o2))),
    ensures
        b.no_free_buddies(),
{
    assert forall|o2: int, h1: int, h2: int|
        #[trigger] b.is_free(o2, h1) && #[trigger] b.is_free(o2, h2) && o2 < MAX_PAGE_ORDER implies h2
        != buddy_of(h1, o2) by {
        if order <= o2 < o {
            lemma_order_size(o2);
            assert(h1 == h2);
        } else {
            assert(a.is_free(o2, h1) && a.is_free(o2, h2));
        }
    }
}

/// Merging a block as far as its buddies are free keeps buddies apart: the
/// merged block's buddy is not free.
proof fn lemma_merged_no_buddies(a: ZoneDescriptor, b: ZoneDescriptor, o: int, h: int)
    requires
        a.no_free_buddies(),
        b.blocks_wf(),
        b.is_free(o, h),
        forall|o2: int, h2: int| #[trigger] b.is_free(o2, h2) == ((o2 == o && h2 == h) || (a.is_free(
            o2,
            h2,
        ) && !(h <= h2 < h + order_size(o)))),
        o < MAX_PAGE_ORDER ==> !a.is_free(o, buddy_of(h, o)),
    ensures
        b.no_free_buddies(),
{
    assert forall|o2: int, h1: int, h2: int|
        #[trigger] b.is_free(o2, h1) && #[trigger] b.is_free(o2, h2) && o2 < MAX_PAGE_ORDER implies h2
        != buddy_of(h1, o2) by {
        lemma_buddy_of_buddy(h1, o2);
        lemma_buddy_of_buddy(h2, o2);
        if h2 == buddy_of(h1, o2) {
            if o2 == o && h1 == h {
                assert(a.is_free(o2, h2));
            } else if o2 == o && h2 == h {
                assert(a.is_free(o2, h1));
            } else {
                assert(a.is_free(o2, h1) && a.is_free(o2, h2));
            }
        }
    }
}

/// The largest block that fits in `d` pages fits, and for fewer than twice
/// the largest block, twice it does not.
proof fn lemma_order_within(d: int)
    requires
        d >= 1,
    ensures
        0 <= order_within(d) <= MAX_PAGE_ORDER,
        order_size(order_within(d)) <= d,
        d < 1024 ==> d < 2 * order_size(order_within(d)),
{
}

/// The pieces `blocks_up(a, s)` lies in `a .. s`, and below twice the largest
/// block no two of them have the same order.
proof fn lemma_blocks_up(a: int, s: int, o: int, h: int, h2: int)
    requires
        blocks_up(a, s).contains((o, h)),
    ensures
        a <= h,
        h + order_size(o) <= s,
        0 <= o <= MAX_PAGE_ORDER,
        s - a < 1024 && blocks_up(a, s).contains((o, h2)) ==> h == h2,
    decreases s - a,
{
    let bs = blocks_up(a, s);
    let o0 = order_within(s - a);
    lemma_order_within(s - a);
    let a2 = a + order_size(o0);
    let rest = blocks_up(a2, s);
    assert(bs == seq![(o0, a)] + rest);
    let k = choose|k: int| 0 <= k < bs.len() && bs[k] == (o, h);
    if k > 0 {
        assert(rest[k - 1] == (o, h));
        lemma_blocks_up(a2, s, o, h, h2);
    }
    if s - a < 1024 && bs.contains((o, h2)) {
        let k2 = choose|k2: int| 0 <= k2 < bs.len() && bs[k2] == (o, h2);
        if k2 > 0 {
            assert(rest[k2 - 1] == (o, h2));
            lemma_blocks_up(a2, s, o, h2, h);
        }
        if k == 0 && k2 > 0 {
            assert(order_size(o) <= s - a2);
        } else if k > 0 && k2 == 0 {
            assert(order_size(o) <= s - a2);
        }
    }
}

/// The pieces `blocks_down(e, b)` lie in `e .. b`, and below twice the
/// largest block no two of them have the same order.
proof fn lemma_blocks_down(e: int, b: int, o: int, h: int, h2: int)
    requires
        blocks_down(e, b).contains((o, h)),
    ensures
        e <= h,
        h + order_size(o) <= b,
        0 <= o <= MAX_PAGE_ORDER,
        b - e < 1024 && blocks_down(e, b).contains((o, h2)) ==> h == h2,
    decreases b - e,
{
    let bs = blocks_down(e, b);
    let o0 = order_within(b - e);
    lemma_order_within(b - e);
    let b2 = b - order_size(o0);
    let rest = blocks_down(e, b2);
    assert(bs == seq![(o0, b2)] + rest);
    let k = choose|k: int| 0 <= k < bs.len() && bs[k] == (o, h);
    if k > 0 {
        assert(rest[k - 1] == (o, h));
        lemma_blocks_down(e, b2, o, h, h2);
    }
    if b - e < 1024 && bs.contains((o, h2)) {
        let k2 = choose|k2: int| 0 <= k2 < bs.len() && bs[k2] == (o, h2);
        if k2 > 0 {
            assert(rest[k2 - 1] == (o, h2));
            lemma_blocks_down(e, b2, o, h2, h);
        }
        if k == 0 && k2 > 0 {
            assert(order_size(o) <= b2 - e);
        } else if k > 0 && k2 == 0 {
            assert(order_size(o) <= b2 - e);
        }
    }
}

/// The buddy of an aligned block inside a larger aligned block lies inside
/// it too.
proof fn lemma_buddy_inside(h: int, o: int, lo: int, big: int)
    requires
        0 <= o < big <= MAX_PAGE_ORDER,
        h % order_size(o) == 0,
        lo >= 0,
        lo % order_size(big) == 0,
        lo <= h,
        h + order_size(o) <= lo + order_size(big),
    ensures
        lo <= buddy_of(h, o),
        buddy_of(h, o) + order_size(o) <= lo + order_size(big),
{
    lemma_order_size(o);
    let t = order_size(o);
    let tt = order_size(big);
    lemma_order_size_bounds(big);
    lemma_aligned_down(lo, big, o + 1);
    vstd::arithmetic::div_mod::lemma_mod_add_multiples_vanish(lo, tt);
    lemma_aligned_down(lo + tt, big, o + 1);
    if h % (2 * t) == 0 {
        if h + 2 * t > lo + tt {
            lemma_multiples_apart(h, lo + tt, 2 * t);
        }
    } else {
        assert(h >= t && (h - t) % (2 * t) == 0);
        if h - t < lo {
            lemma_multiples_apart(h - t, lo, 2 * t);
        }
    }
}

/// Reserving pages keeps buddies apart: the pieces that go back lie inside
/// the blocks they came from, one per order on each side of the range.
proof fn lemma_reserved_no_buddies(
    a: ZoneDescriptor,
    b: ZoneDescriptor,
    o1: int,
    lo: int,
    o2: int,
    h2: int,
    s: int,
    ee: int,
)
    requires
        a.blocks_wf(),
        a.no_free_buddies(),
        b.blocks_wf(),
        a.is_free(o1, lo),
        lo <= s < lo + order_size(o1),
        a.is_free(o2, h2),
        h2 < ee <= h2 + order_size(o2),
        lo <= h2,
        s < ee,
        forall|o: int, h: int| #[trigger] b.is_free(o, h) == (kept_block(a, lo, h2 + order_size(o2), o, h)
            || blocks_up(lo, s).contains((o, h)) || blocks_down(ee, h2 + order_size(o2)).contains((o, h))),
    ensures
        b.no_free_buddies(),
{
    let hi = h2 + order_size(o2);
    lemma_order_size_bounds(o1);
    lemma_order_size_bounds(o2);
    assert(lo + order_size(o1) <= hi) by {
        if !(o1 == o2 && lo == h2) {
            assert(lo + order_size(o1) <= h2 || h2 + order_size(o2) <= lo);
        }
    }
    // every piece that goes back has its buddy inside the range
    assert forall|o: int, h: int| #[trigger] b.is_free(o, h) && !kept_block(a, lo, hi, o, h) && o
        < MAX_PAGE_ORDER implies lo <= buddy_of(h, o) < hi by {
        lemma_order_size(o);
        if blocks_up(lo, s).contains((o, h)) {
            lemma_blocks_up(lo, s, o, h, h);
            if o >= o1 {
                lemma_order_size_mono(o1, o);
            }
            lemma_buddy_inside(h, o, lo, o1);
        } else {
            lemma_blocks_down(ee, hi, o, h, h);
            if o >= o2 {
                lemma_order_size_mono(o2, o);
            }
            lemma_buddy_inside(h, o, h2, o2);
        }
    }
    assert forall|o: int, x: int, y: int|
        #[trigger] b.is_free(o, x) && #[trigger] b.is_free(o, y) && o < MAX_PAGE_ORDER implies y
        != buddy_of(x, o) by {
        if y == buddy_of(x, o) {
            lemma_buddy_of_buddy(x, o);
            lemma_buddy_of_buddy(y, o);
            lemma_order_size(o);
            if kept_block(a, lo, hi, o, x) && kept_block(a, lo, hi, o, y) {
                assert(a.is_free(o, x) && a.is_free(o, y));
            } else if blocks_up(lo, s).contains((o, x)) && blocks_up(lo, s).contains((o, y)) {
                lemma_blocks_up(lo, s, o, x, y);
            } else if blocks_down(ee, hi).contains((o, x)) && blocks_down(ee, hi).contains((o, y)) {
                lemma_blocks_down(ee, hi, o, x, y);
            } else if blocks_up(lo, s).contains((o, x)) && blocks_down(ee, hi).contains((o, y)) {
                lemma_blocks_up(lo, s, o, x, x);
                lemma_blocks_down(ee, hi, o, y, y);
            } else if blocks_down(ee, hi).contains((o, x)) && blocks_up(lo, s).contains((o, y)) {
                lemma_blocks_up(lo, s, o, y, y);
                lemma_blocks_down(ee, hi, o, x, x);
            } else if kept_block(a, lo, hi, o, x) {
                assert(lo <= buddy_of(y, o) < hi);
            } else {
                assert(lo <= buddy_of(x, o) < hi);
            }
        }
    }
}

} // verus!
