//! The kernel's small-object cache: free lists of areas whose sizes are
//! powers of two from 8 bytes to a page, carved out of whole pages.
use vstd::prelude::*;
use vstd::std_specs::bits::u64_leading_zeros;

verus! {

/// Order of the smallest area.
pub const MIN_CACHE_ORDER: usize = 3;
/// Order of the largest area: a page.
pub const MAX_CACHE_ORDER: usize = 12;
/// Sizes and alignments are rounded up to multiples of eight.
pub const MIN_ALIGN_MASK: u64 = 7;
/// Number of free lists.
pub const CACHE_LISTS: usize = 10;
/// Highest address an area may have, so that a page from it fits.
pub const CACHE_ADDR_LIMIT: u64 = 0x1000_0000_0000_0000;

/// `2^n`.
pub open spec fn two_pow(n: nat) -> nat
    decreases n,
{
    if n == 0 {
        1
    } else {
        2 * two_pow((n - 1) as nat)
    }
}

/// Number of significant bits of `x`.
pub open spec fn bit_len(x: u64) -> int {
    64 - u64_leading_zeros(x)
}

/// The significant bits of a number bound it by powers of two.
pub proof fn lemma_bit_len(x: u64)
    ensures
        x == 0 ==> bit_len(x) == 0,
        x > 0 ==> 1 <= bit_len(x) <= 64 && two_pow((bit_len(x) - 1) as nat) <= x < two_pow(
            bit_len(x) as nat),
    decreases x,
{
    reveal(u64_leading_zeros);
    if x > 0 {
        lemma_bit_len(x / 2);
        assert(bit_len(x) == bit_len(x / 2) + 1);
        if x / 2 > 0 {
            let b = bit_len(x / 2);
            assert(two_pow(b as nat) == 2 * two_pow((b - 1) as nat));
            assert(two_pow((b + 1) as nat) == 2 * two_pow(b as nat));
        }
    }
}

/// Small powers of two.
proof fn lemma_two_pow_values()
    ensures
        two_pow(3) == 8,
        two_pow(12) == 4096,
        forall|n: nat| n <= 12 ==> #[trigger] two_pow(n) <= 4096,
        forall|n: nat| n >= 3 ==> #[trigger] two_pow(n) >= 8 && two_pow(n) % 8 == 0,
{
    reveal_with_fuel(two_pow, 13);
    assert forall|n: nat| n <= 12 implies #[trigger] two_pow(n) <= 4096 by {
        lemma_two_pow_mono(n, 12);
    }
    assert forall|n: nat| n >= 3 implies #[trigger] two_pow(n) >= 8 && two_pow(n) % 8 == 0 by {
        lemma_two_pow_mono(3, n);
        lemma_two_pow_multiple(n);
    }
}

proof fn lemma_two_pow_mono(a: nat, b: nat)
    requires
        a <= b,
    ensures
        two_pow(a) <= two_pow(b),
        two_pow(a) >= 1,
    decreases b,
{
    lemma_two_pow_pos(a);
    if a < b {
        lemma_two_pow_mono(a, (b - 1) as nat);
    }
}

proof fn lemma_two_pow_pos(a: nat)
    ensures
        two_pow(a) >= 1,
    decreases a,
{
    if a > 0 {
        lemma_two_pow_pos((a - 1) as nat);
    }
}

proof fn lemma_two_pow_multiple(n: nat)
    requires
        n >= 3,
    ensures
        two_pow(n) % 8 == 0,
    decreases n,
{
    reveal_with_fuel(two_pow, 4);
    if n > 3 {
        lemma_two_pow_multiple((n - 1) as nat);
    }
}

/// A size or alignment rounded up to a multiple of eight.
pub open spec fn round8(x: u64) -> int {
    (x + 7) - (x + 7) % 8
}

/// The order of the areas that serve an allocation: the number of
/// significant bits of the larger of the rounded size and alignment, less
/// one.
pub open spec fn cache_order(size: u64, align: u64) -> int {
    let m = if round8(size) >= round8(align) { round8(size) } else { round8(align) };
    bit_len((m - 1) as u64)
}

/// The areas the rest of a block goes back as, from its top down: as long
/// as `end` lies below `end_aligned`, the largest power of two that fits
/// below `end_aligned` (as order and address).
pub open spec fn split_rest(end_aligned: int, end: int) -> Seq<(int, int)>
    decreases end_aligned - end,
{
    if end_aligned <= end || end_aligned - end > u64::MAX {
        Seq::empty()
    } else {
        let o = bit_len((end_aligned - end) as u64) - 1;
        if o < 0 || two_pow(o as nat) == 0 || two_pow(o as nat) > end_aligned - end {
            Seq::empty()
        } else {
            seq![(o, end_aligned - two_pow(o as nat))] + split_rest(end_aligned - two_pow(o as nat), end)
        }
    }
}

/// The free lists after pushing each area onto the list of its order.
pub open spec fn push_areas(lists: Seq<Seq<u64>>, areas: Seq<(int, int)>) -> Seq<Seq<u64>>
    decreases areas.len(),
{
    if areas.len() == 0 {
        lists
    } else {
        let (o, a) = areas[0];
        let k = o - MIN_CACHE_ORDER;
        push_areas(lists.update(k, lists[k].push(a as u64)), areas.drop_first())
    }
}

/// The first list at or after `k` that holds an area, or -1.
pub open spec fn first_nonempty(lists: Seq<Seq<u64>>, k: int) -> int
    decreases lists.len() - k,
{
    if k < 0 || k >= lists.len() {
        -1
    } else if lists[k].len() > 0 {
        k
    } else {
        first_nonempty(lists, k + 1)
    }
}

/// There is a list per order, and every area is aligned to its size and
/// lies below the address limit.
pub open spec fn lists_wf(lists: Seq<Seq<u64>>) -> bool {
    &&& lists.len() == CACHE_LISTS
    &&& forall|k: int, i: int| 0 <= k < CACHE_LISTS && 0 <= i < lists[k].len() ==> #[trigger] lists[k][i]
        < CACHE_ADDR_LIMIT && lists[k][i] as int % two_pow((k + MIN_CACHE_ORDER) as nat) as int == 0
}

/// An area handed out: its address, its (rounded) size, and whether it came
/// from a free list (its page then gains a reference).
#[derive(Copy, Clone, Debug, PartialEq, Eq, Structural)]
pub struct CacheAlloc {
    pub area: u64,
    pub size: u64,
    pub reused: bool,
}

/// The cache could not serve an allocation.
#[derive(Copy, Clone, Debug, PartialEq, Eq, Structural)]
pub struct AllocError;

/// The outcome of an allocation of `size` bytes aligned to `align` from the
/// lists `lists`, with `page` a newly mapped page if there is one: the
/// result and the lists after it. The area is the head of the first list at
/// or above the allocation's order that holds one; when there is none,
/// `page` is put on the page-sized list and used. The part of the area
/// beyond the rounded size goes back to the lists as `split_rest` says.
/// Without an area and without a page the allocation fails.
pub open spec fn allocation(lists: Seq<Seq<u64>>, size: u64, align: u64, page: Option<u64>) -> (
    Result<CacheAlloc, AllocError>,
    Seq<Seq<u64>>,
) {
    let o = cache_order(size, align);
    let k = first_nonempty(lists, o - MIN_CACHE_ORDER);
    if k >= 0 {
        let area = lists[k].last();
        let i = k + MIN_CACHE_ORDER;
        (
            Ok(CacheAlloc { area, size: round8(size) as u64, reused: true }),
            push_areas(
                lists.update(k, lists[k].drop_last()),
                split_rest(area + two_pow(i as nat), area + round8(size)),
            ),
        )
    } else {
        match page {
            Some(p) => (
                Ok(CacheAlloc { area: p, size: round8(size) as u64, reused: false }),
                push_areas(lists.update(9, lists[9].push(p)), split_rest(p + 4096, p + round8(size))),
            ),
            None => (Err(AllocError), lists),
        }
    }
}

/// The small-object cache: one free list per order, each a stack of area
/// addresses (its head last).
pub struct CacheDescriptor {
    free_areas: Vec<Vec<u64>>,
}

impl CacheDescriptor {
    /// The free lists, list `k` holding the areas of order `k + 3`.
    pub closed spec fn lists(self) -> Seq<Seq<u64>> {
        Seq::new(self.free_areas@.len(), |k: int| self.free_areas@[k]@)
    }

    /// There is a list per order, and every area is aligned to its size and
    /// lies below the address limit.
    pub open spec fn wf(self) -> bool {
        lists_wf(self.lists())
    }

    /// An empty cache.
    pub fn new() -> (r: Self)
        ensures
            r.wf(),
            forall|k: int| 0 <= k < CACHE_LISTS ==> #[trigger] r.lists()[k].len() == 0,
    {
        let mut free_areas: Vec<Vec<u64>> = Vec::new();
        while free_areas.len() < CACHE_LISTS
            invariant
                free_areas@.len() <= CACHE_LISTS,
                forall|k: int| 0 <= k < free_areas@.len() ==> #[trigger] free_areas@[k]@.len() == 0,
            decreases CACHE_LISTS - free_areas@.len(),
        {
            free_areas.push(Vec::new());
        }
        CacheDescriptor { free_areas }
    }

    /// Whether an allocation of `size` bytes aligned to `align` needs a new
    /// page: no list of its order or above holds an area.
    pub fn needs_page(&self, size: u64, align: u64) -> (r: bool)
        requires
            self.wf(),
            1 <= align <= 0x8000_0000_0000_0000,
            size <= 0x8000_0000_0000_0000,
        ensures
            r == (first_nonempty(self.lists(), cache_order(size, align) - MIN_CACHE_ORDER) < 0),
    {
        let order = order_of(size, align);
        let k = self.first_list(order - MIN_CACHE_ORDER);
        k.is_none()
    }

    fn first_list(&self, from: usize) -> (r: Option<usize>)
        requires
            self.wf(),
        ensures
            r == (if first_nonempty(self.lists(), from as int) < 0 {
                None::<usize>
            } else {
                Some(first_nonempty(self.lists(), from as int) as usize)
            }),
            r matches Some(k) ==> from <= k < CACHE_LISTS && self.lists()[k as int].len() > 0
                && k as int == first_nonempty(self.lists(), from as int),
            r is None ==> first_nonempty(self.lists(), from as int) < 0,
    {
        let mut k = from;
        while k < self.free_areas.len()
            invariant
                self.wf(),
                from <= k,
                first_nonempty(self.lists(), from as int) == first_nonempty(self.lists(), k as int),
            decreases self.free_areas@.len() - k,
        {
            if self.free_areas[k].len() > 0 {
                assert(self.lists()[k as int] == self.free_areas@[k as int]@);
                assert(first_nonempty(self.lists(), k as int) == k);
                return Some(k);
            }
            assert(self.lists()[k as int] == self.free_areas@[k as int]@);
            k = k + 1;
        }
        None
    }

    /// Serves an allocation of `size` bytes aligned to `align`. The area is
    /// the head of the first list at or above the allocation's order that
    /// holds one; when there is none, `page` (a newly mapped page) is put
    /// on the page-sized list and used. The part of the area beyond the
    /// rounded size goes back to the lists as `split_rest` says. Without an
    /// area and without a page the allocation fails.
    pub fn allocate(&mut self, size: u64, align: u64, page: Option<u64>) -> (r: Result<CacheAlloc, AllocError>)
        requires
            old(self).wf(),
            1 <= align <= 0x8000_0000_0000_0000,
            size <= 0x8000_0000_0000_0000,
            page matches Some(p) ==> p < CACHE_ADDR_LIMIT && p % 4096 == 0,
        ensures
            final(self).wf(),
            r == allocation(old(self).lists(), size, align, page).0,
            final(self).lists() == allocation(old(self).lists(), size, align, page).1,
    {
        let size_r = round_up8(size);
        let order = order_of(size, align);
        let (area, i, reused) = match self.first_list(order - MIN_CACHE_ORDER) {
            Some(k) => {
                let mut list: Vec<u64> = Vec::new();
                self.free_areas.set_and_swap(k, &mut list);
                let ghost before = list@;
                let area = list.pop().unwrap();
                self.free_areas.set_and_swap(k, &mut list);
                proof {
                    assert(before == old(self).lists()[k as int]);
                    assert(self.lists() =~= old(self).lists().update(k as int, before.drop_last()));
                    let last = (before.len() - 1) as int;
                    assert(old(self).lists()[k as int][last] == area);
                    assert(area == old(self).lists()[k as int].last());
                    assert(k as int == first_nonempty(old(self).lists(), cache_order(size, align) - MIN_CACHE_ORDER));
                    assert(area < CACHE_ADDR_LIMIT && area as int % two_pow((k + MIN_CACHE_ORDER) as nat) as int == 0);
                    assert forall|kk: int, ii: int| 0 <= kk < CACHE_LISTS && 0 <= ii < self.lists()[kk].len() implies #[trigger] self.lists()[kk][ii]
                        < CACHE_ADDR_LIMIT && self.lists()[kk][ii] as int % two_pow((kk + MIN_CACHE_ORDER) as nat) as int == 0 by {
                        assert(self.lists()[kk][ii] == old(self).lists()[kk][ii]);
                    }
                }
                (area, k + MIN_CACHE_ORDER, true)
            },
            None => {
                match page {
                    None => {
                        return Err(AllocError);
                    },
                    Some(p) => {
                        let mut list: Vec<u64> = Vec::new();
                        self.free_areas.set_and_swap(9, &mut list);
                        list.push(p);
                        self.free_areas.set_and_swap(9, &mut list);
                        proof {
                            assert(self.lists() =~= old(self).lists().update(9, old(self).lists()[9].push(p)));
                            lemma_two_pow_values();
                            assert forall|kk: int, ii: int| 0 <= kk < CACHE_LISTS && 0 <= ii < self.lists()[kk].len() implies #[trigger] self.lists()[kk][ii]
                                < CACHE_ADDR_LIMIT && self.lists()[kk][ii] as int % two_pow((kk + MIN_CACHE_ORDER) as nat) as int == 0 by {
                                if !(kk == 9 && ii == old(self).lists()[9].len()) {
                                    assert(self.lists()[kk][ii] == old(self).lists()[kk][ii]);
                                }
                            }
                        }
                        (p, MAX_CACHE_ORDER, false)
                    },
                }
            },
        };
        proof {
            lemma_two_pow_values();
            lemma_order_bounds(size, align);
        }
        let end = area + size_r;
        let mut end_aligned = area + pow_of(i);
        let ghost start_lists = self.lists();
        let ghost mut todo = split_rest(end_aligned as int, end as int);
        let ghost target = push_areas(start_lists, todo);
        let ghost mut m: nat = i as nat;
        proof {
            lemma_within_limit(area as int, i as nat);
            lemma_two_pow_pos(i as nat);
            vstd::arithmetic::div_mod::lemma_mod_add_multiples_vanish(area as int, two_pow(i as nat) as int);
            assert(two_pow(i as nat) + area == end_aligned);
        }
        while end_aligned > end
            invariant
                lists_wf(self.lists()),
                MIN_CACHE_ORDER <= i <= MAX_CACHE_ORDER,
                area as int % two_pow(i as nat) as int == 0,
                area + two_pow(i as nat) <= CACHE_ADDR_LIMIT,
                end == area + round8(size),
                round8(size) % 8 == 0,
                end_aligned <= area + two_pow(i as nat),
                MIN_CACHE_ORDER <= m <= i,
                end_aligned as int % two_pow(m) as int == 0,
                end_aligned > end ==> end_aligned - end <= two_pow(m),
                todo == split_rest(end_aligned as int, end as int),
                push_areas(self.lists(), todo) == target,
                target == push_areas(start_lists, split_rest(area + two_pow(i as nat), area + round8(size))),
                size_r == round8(size),
                reused ==> {
                    &&& i - MIN_CACHE_ORDER == first_nonempty(old(self).lists(), cache_order(size, align) - MIN_CACHE_ORDER)
                    &&& area == old(self).lists()[i - MIN_CACHE_ORDER].last()
                    &&& start_lists == old(self).lists().update(i - MIN_CACHE_ORDER, old(self).lists()[i - MIN_CACHE_ORDER].drop_last())
                },
                !reused ==> {
                    &&& first_nonempty(old(self).lists(), cache_order(size, align) - MIN_CACHE_ORDER) < 0
                    &&& page == Some(area)
                    &&& i == MAX_CACHE_ORDER
                    &&& start_lists == old(self).lists().update(9, old(self).lists()[9].push(area))
                },
            decreases end_aligned,
        {
            let d = end_aligned - end;
            let o = (63 - d.leading_zeros()) as usize;
            proof {
                lemma_bit_len(d);
                lemma_two_pow_values();
                lemma_diff_multiple_of_8(end_aligned as int, area as int, i as nat, m, round8(size));
                assert(d >= 8);
                if bit_len(d) < 4 {
                    lemma_two_pow_mono(bit_len(d) as nat, 3);
                }
                if bit_len(d) - 1 > m {
                    lemma_two_pow_mono((m + 1) as nat, (bit_len(d) - 1) as nat);
                    assert(two_pow((m + 1) as nat) == 2 * two_pow(m));
                }
                lemma_two_pow_mono(o as nat, m);
                lemma_two_pow_mono(m, i as nat);
            }
            let chunk = end_aligned - pow_of(o);
            let ghost old_lists = self.lists();
            let mut list: Vec<u64> = Vec::new();
            self.free_areas.set_and_swap(o - MIN_CACHE_ORDER, &mut list);
            list.push(chunk);
            self.free_areas.set_and_swap(o - MIN_CACHE_ORDER, &mut list);
            proof {
                let k = (o - MIN_CACHE_ORDER) as int;
                assert(self.lists() =~= old_lists.update(k, old_lists[k].push(chunk)));
                assert(todo.len() > 0);
                assert(todo[0] == (o as int, chunk as int));
                todo = todo.drop_first();
                lemma_aligned_down_pow(end_aligned as int, m, o as nat);
                vstd::arithmetic::div_mod::lemma_mod_sub_multiples_vanish(end_aligned as int, two_pow(o as nat) as int);
                assert(-(two_pow(o as nat) as int) + end_aligned == chunk);
                assert(chunk < CACHE_ADDR_LIMIT);
                assert forall|kk: int, ii: int| 0 <= kk < CACHE_LISTS && 0 <= ii < self.lists()[kk].len() implies #[trigger] self.lists()[kk][ii]
                    < CACHE_ADDR_LIMIT && self.lists()[kk][ii] as int % two_pow((kk + MIN_CACHE_ORDER) as nat) as int == 0 by {
                    if kk == k && ii == old_lists[k].len() {
                        assert(self.lists()[kk][ii] == chunk);
                    } else {
                        assert(self.lists()[kk][ii] == old_lists[kk][ii]);
                    }
                }
                assert(two_pow((o + 1) as nat) == 2 * two_pow(o as nat));
                m = o as nat;
            }
            end_aligned = chunk;
        }
        proof {
            assert(todo.len() == 0);
            assert(push_areas(self.lists(), todo) == self.lists());
            lemma_two_pow_values();
        }
        Ok(CacheAlloc { area, size: size_r, reused })
    }
}

/// `2^m` is `2^o` times `2^(m - o)`.
proof fn lemma_two_pow_split(o: nat, m: nat)
    requires
        o <= m,
    ensures
        two_pow(m) == two_pow(o) * two_pow((m - o) as nat),
    decreases m,
{
    if o < m {
        lemma_two_pow_split(o, (m - 1) as nat);
        let a = two_pow(o);
        let c = two_pow((m - 1 - o) as nat);
        assert(two_pow(m) == 2 * two_pow((m - 1) as nat));
        assert((m - o) as nat == ((m - 1 - o) + 1) as nat);
        assert(two_pow((m - o) as nat) == 2 * c);
        assert(two_pow((m - 1) as nat) == a * c);
        assert(a * (2 * c) == 2 * (a * c)) by (nonlinear_arith);
    } else {
        assert(two_pow(0) == 1);
        assert((m - o) as nat == 0);
    }
}

/// A multiple of `2^m` is a multiple of every smaller power of two.
proof fn lemma_aligned_down_pow(x: int, m: nat, o: nat)
    requires
        o <= m,
        x >= 0,
        x % two_pow(m) as int == 0,
    ensures
        x % two_pow(o) as int == 0,
{
    lemma_two_pow_split(o, m);
    lemma_two_pow_mono(o, m);
    lemma_two_pow_mono((m - o) as nat, (m - o) as nat);
    let a = two_pow(o) as int;
    let b = two_pow((m - o) as nat) as int;
    vstd::arithmetic::div_mod::lemma_fundamental_div_mod(x, a * b);
    let q = x / (a * b);
    assert(x == (q * b) * a) by (nonlinear_arith)
        requires x == (a * b) * q + x % (a * b), x % (a * b) == 0;
    vstd::arithmetic::div_mod::lemma_mod_multiples_basic(q * b, a);
}

/// An area below the limit and aligned to its size ends by the limit.
proof fn lemma_within_limit(area: int, i: nat)
    requires
        MIN_CACHE_ORDER <= i <= MAX_CACHE_ORDER,
        0 <= area < CACHE_ADDR_LIMIT,
        area % two_pow(i) as int == 0,
    ensures
        area + two_pow(i) <= CACHE_ADDR_LIMIT,
{
    lemma_two_pow_values();
    lemma_two_pow_mono(1, i);
    assert(CACHE_ADDR_LIMIT % 4096 == 0);
    lemma_two_pow_split(i, 12);
    let b = two_pow((12 - i) as nat) as int;
    let a = two_pow(i) as int;
    vstd::arithmetic::div_mod::lemma_fundamental_div_mod(CACHE_ADDR_LIMIT as int, 4096);
    assert(CACHE_ADDR_LIMIT == ((CACHE_ADDR_LIMIT / 4096) * b) * a) by (nonlinear_arith)
        requires CACHE_ADDR_LIMIT == 4096 * (CACHE_ADDR_LIMIT / 4096) + CACHE_ADDR_LIMIT % 4096,
            CACHE_ADDR_LIMIT % 4096 == 0, 4096 == a * b;
    vstd::arithmetic::div_mod::lemma_mod_multiples_basic((CACHE_ADDR_LIMIT / 4096) * b, a);
    if area + a > CACHE_ADDR_LIMIT {
        assert(a >= 1);
        vstd::arithmetic::div_mod::lemma_fundamental_div_mod(area, a);
        vstd::arithmetic::div_mod::lemma_fundamental_div_mod(CACHE_ADDR_LIMIT as int, a);
        let qa = area / a;
        let ql = CACHE_ADDR_LIMIT as int / a;
        assert(qa < ql) by (nonlinear_arith)
            requires area == a * qa, CACHE_ADDR_LIMIT == a * ql, area < CACHE_ADDR_LIMIT, a >= 1;
        assert(area + a <= CACHE_ADDR_LIMIT) by (nonlinear_arith)
            requires area == a * qa, CACHE_ADDR_LIMIT == a * ql, qa + 1 <= ql, a >= 1;
    }
}

/// The rest of a block beyond a size that is a multiple of eight is a
/// multiple of eight.
proof fn lemma_diff_multiple_of_8(end_aligned: int, area: int, i: nat, m: nat, size: int)
    requires
        MIN_CACHE_ORDER <= i,
        m <= i,
        area % two_pow(i) as int == 0,
        end_aligned % two_pow(m) as int == 0,
        area >= 0,
        end_aligned > area + size,
        size >= 0,
        size % 8 == 0,
    ensures
        (end_aligned - (area + size)) % 8 == 0 || m < 3,
{
    if m >= 3 {
        lemma_aligned_down_pow(end_aligned, m, 3);
        lemma_aligned_down_pow(area, i, 3);
        assert(two_pow(3) == 8) by {
            reveal_with_fuel(two_pow, 4);
        }
        vstd::arithmetic::div_mod::lemma_fundamental_div_mod(end_aligned, 8);
        vstd::arithmetic::div_mod::lemma_fundamental_div_mod(area, 8);
        vstd::arithmetic::div_mod::lemma_fundamental_div_mod(size, 8);
        let x = end_aligned / 8 - area / 8 - size / 8;
        assert(end_aligned - (area + size) == 8 * x);
        vstd::arithmetic::div_mod::lemma_mod_multiples_basic(x, 8);
    }
}

/// The first list from `k` on that holds an area holds one.
proof fn lemma_first_nonempty(lists: Seq<Seq<u64>>, k: int)
    ensures
        first_nonempty(lists, k) >= 0 ==> k <= first_nonempty(lists, k) < lists.len()
            && lists[first_nonempty(lists, k)].len() > 0,
    decreases lists.len() - k,
{
    if 0 <= k < lists.len() && lists[k].len() == 0 {
        lemma_first_nonempty(lists, k + 1);
    }
}

/// A power of two at least as large as another has at least its exponent.
proof fn lemma_two_pow_exponent(o: nat, a: nat)
    requires
        two_pow(o) >= two_pow(a),
    ensures
        o >= a,
{
    if o < a {
        lemma_two_pow_mono((o + 1) as nat, a);
        lemma_two_pow_pos(o);
        assert(two_pow((o + 1) as nat) == 2 * two_pow(o));
    }
}

/// An allocation aligned to a power of two up to a page gets an area that
/// is a multiple of the alignment.
pub proof fn law_allocation_aligned(lists: Seq<Seq<u64>>, size: u64, a: nat, page: Option<u64>)
    requires
        lists_wf(lists),
        a <= MAX_CACHE_ORDER,
        size <= 0x8000_0000_0000_0000,
        page matches Some(p) ==> p % 4096 == 0,
    ensures
        allocation(lists, size, two_pow(a) as u64, page).0 matches Ok(x) ==> x.area as int % two_pow(a) as int
            == 0,
{
    lemma_two_pow_values();
    lemma_two_pow_pos(a);
    let align = two_pow(a) as u64;
    assert(1 <= align <= 4096);
    lemma_order_bounds(size, align);
    let o = cache_order(size, align);
    assert(round8(align) >= align);
    lemma_two_pow_exponent(o as nat, a);
    let k = first_nonempty(lists, o - MIN_CACHE_ORDER);
    lemma_first_nonempty(lists, o - MIN_CACHE_ORDER);
    if k >= 0 {
        let area = lists[k].last();
        assert(area == lists[k][lists[k].len() - 1]);
        assert(area as int % two_pow((k + MIN_CACHE_ORDER) as nat) as int == 0);
        lemma_aligned_down_pow(area as int, (k + MIN_CACHE_ORDER) as nat, a);
    } else if let Some(p) = page {
        lemma_aligned_down_pow(p as int, 12, a);
    }
}

/// Rounds `x` up to a multiple of eight.
fn round_up8(x: u64) -> (r: u64)
    requires
        x <= 0x8000_0000_0000_0000,
    ensures
        r == round8(x),
{
    let y = x + MIN_ALIGN_MASK;
    let r = y & !MIN_ALIGN_MASK;
    assert(y & !7u64 == y - y % 8) by (bit_vector);
    r
}

/// The order of the areas that serve an allocation (see `cache_order`).
fn order_of(size: u64, align: u64) -> (r: usize)
    requires
        1 <= align <= 0x8000_0000_0000_0000,
        size <= 0x8000_0000_0000_0000,
    ensures
        r == cache_order(size, align),
        MIN_CACHE_ORDER <= r <= 64,
{
    let s = round_up8(size);
    let a = round_up8(align);
    let m = if s >= a { s } else { a };
    proof {
        lemma_order_bounds(size, align);
    }
    (64 - (m - 1).leading_zeros()) as usize
}

/// The order of an allocation lies between the smallest area's and 64.
proof fn lemma_order_bounds(size: u64, align: u64)
    requires
        1 <= align <= 0x8000_0000_0000_0000,
        size <= 0x8000_0000_0000_0000,
    ensures
        MIN_CACHE_ORDER <= cache_order(size, align) <= 64,
        two_pow(cache_order(size, align) as nat) >= round8(size),
        two_pow(cache_order(size, align) as nat) >= round8(align),
        round8(size) % 8 == 0,
        round8(size) <= 0x8000_0000_0000_0008,
{
    let m = if round8(size) >= round8(align) { round8(size) } else { round8(align) };
    assert(8 <= m <= 0x8000_0000_0000_0008);
    let x = (m - 1) as u64;
    lemma_bit_len(x);
    reveal_with_fuel(two_pow, 4);
    if bit_len(x) < 3 {
        lemma_two_pow_mono(bit_len(x) as nat, 2);
    }
}

/// `2^o` for an order up to a page.
fn pow_of(o: usize) -> (r: u64)
    requires
        o <= MAX_CACHE_ORDER,
    ensures
        r == two_pow(o as nat),
{
    proof {
        reveal_with_fuel(two_pow, 13);
    }
    match o {
        0 => 1,
        1 => 2,
        2 => 4,
        3 => 8,
        4 => 16,
        5 => 32,
        6 => 64,
        7 => 128,
        8 => 256,
        9 => 512,
        10 => 1024,
        11 => 2048,
        _ => 4096,
    }
}

} // verus!
