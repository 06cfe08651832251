//! Printing of memory nodes.
use vstd::prelude::*;
use crate::kernel::mem::buddy::ZoneDescriptor;
use crate::kernel::mem::{order_pages, order_size, NodeDescriptor, MAX_PAGE_ORDER};

verus! {

/// Memory nodes to be printed.
pub struct NodesDisplay<'a>(pub &'a [NodeDescriptor]);

/// The one-element slice of `node`, made by `core::slice::from_ref`; the
/// contract takes it to hold `node` and nothing else, as that function's
/// documentation says.
#[verifier::external_body]
fn slice_of_one<'a>(node: &'a NodeDescriptor) -> (r: &'a [NodeDescriptor])
    ensures
        r@.len() == 1,
        r@[0] == *node,
{
    core::slice::from_ref(node)
}

impl<'a> NodesDisplay<'a> {
    /// The display of the single node `node`.
    pub fn new(node: &'a NodeDescriptor) -> (r: Self)
        ensures
            r.0@ == seq![*node],
    {
        let s = slice_of_one(node);
        assert(s@ =~= seq![*node]);
        NodesDisplay(s)
    }
}

/// Most areas of one order listed before the listing is cut short.
pub const LISTED_AREAS: usize = 17;

/// A line of the listing of memory nodes: a node, its zone, an order of the
/// zone's free lists, a free area of that order (its index counted from the
/// list's head), or the mark that more areas follow. Addresses are page
/// numbers shifted by the page size.
#[derive(Copy, Clone, Debug, PartialEq, Eq, Structural)]
pub enum NodeLine {
    Node { index: usize, start: u64, end: u64, spanned: u32, present: u32, flags: u32 },
    Zone { start: u64, end: u64, spanned: u32, present: u32, managed: usize, flags: u32 },
    Order { order: usize, size: usize, areas: usize },
    Area { index: usize, start: u64, end: u64, flags: u32, order: usize },
    More,
}

/// The address of page `ppn`.
pub open spec fn page_addr(ppn: int) -> u64 {
    (ppn * 4096) as u64
}

/// The line of the area that is `k`-th from the head of the free list of
/// order `o` of `node`'s zone (the head is the most recently added block).
pub open spec fn area_line(node: NodeDescriptor, o: int, k: int) -> NodeLine {
    let l = node.zone_normal.free_list(o);
    let h = l[l.len() - 1 - k] as int;
    let page = node.zone_normal.page_descs()[h];
    NodeLine::Area {
        index: k as usize,
        start: page_addr(h + node.first_page),
        end: page_addr(h + node.first_page + order_size(o)),
        flags: page.flags,
        order: page.idx,
    }
}

/// The lines of order `o` of `node`'s zone: the order, its block size and
/// number of areas, then its areas from the head, at most `LISTED_AREAS`,
/// and the mark when the list is that long or longer.
pub open spec fn order_lines(node: NodeDescriptor, o: int) -> Seq<NodeLine> {
    let n = node.zone_normal.free_list(o).len();
    let shown = if n < LISTED_AREAS { n as int } else { LISTED_AREAS as int };
    seq![NodeLine::Order { order: o as usize, size: order_size(o) as usize, areas: n as usize }]
        + Seq::new(shown as nat, |k: int| area_line(node, o, k))
        + if n >= LISTED_AREAS { seq![NodeLine::More] } else { Seq::empty() }
}

/// The lines of the orders below `o` of `node`'s zone, in order.
pub open spec fn orders_lines(node: NodeDescriptor, o: int) -> Seq<NodeLine>
    decreases o,
{
    if o <= 0 {
        Seq::empty()
    } else {
        orders_lines(node, o - 1) + order_lines(node, o - 1)
    }
}

/// The lines of node `i`, `node`: the node, its zone, then every order.
pub open spec fn node_lines(i: int, node: NodeDescriptor) -> Seq<NodeLine> {
    let z = node.zone_normal;
    seq![
        NodeLine::Node {
            index: i as usize,
            start: page_addr(node.first_page as int),
            end: page_addr(node.first_page + node.spanned_pages),
            spanned: node.spanned_pages,
            present: node.present_pages,
            flags: node.flags,
        },
        NodeLine::Zone {
            start: page_addr(z.first_ppn()),
            end: page_addr(z.first_ppn() + z.span()),
            spanned: z.header().2,
            present: z.header().3,
            managed: z.managed(),
            flags: z.header().0,
        },
    ] + orders_lines(node, MAX_PAGE_ORDER + 1)
}

/// The lines of the first `n` nodes of `nodes`, node by node.
pub open spec fn nodes_lines(nodes: Seq<NodeDescriptor>, n: int) -> Seq<NodeLine>
    decreases n,
{
    if n <= 0 {
        Seq::empty()
    } else {
        nodes_lines(nodes, n - 1) + node_lines(n - 1, nodes[n - 1])
    }
}

/// The address of page `ppn`, for a page number below 2^52.
fn addr_of(ppn: u64) -> (r: u64)
    requires
        ppn < 0x10_0000_0000_0000,
    ensures
        r == page_addr(ppn as int),
{
    ppn * 4096
}

impl<'a> NodesDisplay<'a> {
    /// The listing of the nodes (see `nodes_lines`), one line at a time.
    pub fn lines(&self) -> (r: Vec<NodeLine>)
        requires
            forall|i: int| 0 <= i < self.0@.len() ==> (#[trigger] self.0@[i]).zone_normal.wf(),
        ensures
            r@ == nodes_lines(self.0@, self.0@.len() as int),
    {
        let mut out: Vec<NodeLine> = Vec::new();
        let mut i: usize = 0;
        while i < self.0.len()
            invariant
                i <= self.0@.len(),
                forall|j: int| 0 <= j < self.0@.len() ==> (#[trigger] self.0@[j]).zone_normal.wf(),
                out@ == nodes_lines(self.0@, i as int),
            decreases self.0@.len() - i,
        {
            let node = &self.0[i];
            push_node_lines(&mut out, i, node);
            i = i + 1;
        }
        out
    }
}

/// Appends the lines of node `i`, `node`.
fn push_node_lines(out: &mut Vec<NodeLine>, i: usize, node: &NodeDescriptor)
    requires
        node.zone_normal.wf(),
    ensures
        final(out)@ == old(out)@ + node_lines(i as int, *node),
{
    let z = &node.zone_normal;
    let (zflags, zfirst, zspanned, zpresent, _, _, managed) = z.fields();
    out.push(NodeLine::Node {
        index: i,
        start: addr_of(node.first_page as u64),
        end: addr_of(node.first_page as u64 + node.spanned_pages as u64),
        spanned: node.spanned_pages,
        present: node.present_pages,
        flags: node.flags,
    });
    out.push(NodeLine::Zone {
        start: addr_of(zfirst as u64),
        end: addr_of(zfirst as u64 + zspanned as u64),
        spanned: zspanned,
        present: zpresent,
        managed,
        flags: zflags,
    });
    let ghost start = old(out)@ + seq![
        NodeLine::Node {
            index: i,
            start: page_addr(node.first_page as int),
            end: page_addr(node.first_page + node.spanned_pages),
            spanned: node.spanned_pages,
            present: node.present_pages,
            flags: node.flags,
        },
        NodeLine::Zone {
            start: page_addr(z.first_ppn()),
            end: page_addr(z.first_ppn() + z.span()),
            spanned: z.header().2,
            present: z.header().3,
            managed: z.managed(),
            flags: z.header().0,
        },
    ];
    assert(out@ =~= start);
    let mut o: usize = 0;
    while o <= MAX_PAGE_ORDER
        invariant
            o <= MAX_PAGE_ORDER + 1,
            node.zone_normal.wf(),
            out@ == start + orders_lines(*node, o as int),
        decreases MAX_PAGE_ORDER + 1 - o,
    {
        push_order_lines(out, node, o);
        proof {
            assert(out@ =~= start + orders_lines(*node, o + 1));
        }
        o = o + 1;
    }
    assert(old(out)@ + node_lines(i as int, *node) =~= start + orders_lines(*node, MAX_PAGE_ORDER + 1));
}

/// Appends the lines of order `o` of `node`'s zone.
fn push_order_lines(out: &mut Vec<NodeLine>, node: &NodeDescriptor, o: usize)
    requires
        node.zone_normal.wf(),
        o <= MAX_PAGE_ORDER,
    ensures
        final(out)@ == old(out)@ + order_lines(*node, o as int),
{
    let z: &ZoneDescriptor = &node.zone_normal;
    let list = z.free_area(o);
    let n = list.len();
    let size = order_pages(o);
    out.push(NodeLine::Order { order: o, size, areas: n });
    let ghost base = out@;
    let mut k: usize = 0;
    while k < n && k < LISTED_AREAS
        invariant
            k <= n,
            k <= LISTED_AREAS,
            n == list@.len(),
            *z == node.zone_normal,
            o <= MAX_PAGE_ORDER,
            list@ == z.free_list(o as int),
            z.len() <= u32::MAX,
            forall|j: int| 0 <= j < list@.len() ==> #[trigger] list@[j] + order_size(o as int) <= z.len(),
            size == order_size(o as int),
            out@ == base + Seq::new(k as nat, |j: int| area_line(*node, o as int, j)),
        decreases n - k,
    {
        let h = list[n - 1 - k];
        let page = z.page(h);
        let ppn = h as u64 + node.first_page as u64;
        out.push(NodeLine::Area {
            index: k,
            start: addr_of(ppn),
            end: addr_of(ppn + size as u64),
            flags: page.flags,
            order: page.idx,
        });
        proof {
            assert(out@.last() == area_line(*node, o as int, k as int));
            assert(out@ =~= base + Seq::new((k + 1) as nat, |j: int| area_line(*node, o as int, j)));
        }
        k = k + 1;
    }
    if n >= LISTED_AREAS {
        out.push(NodeLine::More);
    }
    assert(out@ =~= old(out)@ + order_lines(*node, o as int));
}

} // verus!
