use vstd::prelude::*;
use vstd::string::StringSliceAdditionalSpecFns;
use super::utils::{le64, read_le64};

verus! {

/// The flattened device tree magic number, in host order.
pub const MAGIC: u32 = 0xd00dfeed;

/// Token that opens a node in the structure block.
pub const FDT_BEGIN_NODE: u32 = 1;

/// Token that closes a node in the structure block.
pub const FDT_END_NODE: u32 = 2;

/// Token that introduces a property in the structure block.
pub const FDT_PROP: u32 = 3;

/// Token that is skipped in the structure block.
pub const FDT_NOP: u32 = 4;

/// The big-endian 32-bit word at `off`.
pub open spec fn be32(s: Seq<u8>, off: int) -> u32 {
    (s[off] as int * 0x1000000 + s[off + 1] as int * 0x10000 + s[off + 2] as int * 0x100
        + s[off + 3] as int) as u32
}

/// Index of the first zero byte at or after `i`, or -1 when there is none.
pub open spec fn nul_index(s: Seq<u8>, i: int) -> int
    decreases s.len() - i,
{
    if i < 0 || i >= s.len() {
        -1
    } else if s[i] == 0 {
        i
    } else {
        nul_index(s, i + 1)
    }
}

/// Rounds `x` up to a multiple of four.
pub open spec fn align4(x: int) -> int {
    (x + 3) / 4 * 4
}

/// The bytes of a node name before its unit address (the first `@`).
pub open spec fn unit_name(name: Seq<u8>) -> Seq<u8>
    decreases name.len(),
{
    if name.len() == 0 {
        name
    } else {
        let u = unit_name(name.drop_last());
        if u == name.drop_last() {
            if name.last() == 0x40 {
                name.drop_last()
            } else {
                name
            }
        } else {
            u
        }
    }
}

/// What the structure block holds at a position, after skipping `FDT_NOP`s.
pub enum Scan {
    /// A node opens; its name is `[name_start, name_end)` and the next token is at `next`.
    Begin { name_start: usize, name_end: usize, next: usize },
    /// A property; name and value ranges, and the position of the next token.
    Prop { name_start: usize, name_end: usize, value_start: usize, value_end: usize, next: usize },
    /// The innermost open node closes.
    End { next: usize },
    /// The iteration stops; the read position becomes `next`.
    Stop { next: usize },
}

/// Decodes the token at `ptr` of a structure block whose strings start at `strs`,
/// with `depth` nodes open.
pub open spec fn scan(data: Seq<u8>, ptr: int, strs: int, depth: int) -> Scan
    decreases data.len() - ptr,
{
    if ptr < 0 || ptr + 4 > data.len() {
        Scan::Stop { next: ptr as usize }
    } else {
        let id = be32(data, ptr);
        let p = ptr + 4;
        if id == FDT_BEGIN_NODE {
            let e = nul_index(data, p);
            if e < 0 {
                Scan::Stop { next: p as usize }
            } else {
                Scan::Begin { name_start: p as usize, name_end: e as usize, next: align4(e + 1) as usize }
            }
        } else if id == FDT_PROP {
            if p + 8 > data.len() {
                Scan::Stop { next: p as usize }
            } else {
                let len = be32(data, p) as int;
                let ns = strs + be32(data, p + 4) as int;
                let ne = nul_index(data, ns);
                if ne < 0 || p + 8 + len > data.len() {
                    Scan::Stop { next: p as usize }
                } else {
                    Scan::Prop {
                        name_start: ns as usize,
                        name_end: ne as usize,
                        value_start: (p + 8) as usize,
                        value_end: (p + 8 + len) as usize,
                        next: align4(p + 8 + len) as usize,
                    }
                }
            }
        } else if id == FDT_END_NODE {
            if depth == 0 {
                Scan::Stop { next: p as usize }
            } else {
                Scan::End { next: p as usize }
            }
        } else if id == FDT_NOP {
            scan(data, p, strs, depth)
        } else {
            Scan::Stop { next: p as usize }
        }
    }
}

fn read_be32(data: &[u8], off: usize) -> (r: u32)
    requires
        off + 4 <= data@.len(),
    ensures
        r == be32(data@, off as int),
{
    (data[off] as u32) * 0x1000000 + (data[off + 1] as u32) * 0x10000 + (data[off + 2] as u32)
        * 0x100 + (data[off + 3] as u32)
}

fn find_nul(data: &[u8], start: usize) -> (r: Option<usize>)
    ensures
        match r {
            Some(e) => e as int == nul_index(data@, start as int),
            None => nul_index(data@, start as int) == -1,
        },
{
    let mut i = start;
    while i < data.len()
        invariant
            start <= i,
            nul_index(data@, start as int) == nul_index(data@, i as int),
        decreases data.len() - i,
    {
        if data[i] == 0 {
            return Some(i);
        }
        i += 1;
    }
    None
}

/// Header of a flattened device tree blob, with the blob it describes.
///
/// The fields hold the header words in host order.
#[derive(Copy, Clone)]
pub struct FdtHeader<'a> {
    data: &'a [u8],
    magic: u32,
    total_size: u32,
    off_dt_struct: u32,
    off_dt_strings: u32,
    off_mem_rsvmap: u32,
    pub version: u32,
    pub last_comp_version: u32,
    pub boot_cpuid_phys: u32,
    size_dt_strings: u32,
    size_dt_structs: u32,
}

/// A memory reservation: a physical address range the kernel must not use.
#[derive(Copy, Clone, Debug, Default, Eq, PartialEq)]
pub struct FdtReserveEntry {
    pub address: u64,
    pub size: u64,
}

impl FdtReserveEntry {
    /// Whether this is the all-zero entry that ends the reservation block.
    pub fn term(&self) -> (r: bool)
        ensures
            r == (self.address == 0 && self.size == 0),
    {
        self.address == 0 && self.size == 0
    }
}

/// Iterator over the memory reservation block.
#[derive(Copy, Clone)]
pub struct FdtReserveEntryIter<'a> {
    data: &'a [u8],
    ptr: usize,
}

impl<'a> FdtReserveEntryIter<'a> {
    pub closed spec fn bytes(self) -> Seq<u8> {
        self.data@
    }

    pub closed spec fn pos(self) -> usize {
        self.ptr
    }

    /// The next reservation; the block ends at the all-zero entry (or at the
    /// end of the blob).
    pub fn next(&mut self) -> (r: Option<FdtReserveEntry>)
        ensures
            final(self).bytes() == old(self).bytes(),
            old(self).pos() + 16 <= old(self).bytes().len() ==> ({
                let e = FdtReserveEntry {
                    address: le64(old(self).bytes(), old(self).pos() as int),
                    size: le64(old(self).bytes(), old(self).pos() + 8),
                };
                if e.address == 0 && e.size == 0 {
                    r is None && final(self).pos() == old(self).pos()
                } else {
                    r == Some(e) && final(self).pos() == old(self).pos() + 16
                }
            }),
            old(self).pos() + 16 > old(self).bytes().len() ==> r is None && final(self).pos()
                == old(self).pos(),
    {
        if self.ptr > self.data.len() || self.data.len() - self.ptr < 16 {
            return None;
        }
        let e = FdtReserveEntry {
            address: read_le64(self.data, self.ptr),
            size: read_le64(self.data, self.ptr + 8),
        };
        if e.term() {
            None
        } else {
            self.ptr = self.ptr + 16;
            Some(e)
        }
    }
}

/// The raw value of a property.
#[derive(Copy, Clone)]
pub struct FdtValue<'a>(pub &'a [u8]);

/// `core::str::from_utf8`, its error dropped: the text that `bytes` encode
/// when they are valid UTF-8 (`valid_utf8`), with exactly those bytes, as
/// its documentation says; `None` otherwise.
#[verifier::external_body]
fn str_from_utf8<'a>(bytes: &'a [u8]) -> (r: Option<&'a str>)
    ensures
        r is Some <==> vstd::utf8::valid_utf8(bytes@),
        r matches Some(s) ==> s.spec_bytes() == bytes@,
{
    core::str::from_utf8(bytes).ok()
}

/// How a property value is shown: as text, as nothing, as a number, or as
/// its bytes in hexadecimal.
#[derive(Copy, Clone, Debug, PartialEq, Eq, Structural)]
pub enum FdtShown {
    Text,
    Nothing,
    Number(u64),
    Hex,
}

/// How the value `b` is shown, `text` telling whether `b` without its last
/// byte is valid UTF-8: as that text when it has no zero byte; otherwise by
/// its length: nothing for none, a number for 1, 2, 3 (the bytes read as the
/// high bytes of a big-endian 32-bit word), 4 or 8 bytes (big-endian), and
/// the bytes in hexadecimal for any other length.
pub open spec fn fdt_shown(b: Seq<u8>, text: bool) -> FdtShown {
    if text && b.len() > 0 && !b.drop_last().contains(0u8) {
        FdtShown::Text
    } else if b.len() == 0 {
        FdtShown::Nothing
    } else if b.len() == 1 {
        FdtShown::Number(b[0] as u64)
    } else if b.len() == 2 {
        FdtShown::Number((b[0] as int * 0x100 + b[1] as int) as u64)
    } else if b.len() == 3 {
        FdtShown::Number((b[0] as int * 0x1000000 + b[1] as int * 0x10000 + b[2] as int * 0x100) as u64)
    } else if b.len() == 4 {
        FdtShown::Number(be32(b, 0) as u64)
    } else if b.len() == 8 {
        FdtShown::Number((be32(b, 0) as int * 0x100000000 + be32(b, 4) as int) as u64)
    } else {
        FdtShown::Hex
    }
}

impl<'a> FdtValue<'a> {
    /// The value as text: its bytes before the last, if they are valid
    /// UTF-8; `None` for an empty value.
    pub fn as_str(&self) -> (r: Option<&'a str>)
        ensures
            r is Some <==> (self.0@.len() > 0 && vstd::utf8::valid_utf8(self.0@.drop_last())),
            r matches Some(t) ==> t.spec_bytes() == self.0@.drop_last(),
    {
        if self.0.len() == 0 {
            return None;
        }
        let b = vstd::slice::slice_subrange(self.0, 0, self.0.len() - 1);
        assert(b@ =~= self.0@.drop_last());
        str_from_utf8(b)
    }

    /// How the value is shown (see `fdt_shown`), `text` telling whether
    /// `as_str` gives text.
    pub fn show_as(&self, text: bool) -> (r: FdtShown)
        ensures
            r == fdt_shown(self.0@, text),
    {
        let n = self.0.len();
        if text && n > 0 {
            let mut i: usize = 0;
            let mut zero = false;
            while i < n - 1
                invariant
                    n == self.0@.len() > 0,
                    i <= n - 1,
                    zero <==> exists|k: int| 0 <= k < i && #[trigger] self.0@[k] == 0u8,
                decreases n - 1 - i,
            {
                if self.0[i] == 0 {
                    zero = true;
                }
                i = i + 1;
            }
            proof {
                let t = self.0@.drop_last();
                if zero {
                    let k = choose|k: int| 0 <= k < i && #[trigger] self.0@[k] == 0u8;
                    assert(t[k] == 0u8);
                } else if t.contains(0u8) {
                    let k = choose|k: int| 0 <= k < t.len() && t[k] == 0u8;
                    assert(self.0@[k] == 0u8);
                }
            }
            if !zero {
                return FdtShown::Text;
            }
        }
        if n == 0 {
            FdtShown::Nothing
        } else if n == 1 {
            FdtShown::Number(self.0[0] as u64)
        } else if n == 2 {
            FdtShown::Number(self.0[0] as u64 * 0x100 + self.0[1] as u64)
        } else if n == 3 {
            FdtShown::Number(self.0[0] as u64 * 0x1000000 + self.0[1] as u64 * 0x10000 + self.0[2] as u64 * 0x100)
        } else if n == 4 {
            FdtShown::Number(read_be32(self.0, 0) as u64)
        } else if n == 8 {
            let hi = read_be32(self.0, 0) as u64;
            let lo = read_be32(self.0, 4) as u64;
            FdtShown::Number(hi * 0x100000000 + lo)
        } else {
            FdtShown::Hex
        }
    }

    /// How the value is shown (see `fdt_shown`).
    pub fn shown(&self) -> (r: FdtShown)
        ensures
            r == fdt_shown(self.0@, self.0@.len() > 0 && vstd::utf8::valid_utf8(self.0@.drop_last())),
    {
        let text = self.as_str().is_some();
        self.show_as(text)
    }
    /// The value as a single byte, if it is exactly one byte long.
    pub fn as_u8(&self) -> (r: Option<u8>)
        ensures
            r == if self.0@.len() == 1 {
                Some(self.0@[0])
            } else {
                None
            },
    {
        if self.0.len() == 1 {
            Some(self.0[0])
        } else {
            None
        }
    }

    /// The value as a big-endian 16-bit word, if it is exactly two bytes long.
    pub fn as_u16(&self) -> (r: Option<u16>)
        ensures
            r == if self.0@.len() == 2 {
                Some((self.0@[0] as int * 0x100 + self.0@[1] as int) as u16)
            } else {
                None
            },
    {
        if self.0.len() == 2 {
            Some((self.0[0] as u16) * 0x100 + (self.0[1] as u16))
        } else {
            None
        }
    }

    /// The value as a big-endian 32-bit word, if it is exactly four bytes long.
    pub fn as_u32(&self) -> (r: Option<u32>)
        ensures
            r == if self.0@.len() == 4 {
                Some(be32(self.0@, 0))
            } else {
                None
            },
    {
        if self.0.len() == 4 {
            Some(read_be32(self.0, 0))
        } else {
            None
        }
    }

    /// The value as a big-endian 64-bit word, if it is exactly eight bytes long.
    pub fn as_u64(&self) -> (r: Option<u64>)
        ensures
            r == if self.0@.len() == 8 {
                Some((be32(self.0@, 0) as int * 0x100000000 + be32(self.0@, 4) as int) as u64)
            } else {
                None
            },
    {
        if self.0.len() == 8 {
            let hi = read_be32(self.0, 0) as u64;
            let lo = read_be32(self.0, 4) as u64;
            Some(hi * 0x100000000 + lo)
        } else {
            None
        }
    }

    /// The value cut into elements of `elem_size` bytes, if it is not empty
    /// and its length is a multiple of the element size.
    pub fn as_slice(&self, elem_size: usize) -> (r: Option<Vec<&'a [u8]>>)
        requires
            elem_size > 0,
        ensures
            match r {
                Some(v) => {
                    &&& self.0@.len() > 0 && self.0@.len() % (elem_size as nat) == 0
                    &&& v@.len() * elem_size == self.0@.len()
                    &&& forall|i: int| #![trigger v@[i]]
                        0 <= i < v@.len() ==> v@[i]@ == self.0@.subrange(
                            i * elem_size,
                            (i + 1) * elem_size,
                        )
                },
                None => !(self.0@.len() > 0 && self.0@.len() % (elem_size as nat) == 0),
            },
    {
        let len = self.0.len();
        if len == 0 || len % elem_size != 0 {
            return None;
        }
        let mut v: Vec<&'a [u8]> = Vec::new();
        let mut off: usize = 0;
        assert(v@.len() * elem_size == 0) by (nonlinear_arith)
            requires v@.len() == 0;
        while off < len
            invariant
                len == self.0@.len(),
                len % elem_size == 0,
                elem_size > 0,
                off <= len,
                off == v@.len() * elem_size,
                forall|i: int| #![trigger v@[i]]
                    0 <= i < v@.len() ==> v@[i]@ == self.0@.subrange(
                        i * elem_size,
                        (i + 1) * elem_size,
                    ),
            decreases len - off,
        {
            proof {
                assert((v@.len() + 1) * elem_size == v@.len() * elem_size + elem_size)
                    by (nonlinear_arith);
                vstd::arithmetic::div_mod::lemma_mod_sub_multiples_vanish(
                    len as int,
                    elem_size as int,
                );
                assert(off + elem_size <= len) by (nonlinear_arith)
                    requires
                        off < len,
                        off == v@.len() * elem_size,
                        len % elem_size == 0,
                        elem_size > 0,
                {
                    vstd::arithmetic::div_mod::lemma_fundamental_div_mod(len as int, elem_size as int);
                    let q = (len / elem_size) as int;
                    assert(len == q * elem_size);
                    assert(v@.len() < q) by (nonlinear_arith)
                        requires off == v@.len() * elem_size, off < len, len == q * elem_size,
                            elem_size > 0;
                    assert(v@.len() + 1 <= q);
                    assert((v@.len() + 1) * elem_size <= q * elem_size) by (nonlinear_arith)
                        requires v@.len() + 1 <= q, elem_size > 0;
                    assert((v@.len() + 1) * elem_size == v@.len() * elem_size + elem_size)
                        by (nonlinear_arith);
                }
            }
            v.push(&self.0[off..off + elem_size]);
            off = off + elem_size;
        }
        Some(v)
    }
}

/// A token of the structure block.
pub enum FdtStructureToken<'a> {
    /// A node opens; `tokens` iterates over its contents.
    BeginNone { name: &'a [u8], tokens: FdtStructureIter<'a> },
    /// The innermost open node closes.
    EndNode,
    /// A property and its value.
    Prop { name: &'a [u8], value: FdtValue<'a> },
}

/// Iterator over the tokens of the structure block.
#[derive(Copy, Clone)]
pub struct FdtStructureIter<'a> {
    data: &'a [u8],
    ptr: usize,
    str: usize,
    depth: usize,
}

impl<'a> FdtStructureIter<'a> {
    pub closed spec fn bytes(self) -> Seq<u8> {
        self.data@
    }

    /// Position of the next token.
    pub closed spec fn pos(self) -> usize {
        self.ptr
    }

    /// Start of the strings block.
    pub closed spec fn strings(self) -> usize {
        self.str
    }

    /// Number of nodes opened and not yet closed by this iterator.
    pub closed spec fn depth(self) -> usize {
        self.depth
    }

    /// The iterator's state is within what its arithmetic can hold.
    pub closed spec fn wf(self) -> bool {
        &&& self.data@.len() + 16 <= usize::MAX
        &&& self.depth * 4 <= self.ptr
    }

    /// The next token: `FDT_NOP`s are skipped, `FDT_END_NODE` closes the
    /// innermost node this iterator opened, and the iteration ends at an
    /// unknown token, at an unmatched `FDT_END_NODE` or at the end of the blob.
    pub fn next(&mut self) -> (r: Option<FdtStructureToken<'a>>)
        requires
            old(self).wf(),
        ensures
            final(self).wf(),
            final(self).bytes() == old(self).bytes(),
            final(self).strings() == old(self).strings(),
            match scan(
                old(self).bytes(),
                old(self).pos() as int,
                old(self).strings() as int,
                old(self).depth() as int,
            ) {
                Scan::Begin { name_start, name_end, next } => {
                    &&& r matches Some(FdtStructureToken::BeginNone { name, tokens })
                    &&& name@ == old(self).bytes().subrange(name_start as int, name_end as int)
                    &&& tokens.bytes() == old(self).bytes() && tokens.pos() == next
                    &&& tokens.strings() == old(self).strings() && tokens.depth() == 0
                    &&& tokens.wf()
                    &&& final(self).pos() == next
                    &&& final(self).depth() == old(self).depth() + 1
                },
                Scan::Prop { name_start, name_end, value_start, value_end, next } => {
                    &&& r matches Some(FdtStructureToken::Prop { name, value })
                    &&& name@ == old(self).bytes().subrange(name_start as int, name_end as int)
                    &&& value.0@ == old(self).bytes().subrange(value_start as int, value_end as int)
                    &&& final(self).pos() == next
                    &&& final(self).depth() == old(self).depth()
                },
                Scan::End { next } => {
                    &&& r matches Some(FdtStructureToken::EndNode)
                    &&& final(self).pos() == next
                    &&& final(self).depth() == old(self).depth() - 1
                },
                Scan::Stop { next } => {
                    &&& r is None
                    &&& final(self).pos() == next
                    &&& final(self).depth() == old(self).depth()
                },
            },
        decreases old(self).bytes().len() - old(self).pos(),
    {
        if self.ptr > self.data.len() || self.data.len() - self.ptr < 4 {
            return None;
        }
        let id = read_be32(self.data, self.ptr);
        let p = self.ptr + 4;
        self.ptr = p;
        proof {
            lemma_nul_index(self.data@, p as int);
        }
        if id == FDT_BEGIN_NODE {
            match find_nul(self.data, p) {
                None => None,
                Some(e) => {
                    let next = (e + 4) / 4 * 4;
                    self.ptr = next;
                    self.depth = self.depth + 1;
                    let tokens = FdtStructureIter {
                        data: self.data,
                        ptr: next,
                        str: self.str,
                        depth: 0,
                    };
                    Some(FdtStructureToken::BeginNone { name: &self.data[p..e], tokens })
                },
            }
        } else if id == FDT_PROP {
            if self.data.len() - p < 8 {
                return None;
            }
            let len = read_be32(self.data, p) as usize;
            let ns = match self.str.checked_add(read_be32(self.data, p + 4) as usize) {
                Some(ns) => ns,
                None => {
                    proof {
                        let ns = self.str + be32(self.data@, p + 4);
                        assert(nul_index(self.data@, ns) == -1);
                    }
                    return None;
                },
            };
            proof {
                lemma_nul_index(self.data@, ns as int);
            }
            match find_nul(self.data, ns) {
                None => None,
                Some(ne) => {
                    if self.data.len() - (p + 8) < len {
                        return None;
                    }
                    let vs = p + 8;
                    let ve = vs + len;
                    self.ptr = (ve + 3) / 4 * 4;
                    Some(
                        FdtStructureToken::Prop {
                            name: &self.data[ns..ne],
                            value: FdtValue(&self.data[vs..ve]),
                        },
                    )
                },
            }
        } else if id == FDT_END_NODE {
            if self.depth == 0 {
                None
            } else {
                self.depth = self.depth - 1;
                Some(FdtStructureToken::EndNode)
            }
        } else if id == FDT_NOP {
            self.next()
        } else {
            None
        }
    }
}

/// A token of the structure block seen as a tree.
pub enum FdtStructureTreeToken<'a> {
    /// A node opens; its children follow from the same iterator, up to the
    /// `None` that closes the node.
    Node { name: &'a [u8] },
    /// A property and its value.
    Prop { name: &'a [u8], value: FdtValue<'a> },
}

/// Iterator over one level of the structure block.
#[derive(Copy, Clone)]
pub struct FdtStructureTreeIter<'a>(pub FdtStructureIter<'a>);

impl<'a> FdtStructureTreeIter<'a> {
    /// The next node or property; a closing node ends the level (`None`).
    pub fn next(&mut self) -> (r: Option<FdtStructureTreeToken<'a>>)
        requires
            old(self).0.wf(),
        ensures
            final(self).0.wf(),
            final(self).0.bytes() == old(self).0.bytes(),
            final(self).0.strings() == old(self).0.strings(),
            match scan(
                old(self).0.bytes(),
                old(self).0.pos() as int,
                old(self).0.strings() as int,
                old(self).0.depth() as int,
            ) {
                Scan::Begin { name_start, name_end, next } => r matches Some(
                    FdtStructureTreeToken::Node { name },
                ) && name@ == old(self).0.bytes().subrange(name_start as int, name_end as int)
                    && final(self).0.pos() == next && final(self).0.depth() == old(self).0.depth() + 1,
                Scan::Prop { name_start, name_end, value_start, value_end, next } => r matches Some(
                    FdtStructureTreeToken::Prop { name, value },
                ) && name@ == old(self).0.bytes().subrange(name_start as int, name_end as int)
                    && value.0@ == old(self).0.bytes().subrange(
                    value_start as int,
                    value_end as int,
                ) && final(self).0.pos() == next && final(self).0.depth() == old(self).0.depth(),
                Scan::End { next } => r is None && final(self).0.pos() == next && final(self).0.depth()
                    == old(self).0.depth() - 1,
                Scan::Stop { next } => r is None && final(self).0.pos() == next && final(self).0.depth()
                    == old(self).0.depth(),
            },
    {
        match self.0.next() {
            Some(FdtStructureToken::BeginNone { name, .. }) => Some(
                FdtStructureTreeToken::Node { name },
            ),
            Some(FdtStructureToken::Prop { name, value }) => Some(
                FdtStructureTreeToken::Prop { name, value },
            ),
            _ => None,
        }
    }
}

/// Iterator over the nodes and properties found at a path.
pub struct FdtPathIter<'a> {
    iter: FdtStructureIter<'a>,
    path: &'a [&'a str],
    i: usize,
    depth: usize,
}

fn bytes_eq(a: &[u8], b: &[u8]) -> (r: bool)
    ensures
        r == (a@ == b@),
{
    if a.len() != b.len() {
        return false;
    }
    let mut i: usize = 0;
    while i < a.len()
        invariant
            a@.len() == b@.len(),
            i <= a@.len(),
            forall|j: int| 0 <= j < i ==> a@[j] == b@[j],
        decreases a.len() - i,
    {
        if a[i] != b[i] {
            return false;
        }
        i += 1;
    }
    assert(a@ =~= b@);
    true
}

fn unit_name_exec(name: &[u8]) -> (r: &[u8])
    ensures
        r@ == unit_name(name@),
{
    let mut i: usize = 0;
    assert(name@.subrange(0, 0) =~= Seq::<u8>::empty());
    while i < name.len()
        invariant
            i <= name@.len(),
            unit_name(name@.subrange(0, i as int)) == name@.subrange(0, i as int),
        decreases name.len() - i,
    {
        let ghost pre = name@.subrange(0, i as int);
        let ghost next = name@.subrange(0, i + 1);
        assert(next.drop_last() =~= pre);
        if name[i] == 0x40 {
            proof {
                lemma_unit_name_prefix(name@, i as int, name@.len() as int);
                assert(name@.subrange(0, name@.len() as int) =~= name@);
            }
            return &name[0..i];
        }
        i += 1;
    }
    assert(name@.subrange(0, i as int) =~= name@);
    name
}

/// Once the first `@` of a name is found at `i`, no later byte changes its
/// unit name.
proof fn lemma_unit_name_prefix(name: Seq<u8>, i: int, k: int)
    requires
        0 <= i < k <= name.len(),
        name[i] == 0x40,
        unit_name(name.subrange(0, i)) == name.subrange(0, i),
    ensures
        unit_name(name.subrange(0, k)) == name.subrange(0, i),
    decreases k,
{
    let s = name.subrange(0, k);
    assert(s.drop_last() =~= name.subrange(0, k - 1));
    if k == i + 1 {
        assert(s.last() == 0x40);
        assert(name.subrange(0, k - 1) =~= name.subrange(0, i));
    } else {
        lemma_unit_name_prefix(name, i, k - 1);
        assert(unit_name(s.drop_last()) == name.subrange(0, i));
        assert(name.subrange(0, i).len() < s.drop_last().len());
    }
}

/// The search along `path` through the structure block `data` (strings at
/// `strs`) from the token at `pos`, with `open` nodes open in the walk,
/// component `i` sought and `depth` nodes opened below the last match: what
/// is found (`Scan::Begin` or `Scan::Prop`, or `Scan::Stop` for nothing) and
/// the walk's position, open nodes, component and depth after it. Inside a
/// node that does not match, nodes are counted in and out; at the level
/// searched, a node whose name before its unit address is the component
/// leads one component further down the path, or is found when the
/// component is the last; a property of that name is found when the
/// component is the last and ends the search with nothing otherwise; the
/// end of a node goes back one component.
pub open spec fn path_search<'a>(
    data: Seq<u8>,
    strs: int,
    path: Seq<&'a str>,
    pos: int,
    open: int,
    i: int,
    depth: int,
) -> (Scan, (int, int, int, int))
    decreases data.len() + 8 - pos,
{
    match scan(data, pos, strs, open) {
        Scan::Stop { next } => (Scan::Stop { next }, (next as int, open, i, depth)),
        Scan::Begin { name_start, name_end, next } => if next <= pos || next > data.len() + 3 {
            (Scan::Stop { next }, (next as int, open, i, depth))
        } else if depth > 0 {
            path_search(data, strs, path, next as int, open + 1, i, depth + 1)
        } else if unit_name(data.subrange(name_start as int, name_end as int)) == path[i].spec_bytes() {
            if i < path.len() - 1 {
                path_search(data, strs, path, next as int, open + 1, i + 1, 0)
            } else {
                (Scan::Begin { name_start, name_end, next }, (next as int, open + 1, i, depth + 1))
            }
        } else {
            path_search(data, strs, path, next as int, open + 1, i, depth + 1)
        },
        Scan::Prop { name_start, name_end, value_start, value_end, next } => if next <= pos || next > data.len() + 3 {
            (Scan::Stop { next }, (next as int, open, i, depth))
        } else if depth > 0 {
            path_search(data, strs, path, next as int, open, i, depth)
        } else if data.subrange(name_start as int, name_end as int) == path[i].spec_bytes() {
            if i == path.len() - 1 {
                (
                    Scan::Prop { name_start, name_end, value_start, value_end, next },
                    (next as int, open, i, depth),
                )
            } else {
                (Scan::Stop { next }, (next as int, open, i, depth))
            }
        } else {
            path_search(data, strs, path, next as int, open, i, depth)
        },
        Scan::End { next } => if next <= pos || next > data.len() + 3 {
            (Scan::Stop { next }, (next as int, open, i, depth))
        } else if depth > 0 {
            path_search(data, strs, path, next as int, open - 1, i, depth - 1)
        } else {
            path_search(data, strs, path, next as int, open - 1, i - 1, depth)
        },
    }
}

impl<'a> FdtPathIter<'a> {
    pub closed spec fn wf(self) -> bool {
        &&& self.iter.wf()
        &&& self.path@.len() > 0
        &&& self.i < self.path@.len()
        &&& self.iter.depth == self.i + self.depth
    }

    /// The components of the path searched for.
    pub closed spec fn path(self) -> Seq<&'a str> {
        self.path@
    }

    /// The structure block's bytes.
    pub closed spec fn bytes(self) -> Seq<u8> {
        self.iter.data@
    }

    /// Start of the strings block.
    pub closed spec fn strings(self) -> int {
        self.iter.str as int
    }

    /// The walk's position, its open nodes, the component sought and the
    /// nodes opened below the last match.
    pub closed spec fn state(self) -> (int, int, int, int) {
        (self.iter.ptr as int, self.iter.depth as int, self.i as int, self.depth as int)
    }

    /// The next node whose name (before its unit address) is the last path
    /// component, or property of that name, reached through nodes named by the
    /// earlier components (see `path_search`).
    pub fn next(&mut self) -> (r: Option<FdtStructureToken<'a>>)
        requires
            old(self).wf(),
        ensures
            final(self).wf(),
            final(self).path() == old(self).path(),
            final(self).bytes() == old(self).bytes(),
            final(self).strings() == old(self).strings(),
            ({
                let (found, st) = path_search(
                    old(self).bytes(),
                    old(self).strings(),
                    old(self).path(),
                    old(self).state().0,
                    old(self).state().1,
                    old(self).state().2,
                    old(self).state().3,
                );
                &&& final(self).state() == st
                &&& match found {
                    Scan::Begin { name_start, name_end, next } => {
                        &&& r matches Some(FdtStructureToken::BeginNone { name, tokens })
                        &&& name@ == old(self).bytes().subrange(name_start as int, name_end as int)
                        &&& tokens.bytes() == old(self).bytes() && tokens.pos() == next
                        &&& tokens.strings() == old(self).strings() && tokens.depth() == 0
                        &&& tokens.wf()
                    },
                    Scan::Prop { name_start, name_end, value_start, value_end, .. } => {
                        &&& r matches Some(FdtStructureToken::Prop { name, value })
                        &&& name@ == old(self).bytes().subrange(name_start as int, name_end as int)
                        &&& value.0@ == old(self).bytes().subrange(value_start as int, value_end as int)
                    },
                    _ => r is None,
                }
            }),
    {
        let ghost total = path_search(
            self.bytes(),
            self.strings(),
            self.path(),
            self.state().0,
            self.state().1,
            self.state().2,
            self.state().3,
        );
        loop
            invariant
                self.wf(),
                self.path() == old(self).path(),
                self.bytes() == old(self).bytes(),
                self.strings() == old(self).strings(),
                total == path_search(
                    old(self).bytes(),
                    old(self).strings(),
                    old(self).path(),
                    old(self).state().0,
                    old(self).state().1,
                    old(self).state().2,
                    old(self).state().3,
                ),
                path_search(
                    self.bytes(),
                    self.strings(),
                    self.path(),
                    self.state().0,
                    self.state().1,
                    self.state().2,
                    self.state().3,
                ) == total,
            decreases usize::MAX - self.iter.ptr,
        {
            let ghost before = *self;
            let ghost sc = scan(before.iter.data@, before.iter.ptr as int, before.iter.str as int, before.iter.depth as int);
            let v = match self.iter.next() {
                Some(v) => v,
                None => {
                    assert(sc is Stop);
                    return None;
                },
            };
            proof {
                lemma_scan_advances(before.iter.data@, before.iter.ptr as int, before.iter.str as int, before.iter.depth as int);
                assert(self.iter.ptr > before.iter.ptr);
            }
            if self.depth > 0 {
                match v {
                    FdtStructureToken::BeginNone { .. } => {
                        self.depth = self.depth + 1;
                    },
                    FdtStructureToken::EndNode => {
                        self.depth = self.depth - 1;
                    },
                    _ => {},
                }
            } else {
                let last = self.path.len() - 1;
                match v {
                    FdtStructureToken::Prop { name, value } => {
                        if bytes_eq(name, self.path[self.i].as_bytes()) {
                            if self.i == last {
                                return Some(FdtStructureToken::Prop { name, value });
                            } else {
                                return None;
                            }
                        }
                    },
                    FdtStructureToken::BeginNone { name, tokens } => {
                        if bytes_eq(unit_name_exec(name), self.path[self.i].as_bytes()) {
                            if self.i < last {
                                self.i = self.i + 1;
                                self.depth = 0;
                            } else {
                                self.depth = self.depth + 1;
                                return Some(FdtStructureToken::BeginNone { name, tokens });
                            }
                        } else {
                            self.depth = self.depth + 1;
                        }
                    },
                    FdtStructureToken::EndNode => {
                        self.i = self.i - 1;
                    },
                }
            }
        }
    }
}

/// Every token the structure iterator hands out moves its position forward.
proof fn lemma_scan_advances(data: Seq<u8>, ptr: int, strs: int, depth: int)
    requires
        data.len() + 16 <= usize::MAX,
        0 <= ptr,
    ensures
        match scan(data, ptr, strs, depth) {
            Scan::Begin { next, .. } => ptr < next <= data.len() + 3,
            Scan::Prop { next, .. } => ptr < next <= data.len() + 3,
            Scan::End { next } => ptr < next <= data.len() + 3,
            Scan::Stop { .. } => true,
        },
    decreases data.len() - ptr,
{
    if !(ptr < 0 || ptr + 4 > data.len()) {
        let p = ptr + 4;
        if be32(data, ptr) == FDT_NOP {
            lemma_scan_advances(data, p, strs, depth);
        } else if be32(data, ptr) == FDT_BEGIN_NODE {
            lemma_nul_index(data, p);
            let e = nul_index(data, p);
            assert(align4(e + 1) >= e + 1);
        } else if be32(data, ptr) == FDT_PROP && p + 8 <= data.len() {
            let len = be32(data, p) as int;
            assert(align4(p + 8 + len) >= p + 8 + len);
        }
    }
}

proof fn lemma_nul_index(s: Seq<u8>, i: int)
    ensures
        nul_index(s, i) == -1 || (i <= nul_index(s, i) < s.len() && s[nul_index(s, i)] == 0),
    decreases s.len() - i,
{
    if !(i < 0 || i >= s.len()) && s[i] != 0 {
        lemma_nul_index(s, i + 1);
    }
}

impl<'a> FdtHeader<'a> {
    pub closed spec fn bytes(self) -> Seq<u8> {
        self.data@
    }

    /// `version`, `last_comp_version` and `boot_cpuid_phys`.
    pub closed spec fn version_words(self) -> (u32, u32, u32) {
        (self.version, self.last_comp_version, self.boot_cpuid_phys)
    }

    pub closed spec fn magic_word(self) -> u32 {
        self.magic
    }

    pub closed spec fn struct_offset(self) -> u32 {
        self.off_dt_struct
    }

    pub closed spec fn strings_offset(self) -> u32 {
        self.off_dt_strings
    }

    pub closed spec fn rsvmap_offset(self) -> u32 {
        self.off_mem_rsvmap
    }

    pub closed spec fn wf(self) -> bool {
        self.data@.len() + 16 <= usize::MAX
    }

    /// The header read from the start of a blob, or `None` when the blob is
    /// too short to hold one (40 bytes).
    pub fn from_bytes(data: &'a [u8]) -> (r: Option<Self>)
        ensures
            match r {
                Some(h) => {
                    &&& data@.len() >= 40
                    &&& h.wf()
                    &&& h.bytes() == data@
                    &&& h.magic_word() == be32(data@, 0)
                    &&& h.struct_offset() == be32(data@, 8)
                    &&& h.strings_offset() == be32(data@, 12)
                    &&& h.rsvmap_offset() == be32(data@, 16)
                    &&& h.version_words() == (be32(data@, 20), be32(data@, 24), be32(data@, 28))
                },
                None => data@.len() < 40 || data@.len() + 16 > usize::MAX,
            },
    {
        if data.len() < 40 || data.len() > usize::MAX - 16 {
            return None;
        }
        Some(
            FdtHeader {
                data,
                magic: read_be32(data, 0),
                total_size: read_be32(data, 4),
                off_dt_struct: read_be32(data, 8),
                off_dt_strings: read_be32(data, 12),
                off_mem_rsvmap: read_be32(data, 16),
                version: read_be32(data, 20),
                last_comp_version: read_be32(data, 24),
                boot_cpuid_phys: read_be32(data, 28),
                size_dt_strings: read_be32(data, 32),
                size_dt_structs: read_be32(data, 36),
            },
        )
    }

    /// Whether the header carries the device tree magic number.
    pub fn is_valid(&self) -> (r: bool)
        ensures
            r == (self.magic_word() == MAGIC),
    {
        self.magic == MAGIC
    }

    /// Iterator over the memory reservation block.
    pub fn memory_reservation_block(&self) -> (r: FdtReserveEntryIter<'a>)
        ensures
            r.bytes() == self.bytes(),
            r.pos() == self.rsvmap_offset(),
    {
        FdtReserveEntryIter { data: self.data, ptr: self.off_mem_rsvmap as usize }
    }

    /// All entries of the memory reservation block, in order: up to the
    /// all-zero entry, or up to the end of the blob.
    pub fn memory_reservation_block_slice(&self) -> (r: Vec<FdtReserveEntry>)
        ensures
            forall|i: int| #![trigger r@[i]] 0 <= i < r@.len() ==> {
                let off = self.rsvmap_offset() + 16 * i;
                &&& off + 16 <= self.bytes().len()
                &&& r@[i].address == le64(self.bytes(), off)
                &&& r@[i].size == le64(self.bytes(), off + 8)
                &&& !(r@[i].address == 0 && r@[i].size == 0)
            },
            ({
                let end = self.rsvmap_offset() + 16 * r@.len();
                end + 16 > self.bytes().len() || (le64(self.bytes(), end) == 0 && le64(self.bytes(), end
                    + 8) == 0)
            }),
    {
        let mut iter = self.memory_reservation_block();
        let mut r: Vec<FdtReserveEntry> = Vec::new();
        loop
            invariant
                iter.bytes() == self.bytes(),
                iter.pos() == self.rsvmap_offset() + 16 * r@.len(),
                forall|i: int| #![trigger r@[i]] 0 <= i < r@.len() ==> {
                    let off = self.rsvmap_offset() + 16 * i;
                    &&& r@[i].address == le64(self.bytes(), off)
                    &&& r@[i].size == le64(self.bytes(), off + 8)
                    &&& !(r@[i].address == 0 && r@[i].size == 0)
                },
                r@.len() > 0 ==> iter.pos() <= self.bytes().len(),
            decreases self.bytes().len() - iter.pos(),
        {
            match iter.next() {
                Some(e) => {
                    r.push(e);
                },
                None => {
                    return r;
                },
            }
        }
    }

    /// Iterator over the tokens of the structure block.
    pub fn structure_block(&self) -> (r: FdtStructureIter<'a>)
        requires
            self.wf(),
        ensures
            r.wf(),
            r.bytes() == self.bytes(),
            r.pos() == self.struct_offset(),
            r.strings() == self.strings_offset(),
            r.depth() == 0,
    {
        FdtStructureIter {
            data: self.data,
            ptr: self.off_dt_struct as usize,
            str: self.off_dt_strings as usize,
            depth: 0,
        }
    }

    /// Iterator over the top level of the structure block.
    pub fn structure_block_tree(&self) -> (r: FdtStructureTreeIter<'a>)
        requires
            self.wf(),
        ensures
            r.0.wf(),
            r.0.bytes() == self.bytes(),
            r.0.pos() == self.struct_offset(),
            r.0.strings() == self.strings_offset(),
            r.0.depth() == 0,
    {
        FdtStructureTreeIter(self.structure_block())
    }

    /// Iterator over what the structure block holds at `path`.
    pub fn get(&self, path: &'a [&'a str]) -> (r: FdtPathIter<'a>)
        requires
            self.wf(),
            path@.len() > 0,
        ensures
            r.wf(),
            r.path() == path@,
            r.bytes() == self.bytes(),
            r.strings() == self.strings_offset(),
            r.state() == (self.struct_offset() as int, 0int, 0int, 0int),
    {
        FdtPathIter { iter: self.structure_block(), path, i: 0, depth: 0 }
    }
}

/// Rounding up to a multiple of four gives a multiple of four less than four
/// past the value.
proof fn lemma_align4(x: int)
    requires
        x >= 0,
    ensures
        align4(x) % 4 == 0,
        x <= align4(x) < x + 4,
{
    assert(align4(x) % 4 == 0 && x <= align4(x) < x + 4) by (nonlinear_arith)
        requires
            x >= 0,
            align4(x) == (x + 3) / 4 * 4,
    ;
}

/// Before the first zero byte at or after `i` every byte is non-zero.
proof fn lemma_nul_index_before(s: Seq<u8>, i: int, k: int)
    requires
        0 <= i <= k < nul_index(s, i),
    ensures
        s[k] != 0,
    decreases k - i,
{
    if k > i {
        lemma_nul_index_before(s, i + 1, k);
    }
}

/// The tokens of the structure block as the device tree lays them out, with
/// every token on a 4-byte boundary after the one before it. A property token
/// is the `FDT_PROP` word, the value's length, the offset of its name in the
/// strings block, then the value; the next token follows the value, rounded
/// up to four bytes. A node's token is the `FDT_BEGIN_NODE` word and its name
/// up to a zero byte; the next token follows the zero byte, rounded up to
/// four bytes.
pub proof fn law_structure_token_layout(data: Seq<u8>, ptr: int, strs: int, depth: int)
    requires
        0 <= ptr,
        0 <= strs,
        data.len() + 16 <= usize::MAX,
    ensures
        match scan(data, ptr, strs, depth) {
            Scan::Prop { name_start, name_end, value_start, value_end, next } => {
                &&& ptr + 12 <= value_start
                &&& be32(data, value_start - 12) == FDT_PROP
                &&& value_end == value_start + be32(data, value_start - 8)
                &&& value_end <= data.len()
                &&& name_start == strs + be32(data, value_start - 4)
                &&& data[name_end as int] == 0
                &&& forall|k: int| name_start <= k < name_end ==> data[k] != 0
                &&& next % 4 == 0
                &&& value_end <= next < value_end + 4
            },
            Scan::Begin { name_start, name_end, next } => {
                &&& ptr + 4 <= name_start
                &&& be32(data, name_start - 4) == FDT_BEGIN_NODE
                &&& data[name_end as int] == 0
                &&& forall|k: int| name_start <= k < name_end ==> data[k] != 0
                &&& next % 4 == 0
                &&& name_end < next <= name_end + 4
            },
            Scan::End { next } => {
                &&& ptr + 4 <= next <= data.len()
                &&& be32(data, next - 4) == FDT_END_NODE
                &&& depth != 0
            },
            Scan::Stop { .. } => true,
        },
    decreases data.len() - ptr,
{
    if ptr + 4 <= data.len() {
        let id = be32(data, ptr);
        let p = ptr + 4;
        if id == FDT_NOP {
            law_structure_token_layout(data, p, strs, depth);
        } else if id == FDT_BEGIN_NODE {
            lemma_nul_index(data, p);
            let e = nul_index(data, p);
            if e >= 0 {
                lemma_align4(e + 1);
                assert forall|k: int| p <= k < e implies data[k] != 0 by {
                    lemma_nul_index_before(data, p, k);
                }
            }
        } else if id == FDT_PROP && p + 8 <= data.len() {
            let len = be32(data, p) as int;
            let ns = strs + be32(data, p + 4) as int;
            lemma_nul_index(data, ns);
            let ne = nul_index(data, ns);
            if ne >= 0 && p + 8 + len <= data.len() {
                lemma_align4(p + 8 + len);
                assert forall|k: int| ns <= k < ne implies data[k] != 0 by {
                    lemma_nul_index_before(data, ns, k);
                }
            }
        }
    }
}

} // verus!
