//! A tree of fixed-size blocks.
use vstd::prelude::*;

verus! {

/// Number of entries of a block.
pub const BLOCK_SIZE: usize = 64;

/// A tree of blocks: the root block (if any), the number of elements and
/// the depth.
pub struct BinaryBlockTree<T> {
    pub root: Option<Box<Block<T>>>,
    pub length: usize,
    pub depth: usize,
}

/// A block: either links to the blocks below, or elements.
pub enum Block<T> {
    Branch([usize; 64]),
    Leaf([T; 64]),
}

impl<T> BinaryBlockTree<T> {
    /// An empty tree.
    pub fn new() -> (r: Self)
        ensures
            r.root is None,
            r.length == 0,
            r.depth == 0,
    {
        BinaryBlockTree { root: None, length: 0, depth: 0 }
    }
}

} // verus!
