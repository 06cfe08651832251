//! Nodes of the mount tree.
use vstd::prelude::*;

verus! {

/// A node of the mount tree. Links to other objects are their addresses.
#[derive(Copy, Clone)]
pub struct Node {
    pub parent: usize,
    pub flags: u32,
    pub refs: u32,
    /// The linked node's pages when the node is a link.
    pub pages: usize,
    pub users: usize,
}

impl Node {
    /// Mount namespaces only; the root file system is always readable,
    /// writable and executable.
    pub const FLAG_READ: u32 = 0x1;
    pub const FLAG_WRITE: u32 = 0x2;
    pub const FLAG_EXEC: u32 = 0x4;
    pub const TYPE_LINK: u32 = 0x1;
    pub const TYPE_CACHED: u32 = 0x2;
    pub const TYPE_PERIPHERAL: u32 = 0x3;
    pub const TYPE_PIPE: u32 = 0x3;
}

} // verus!
