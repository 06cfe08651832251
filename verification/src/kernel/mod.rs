//! The kernel: architecture support, boot, contexts, harts, memory, the
//! event log, the mount tree and shared data structures.
use vstd::prelude::*;

pub mod arch;
pub mod boot;
pub mod ctx;
pub mod hart;
pub mod log;
pub mod mem;
pub mod misc;
pub mod mnt;

verus! {

/// The kernel's shared data: contexts, the mount tree, harts, memory and
/// the log. Links to contexts and tables are their addresses.
pub struct SvData {
    pub ctx: usize,
    pub ctx_lru: usize,
    pub mnt: misc::trie::TrieNode<mnt::Node>,
    pub harts: misc::tree::Tree<hart::Hart>,
    pub mem_nodes: misc::tree::Tree<mem::NodeDescriptor>,
    pub mem_areas: misc::tree::Tree<mem::PhysMemoryArea>,
    pub mem_table: usize,
    pub log_buf: log::LogBuf,
}

} // verus!
