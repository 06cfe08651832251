pub mod bbt;
pub mod fmt;
pub mod list;
pub mod runtime;
pub mod tree;
pub mod trie;
pub mod utils;
