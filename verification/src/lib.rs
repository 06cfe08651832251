//! Verified core of a small hypervisor kernel and its hardware layer:
//! firmware table layouts, page-table entries, interrupt controllers,
//! flattened device trees and the kernel's own data structures.

pub mod fw;
pub mod hw;
pub mod kernel;
