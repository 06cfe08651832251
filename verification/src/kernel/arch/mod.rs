//! Per-architecture parts of the kernel: timers, saved contexts and
//! interrupt descriptors.
pub mod aarch64;
pub mod amd64;
pub mod riscv64;
