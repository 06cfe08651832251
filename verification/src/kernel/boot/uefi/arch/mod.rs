//! Per-architecture start of the kernel after UEFI.
pub mod amd64;
