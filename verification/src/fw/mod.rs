//! Firmware: the UEFI tables this project provides to its guests.
pub mod uefi;
