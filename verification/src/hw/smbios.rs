//! SMBIOS entry points.
use vstd::prelude::*;

verus! {

/// The 32-bit SMBIOS entry point.
#[derive(Copy, Clone, Debug)]
pub struct SmBios2EntryPoint {
    pub anchor: [u8; 4],
    pub checksum: u8,
    pub length: u8,
    pub major_version: u8,
    pub minor_version: u8,
    pub max_struct_size: u32,
    pub revision: u8,
    pub formatted_area: [u8; 5],
    pub intermediate_anchor: [u8; 5],
    pub intermediate_checksum: u8,
    pub structure_table_length: u32,
    pub structure_table_address: u64,
    pub number_of_structures: u32,
    pub bcd_revision: u8,
}

/// The 64-bit SMBIOS entry point.
#[derive(Copy, Clone, Debug)]
pub struct SmBios3EntryPoint {
    pub anchor: [u8; 4],
    pub checksum: u8,
    pub length: u8,
    pub major_version: u8,
    pub minor_version: u8,
    pub docrev: u8,
    pub revision: u8,
    pub _reserved0: u8,
    pub structure_table_max_size: u64,
    pub structure_table_address: u128,
}

} // verus!
