//! PCI Express configuration space headers and message signalled interrupt
//! capabilities.
use vstd::prelude::*;

verus! {

/// The part every configuration space header shares.
#[derive(Copy, Clone, Debug)]
pub struct ConfigurationSpaceHeaderCommon {
    pub vendor_id: u16,
    pub device_id: u16,
    pub command: u16,
    pub status: u16,
    pub revision_id: u8,
    pub prog_if: u8,
    pub subclass: u8,
    pub class_code: u8,
    pub _pad0: u8,
    pub _pad1: u8,
    pub header_type: u8,
    pub bist: u8,
    pub _pad2: [u32; 9],
    pub caps_ptr: u8,
    pub _pad3: [u8; 3],
    pub _pad4: [u32; 2],
}

/// The configuration space header of an endpoint.
#[derive(Copy, Clone, Debug)]
pub struct ConfigurationSpaceHeaderType0 {
    pub vendor_id: u16,
    pub device_id: u16,
    pub command: u16,
    pub status: u16,
    pub revision_id: u8,
    pub prog_if: u8,
    pub subclass: u8,
    pub class_code: u8,
    pub _pad0: u8,
    pub _pad1: u8,
    pub header_type: u8,
    pub bist: u8,
    pub bar0: u64,
    pub bar1: u64,
    pub bar2: u64,
    pub cardbus_cis_ptr: u32,
    pub subsys_vendor_id: u16,
    pub subsys_id: u16,
    pub ext_rom_base_addr: u32,
    pub _pad3: [u8; 3],
    pub _pad4: [u32; 2],
}

/// The configuration space header of a bridge.
#[derive(Copy, Clone, Debug)]
pub struct ConfigurationSpaceHeaderType1 {
    pub vendor_id: u16,
    pub device_id: u16,
    pub command: u16,
    pub status: u16,
    pub revision_id: u8,
    pub prog_if: u8,
    pub subclass: u8,
    pub class_code: u8,
    pub _pad0: u8,
    pub _pad1: u8,
    pub header_type: u8,
    pub bist: u8,
    pub bar0: u64,
    pub primary_bus_number: u8,
    pub secondary_bus_number: u8,
    pub subordinate_bus_number: u8,
    pub _pad2: u8,
    pub io_base: u8,
    pub io_limit: u8,
    pub secondary_status: u16,
    pub memory_base: u16,
    pub memory_limit: u16,
    pub prefetchable_memory_base: u16,
    pub prefetchable_memory_limit: u16,
    pub prefetchable_memory_base_u: u32,
    pub prefetchable_memory_limit_u: u32,
    pub io_base_u: u16,
    pub io_limit_u: u16,
    pub caps_ptr: u8,
    pub _pad3: [u8; 3],
    pub bridge_control: u16,
    pub _pad4: [u8; 2],
}

/// The header of a capability: its id and the offset of the next one.
#[derive(Copy, Clone, Debug, PartialEq, Eq, Structural)]
pub struct CapabilityHeader {
    pub id: u8,
    pub ptr: u8,
}

impl CapabilityHeader {
    pub const ID_MSI: u8 = 0x05;
    pub const ID_MSI_X: u8 = 0x11;
}

/// The message control register of an MSI capability.
#[derive(Copy, Clone, Debug, PartialEq, Eq, Structural)]
pub struct MsiCapabilityMessageControl(pub u16);

/// An MSI capability with a 32-bit address.
#[derive(Copy, Clone, Debug)]
pub struct MsiCapability32 {
    pub _pad0: u16,
    pub message_control: u16,
    pub message_address: u32,
    pub message_data: u16,
}

/// An MSI capability with a 32-bit address and per-vector masking.
#[derive(Copy, Clone, Debug)]
pub struct MsiCapability32Vectored {
    pub _pad0: u16,
    pub message_control: MsiCapabilityMessageControl,
    pub message_address: u32,
    pub message_data: u16,
    pub _pad1: u16,
    pub mask_bits: u32,
    pub pending_bits: u32,
}

/// An MSI capability with a 64-bit address.
#[derive(Copy, Clone, Debug)]
pub struct MsiCapability64 {
    pub _pad0: u16,
    pub message_control: MsiCapabilityMessageControl,
    pub message_address: u64,
    pub message_data: u16,
}

/// An MSI capability with a 64-bit address and per-vector masking.
#[derive(Copy, Clone, Debug)]
pub struct MsiCapability64Vectored {
    pub _pad0: u16,
    pub message_control: MsiCapabilityMessageControl,
    pub message_address: u64,
    pub message_data: u16,
    pub _pad1: u16,
    pub mask_bits: u32,
    pub pending_bits: u32,
}

/// The message control register of an MSI-X capability.
#[derive(Copy, Clone, Debug, PartialEq, Eq, Structural)]
pub struct MsiXCapabilityMessageControl(pub u16);

/// An MSI-X capability.
#[derive(Copy, Clone, Debug)]
pub struct MsiXCapability {
    pub _pad0: u16,
    pub message_control: MsiXCapabilityMessageControl,
    pub table_offset: u32,
    pub pba_offset: u32,
}

/// An entry of the MSI-X table.
#[derive(Copy, Clone, Debug, PartialEq, Eq, Structural)]
pub struct MsiXTableEntry {
    pub message_address: u64,
    pub message_data: u32,
    pub vector_control: u32,
}

} // verus!
