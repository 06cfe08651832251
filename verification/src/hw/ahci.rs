//! AHCI host bus adapter registers and command structures.
use vstd::prelude::*;
use super::utils::Ptr64;

verus! {

pub const CAP_S64A: u32 = 0x8000_0000;
pub const CAP_SNCQ: u32 = 0x4000_0000;
pub const CAP_SSNTF: u32 = 0x2000_0000;
pub const CAP_SMPS: u32 = 0x1000_0000;
pub const CAP_SSS: u32 = 0x0800_0000;
pub const CAP_SALP: u32 = 0x0400_0000;
pub const CAP_SAL: u32 = 0x0200_0000;
pub const CAP_SCLO: u32 = 0x0100_0000;
pub const CAP_ISS_MASK: u32 = 0x003C_0000;
pub const CAP_ISS_GEN1: u32 = 0x0004_0000;
pub const CAP_ISS_GEN2: u32 = 0x0008_0000;
pub const CAP_ISS_GEN3: u32 = 0x000C_0000;
pub const CAP_SAM: u32 = 0x0004_0000;
pub const CAP_SPM: u32 = 0x0002_0000;
pub const CAP_FBSS: u32 = 0x0001_0000;
pub const CAP_PMD: u32 = 0x8000;
pub const CAP_SSC: u32 = 0x4000;
pub const CAP_PSC: u32 = 0x2000;
pub const CAP_NCS_SHIFT: u32 = 8;
pub const CAP_NCS_MASK: u32 = 0x0F00;
pub const CAP_CCCS: u32 = 0x80;
pub const CAP_EMS: u32 = 0x40;
pub const CAP_SXS: u32 = 0x20;
pub const CAP_NP_MASK: u32 = 0b1111;
pub const PRD_INFO_INT_ON_COMPLETION: u32 = 0x8000_0000;
/// The byte count field of a region descriptor: its low 22 bits.
pub const PRD_INFO_DBC_MASK: u32 = 0x003F_FFFF;

/// The register block of a host bus adapter.
pub struct Hba {
    pub generic_gost_control: HbaGenericHostControl,
    pub _res0: [u32; 0x1D],
    pub vendor_specific_regisers: [u32; 0x18],
    pub ports: [HbaPort; 32],
}

/// The generic host control registers.
pub struct HbaGenericHostControl {
    pub host_capabilities: u32,
    pub global_host_control: u32,
    pub interrupt_status: u32,
    pub ports_implemented: u32,
    pub version: u32,
    pub ccc_control: u32,
    pub ccc_ports: u32,
    pub em_location: u32,
    pub em_control: u32,
    pub host_capabilities_2: u32,
    pub bohc: u32,
}

/// The registers of a port.
pub struct HbaPort {
    pub command_list_bar: Ptr64<[AhciCommandHeader; 32]>,
    pub fis_bar: Ptr64<u8>,
    pub interrupt_status: u32,
    pub interrupt_enable: u32,
    pub command_status: u32,
    pub _res0: u32,
    pub task_file_data: u32,
    pub signature: u32,
    pub sata_status: u32,
    pub sata_control: u32,
    pub sata_error: u32,
}

/// An entry of a port's command list.
pub struct AhciCommandHeader {
    pub prd_table_length: u16,
    pub flags: u16,
    pub prs_byte_count: u32,
    pub ctd_base_address: u32,
    pub ctd_base_address2: u32,
    pub _res0: [u32; 4],
}

/// A command table: the command, then the region descriptors.
pub struct AhciCommandTable {
    pub command_fis: [u32; 16],
    pub atapi_command: [u32; 4],
    pub _res0: [u32; 12],
    pub prd_table: [AhciPrd; 65535],
}

/// A physical region descriptor.
pub struct AhciPrd {
    pub data_base_addr0: u32,
    pub data_base_addr1: u32,
    pub _res0: u32,
    pub descriptor_info: u32,
}

/// The capability constants are the bits the host capabilities register
/// assigns them.
pub proof fn lemma_capability_bits()
    ensures
        CAP_S64A == 1u32 << 31u32,
        CAP_SNCQ == 1u32 << 30u32,
        CAP_ISS_MASK == 0b1111u32 << 18u32,
        CAP_NCS_MASK == 0b1111u32 << CAP_NCS_SHIFT,
        PRD_INFO_DBC_MASK == !(!0u32 << 22u32),
{
    assert(CAP_S64A == 1u32 << 31u32) by (bit_vector);
    assert(CAP_SNCQ == 1u32 << 30u32) by (bit_vector);
    assert(CAP_ISS_MASK == 0b1111u32 << 18u32) by (bit_vector);
    assert(CAP_NCS_MASK == 0b1111u32 << 8u32) by (bit_vector);
    assert(PRD_INFO_DBC_MASK == !(!0u32 << 22u32)) by (bit_vector);
}

} // verus!
