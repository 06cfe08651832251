//! NVM Express controller registers.
use vstd::prelude::*;
use super::utils::Ptr64;

verus! {

/// The register block of an NVMe controller.
pub struct Nvme {
    pub controller_capabilities: u64,
    pub version: u32,
    pub interrupt_mask_set: u32,
    pub interrupt_mask_clear: u32,
    pub controller_config: u32,
    pub _res0: u32,
    pub controller_status: u32,
    pub nvm_subsystem_reset: u32,
    pub admin_queue_attributes: u32,
    pub admin_submission_queue: Ptr64<u8>,
    pub admin_completion_queue: Ptr64<u8>,
    pub controller_memory_buffer_location: u32,
    pub controller_memory_buffer_size: u32,
    pub boot_partition_information: u32,
    pub boot_partition_read_select: u32,
    pub boot_partition_memory_buffer_location: Ptr64<u8>,
    pub controller_memory_buffer_status: u32,
    pub _res1: [u32; 0x369],
    pub persistent_memory_capabilities: u32,
    pub persistent_memory_region_control: u32,
    pub persistent_memory_region_status: u32,
    pub persistent_memory_region_elasticity_buffer_size: u32,
    pub persistent_memory_region_sustained_write_throughput: u32,
    pub persistent_memory_region_controller_memory_space_control: u32,
    pub _res2: [u32; 0x1E4],
}

} // verus!
