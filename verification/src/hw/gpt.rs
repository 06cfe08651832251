//! GUID partition tables.
use vstd::prelude::*;

verus! {

/// The "EFI PART" signature of a partition table header.
pub const SIGNATURE: u64 = 0x5452415020494645;

pub const UNUSED_ENTRY_GUID: u128 = 0x00000000000000000000000000000000;
pub const EFI_SYSTEM_PARTITION_GUID: u128 = 0xC12A7328F81F11D2BA4B00A0C93EC93B;
pub const LEGACY_MBR_PARTITION_GUID: u128 = 0x024DEE4133E711D39D690008C781F39F;

pub const PARTITION_ENTRY_REQUIRED: u64 = 0x1;
pub const PARTITION_ENTRY_NO_BLOCK_IO_PROTOCOL: u64 = 0x2;
pub const PARTITION_ENTRY_LEGACY_BIOS_BOOTABLE: u64 = 0x3;

/// Header of a GUID partition table.
#[derive(Copy, Clone, Debug, Default)]
pub struct Header {
    /// Must be `SIGNATURE`.
    pub signature: u64,
    pub revision: u32,
    pub header_size: u32,
    pub header_crc32: u32,
    pub _res0: u32,
    /// The block that holds this header.
    pub my_lba: u64,
    /// The block of the alternate header.
    pub alternate_lba: u64,
    pub first_usable_lba: u64,
    pub last_usable_lba: u64,
    pub disk_guid: u128,
    /// First block of the partition entry array.
    pub partition_entry_lba: u64,
    pub number_of_partition_entries: u32,
    pub size_of_partition_entry: u32,
    pub partition_entry_array_crc32: u32,
}

impl Header {
    /// Whether the header carries the partition table signature.
    pub fn is_valid(&self) -> (r: bool)
        ensures
            r == (self.signature == SIGNATURE),
    {
        self.signature == SIGNATURE
    }
}

/// An entry of the partition entry array.
#[derive(Copy, Clone)]
pub struct PartitionEntry {
    /// Type of the partition; zero for an unused entry.
    pub partition_type_guid: u128,
    pub unique_partition_guid: u128,
    pub starting_lba: u64,
    pub ending_lba: u64,
    pub attributes: u64,
    /// The partition's name, zero-terminated unless it fills the field.
    pub partition_name: [u8; 72],
}

impl PartitionEntry {
    /// Length of the partition's name: up to its first zero byte, or the
    /// whole field.
    pub fn name_len(&self) -> (r: usize)
        ensures
            r <= 72,
            r < 72 ==> self.partition_name@[r as int] == 0,
            forall|k: int| 0 <= k < r ==> #[trigger] self.partition_name@[k] != 0,
    {
        let mut i: usize = 0;
        while i < 72 && self.partition_name[i] != 0
            invariant
                i <= 72,
                forall|k: int| 0 <= k < i ==> #[trigger] self.partition_name@[k] != 0,
            decreases 72 - i,
        {
            i = i + 1;
        }
        i
    }
}

} // verus!
