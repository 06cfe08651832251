//! UEFI: status codes, table layouts, the boot memory map, graphics output
//! types and the conversion of strings to and from UCS-2.
use vstd::prelude::*;
use super::utils::{le32, le64, read_le32, read_le64};

verus! {

pub type Status = isize;
pub type Guid = u128;

/// The operation completed successfully.
pub const STATUS_SUCCESS: isize = 0;
/// The image failed to load.
pub const STATUS_LOAD_ERROR: isize = -1;
/// A parameter was incorrect.
pub const STATUS_INVALID_PARAMETER: isize = -2;
/// The operation is not supported.
pub const STATUS_UNSUPPORTED: isize = -3;
/// The buffer was not the proper size for the request.
pub const STATUS_BAD_BUFFER_SIZE: isize = -4;
/// The buffer is not large enough to hold the requested data.
pub const STATUS_BUFFER_TOO_SMALL: isize = -5;
/// There is no data pending upon return.
pub const STATUS_NOT_READY: isize = -6;
/// The physical device reported an error while attempting the operation.
pub const STATUS_DEVICE_ERROR: isize = -7;
/// The device cannot be written to.
pub const STATUS_WRITE_PROTECTED: isize = -8;
/// A resource has run out.
pub const STATUS_OUT_OF_RESOURCES: isize = -9;
/// An inconstancy was detected on the file system.
pub const STATUS_VOLUME_CORRUPTED: isize = -10;
/// There is no more space on the file system.
pub const STATUS_VOLUME_FULL: isize = -11;
/// The device does not contain any medium to perform the operation.
pub const STATUS_NO_MEDIA: isize = -12;
/// The medium in the device has changed since the last access.
pub const STATUS_MEDIA_CHANGED: isize = -13;
/// The item was not found.
pub const STATUS_NOT_FOUND: isize = -14;
/// Access was denied.
pub const STATUS_ACCESS_DENIED: isize = -15;
/// The server was not found or did not respond to the request.
pub const STATUS_NO_RESPONSE: isize = -16;
/// A mapping to a device does not exist.
pub const STATUS_NO_MAPPING: isize = -17;
/// The timeout time expired.
pub const STATUS_TIMEOUT: isize = -18;
/// The protocol has not been started.
pub const STATUS_NOT_STARTED: isize = -19;
/// The protocol has already been started.
pub const STATUS_ALREADY_STARTED: isize = -20;
/// The operation was aborted.
pub const STATUS_ABORTED: isize = -21;
/// An ICMP error occurred during the network operation.
pub const STATUS_ICMP_ERROR: isize = -22;
/// A TFTP error occurred during the network operation.
pub const STATUS_TFTP_ERROR: isize = -23;
/// A protocol error occurred during the network operation.
pub const STATUS_PROTOCOL_ERROR: isize = -24;
/// The function met an incompatible internal version.
pub const STATUS_INCOMPATIBLE_VERSION: isize = -25;
/// The function was not performed due to a security violation.
pub const STATUS_SECURITY_VIOLATION: isize = -26;
/// A CRC error was detected.
pub const STATUS_CRC_ERROR: isize = -27;
/// Beginning or end of media was reached.
pub const STATUS_END_OF_MEDIA: isize = -28;
/// The end of the file was reached.
pub const STATUS_END_OF_FILE: isize = -31;
/// The language specified was invalid.
pub const STATUS_INVALID_LANGUAGE: isize = -32;
/// The security status of the data is unknown or compromised.
pub const STATUS_COMPROMISED_DATA: isize = -33;
/// There is an address conflict address allocation.
pub const STATUS_IP_ADDRESS_CONFLICT: isize = -34;
/// A HTTP error occurred during the network operation.
pub const STATUS_HTTP_ERROR: isize = -35;
/// The string held characters that the device could not render.
pub const STATUS_WARN_UNKNOWN_GLYPH: isize = -1;
/// The handle was closed, but the file was not deleted.
pub const STATUS_WARN_DELETE_FAILURE: isize = -2;
/// The handle was closed, but the data to the file was not flushed properly.
pub const STATUS_WARN_WRITE_FAILURE: isize = -3;
/// The resulting buffer was too small, and the data was truncated.
pub const STATUS_WARN_BUFFER_TOO_SMALL: isize = -4;
/// The data has not been updated within the timeframe set by local policy.
pub const STATUS_WARN_STALE_DATA: isize = -5;
/// The resulting buffer contains UEFI-compliant file system.
pub const STATUS_WARN_FILE_SYSTEM: isize = -6;
/// The operation will be processed across a system reset.
pub const STATUS_WARN_RESET_REQUIRED: isize = -7;

pub const SYSTEM_TABLE_SIGNATURE: u64 = 0x5453595320494249;
pub const BOOT_SERVICES_SIGNATURE: u64 = 0x56524553544f4f42;
pub const RUNTIME_SERVICES_SIGNATURE: u64 = 0x56524553544e5552;
pub const ACPI_10_TABLE_GUID: u128 = 0x4DC13F279000169A11D32D88EB9D2D30;
pub const ACPI_20_TABLE_GUID: u128 = 0x81883CC7800022BC11D3E4F18868E871;
pub const SAL_SYSTEM_TABLE_GUID: u128 = 0x4dc13f279000169a11d32d88eb9d2d32;
pub const SMBIOS_TABLE_GUID: u128 = 0x4dc13f279000169a11d32d88eb9d2d31;
pub const SMBIOS3_TABLE_GUID: u128 = 0x94e320cfbbe52e994a2c9794f2fd1544;
pub const MPS_TABLE_GUID: u128 = 0x4dc13f279000169a11d32d88eb9d2d2f;
pub const JSON_CONFIG_DATA_TABLE_GUID: u128 = 0x8a551f11e08becaa41ce111987367f87;
pub const JSON_CAPSULE_DATA_TABLE_GUID: u128 = 0x569010a8cd3311804cac8dd235e7a725;
pub const JSON_CAPSULE_RESULT_TABLE_GUID: u128 = 0xe5a149fd8698b4b9422ab3dedbc461c3;
pub const GRAPHICS_OUTPUT_PROTOCOL_GUID: u128 = 0x6a5180d0de7afb964a3823dc9042a9de;

pub const MEMORY_UNCACHABLE: u64 = 0x1;
pub const MEMORY_WRITE_COMBINING: u64 = 0x2;
pub const MEMORY_WRITE_THROUGH: u64 = 0x4;
pub const MEMORY_WRITE_BACK: u64 = 0x8;
pub const MEMORY_UNCACHABLE_EXPORTED: u64 = 0x10;
pub const MEMORY_WRITE_PROTECTED: u64 = 0x1000;
pub const MEMORY_READ_PROTECTED: u64 = 0x2000;
pub const MEMORY_EXEC_PROTECTED: u64 = 0x4000;
pub const MEMORY_PERSISTENT: u64 = 0x8000;
pub const MEMORY_MORE_RELIABLE: u64 = 0x10000;
pub const MEMORY_READ_ONLY: u64 = 0x20000;
pub const MEMORY_SPECIAL_PURPOSE: u64 = 0x40000;
pub const MEMORY_CPU_CRYPTO: u64 = 0x80000;
pub const MEMORY_RUNTIME: u64 = 0x8000000000000000;

pub const RT_SUPPORTED_GET_TIME: usize = 0x0001;
pub const RT_SUPPORTED_SET_TIME: usize = 0x0002;
pub const RT_SUPPORTED_GET_WAKEUP_TIME: usize = 0x0004;
pub const RT_SUPPORTED_SET_WAKEUP_TIME: usize = 0x0008;
pub const RT_SUPPORTED_GET_VARIABLE: usize = 0x0010;
pub const RT_SUPPORTED_GET_NEXT_VARIABLE_NAME: usize = 0x0020;
pub const RT_SUPPORTED_SET_VARIABLE: usize = 0x0040;
pub const RT_SUPPORTED_SET_VIRTUAL_ADDRESS_MAP: usize = 0x0080;
pub const RT_SUPPORTED_CONVERT_POINTER: usize = 0x0100;
pub const RT_SUPPORTED_GET_NEXT_HIGH_MONO_COUNT: usize = 0x0200;
pub const RT_SUPPORTED_RESET_SYSTEM: usize = 0x0400;
pub const RT_SUPPORTED_UPDATE_CAPSULE: usize = 0x0800;
pub const RT_SUPPORTED_QUERY_CAPSULE_CAPABILITIES: usize = 0x1000;
pub const RT_SUPPORTED_QUERY_VARIABLE_INFO: usize = 0x2000;

/// Header of every UEFI table.
#[derive(Copy, Clone, Debug, Default, PartialEq, Eq, Structural)]
pub struct TableHeader {
    pub signature: u64,
    pub revision: u32,
    pub header_size: u32,
    pub crc32: u32,
    pub reserved: u32,
}

/// A key stroke read from the console.
#[derive(Copy, Clone, Debug, Default, PartialEq, Eq, Structural)]
pub struct InputKey {
    pub scan_code: u16,
    pub unicode_char: u16,
}

/// The state of a text output device.
#[derive(Copy, Clone, Debug, Default, PartialEq, Eq, Structural)]
pub struct SimpleTextOutputMode {
    pub max_mode: u32,
    pub mode: u32,
    pub attribute: u32,
    pub cursor_column: u32,
    pub cursor_row: u32,
    pub cursor_visible: bool,
}

/// How `locate_handle` searches.
#[derive(Copy, Clone, Debug, PartialEq, Eq, Structural)]
pub enum LocateSearchType {
    AllHandles,
    ByRegisterNotify,
    ByProtocol,
}

/// Type of a region of the memory map.
#[derive(Copy, Clone, Debug, PartialEq, Eq, Structural)]
pub enum MemoryType {
    ReservedMemoryType,
    LoaderCode,
    LoaderData,
    BootServicesCode,
    BootServicesData,
    RuntimeServicesCode,
    RuntimeServicesData,
    ConventionalMemory,
    UnusableMemory,
    AcpiReclaimMemory,
    AcpiMemoryNvs,
    MemoryMappedIo,
    MemoryMappedIoPortSpace,
    PalCode,
    PersistentMemory,
}

impl Default for MemoryType {
    fn default() -> (r: Self)
        ensures
            r == MemoryType::ReservedMemoryType,
    {
        MemoryType::ReservedMemoryType
    }
}

/// The memory type with code `v`; codes outside the defined range are
/// reserved and read as reserved memory.
pub open spec fn memory_type_of(v: u32) -> MemoryType {
    if v == 1 {
        MemoryType::LoaderCode
    } else if v == 2 {
        MemoryType::LoaderData
    } else if v == 3 {
        MemoryType::BootServicesCode
    } else if v == 4 {
        MemoryType::BootServicesData
    } else if v == 5 {
        MemoryType::RuntimeServicesCode
    } else if v == 6 {
        MemoryType::RuntimeServicesData
    } else if v == 7 {
        MemoryType::ConventionalMemory
    } else if v == 8 {
        MemoryType::UnusableMemory
    } else if v == 9 {
        MemoryType::AcpiReclaimMemory
    } else if v == 10 {
        MemoryType::AcpiMemoryNvs
    } else if v == 11 {
        MemoryType::MemoryMappedIo
    } else if v == 12 {
        MemoryType::MemoryMappedIoPortSpace
    } else if v == 13 {
        MemoryType::PalCode
    } else if v == 14 {
        MemoryType::PersistentMemory
    } else {
        MemoryType::ReservedMemoryType
    }
}

impl MemoryType {
    /// Decodes the type code of a memory descriptor.
    pub fn from_code(v: u32) -> (r: Self)
        ensures
            r == memory_type_of(v),
    {
        match v {
            1 => MemoryType::LoaderCode,
            2 => MemoryType::LoaderData,
            3 => MemoryType::BootServicesCode,
            4 => MemoryType::BootServicesData,
            5 => MemoryType::RuntimeServicesCode,
            6 => MemoryType::RuntimeServicesData,
            7 => MemoryType::ConventionalMemory,
            8 => MemoryType::UnusableMemory,
            9 => MemoryType::AcpiReclaimMemory,
            10 => MemoryType::AcpiMemoryNvs,
            11 => MemoryType::MemoryMappedIo,
            12 => MemoryType::MemoryMappedIoPortSpace,
            13 => MemoryType::PalCode,
            14 => MemoryType::PersistentMemory,
            _ => MemoryType::ReservedMemoryType,
        }
    }
}

/// A region of the memory map.
#[derive(Copy, Clone, Debug, PartialEq, Eq, Structural)]
pub struct MemoryDescriptor {
    pub mem_type: MemoryType,
    pub physical_start: u64,
    pub virtual_start: u64,
    pub number_of_pages: u64,
    pub attribute: u64,
}

impl Default for MemoryDescriptor {
    fn default() -> (r: Self)
        ensures
            r == (MemoryDescriptor {
                mem_type: MemoryType::ReservedMemoryType,
                physical_start: 0,
                virtual_start: 0,
                number_of_pages: 0,
                attribute: 0,
            }),
    {
        MemoryDescriptor {
            mem_type: MemoryType::ReservedMemoryType,
            physical_start: 0,
            virtual_start: 0,
            number_of_pages: 0,
            attribute: 0,
        }
    }
}

/// Size in bytes of the fields of a memory descriptor.
pub const MEMORY_DESCRIPTOR_SIZE: usize = 40;

/// The memory descriptor laid out at `off`: the type code, four bytes of
/// padding, then the start addresses, the page count and the attributes.
pub open spec fn descriptor_at(s: Seq<u8>, off: int) -> MemoryDescriptor {
    MemoryDescriptor {
        mem_type: memory_type_of(le32(s, off)),
        physical_start: le64(s, off + 8),
        virtual_start: le64(s, off + 16),
        number_of_pages: le64(s, off + 24),
        attribute: le64(s, off + 32),
    }
}

/// Reads the memory descriptor at `off`.
pub fn read_descriptor(data: &[u8], off: usize) -> (r: MemoryDescriptor)
    requires
        off + MEMORY_DESCRIPTOR_SIZE <= data@.len(),
    ensures
        r == descriptor_at(data@, off as int),
{
    let n = data.len();
    assert(off + 40 <= n);
    let code = read_le32(data, off);
    let physical_start = read_le64(data, off + 8);
    let virtual_start = read_le64(data, off + 16);
    let number_of_pages = read_le64(data, off + 24);
    let attribute = read_le64(data, off + 32);
    MemoryDescriptor {
        mem_type: MemoryType::from_code(code),
        physical_start,
        virtual_start,
        number_of_pages,
        attribute,
    }
}

/// A memory map as the firmware returns it: a buffer, the number of bytes
/// of it in use and the size of one descriptor.
pub struct MemoryMap {
    pub buf: Vec<u8>,
    pub size: usize,
    pub desc: usize,
}

impl MemoryMap {
    pub fn new(buf: Vec<u8>, size: usize, desc: usize) -> (r: Self)
        ensures
            r.buf@ == buf@,
            r.size == size,
            r.desc == desc,
    {
        MemoryMap { buf, size, desc }
    }

    /// The descriptors of the map, one every `desc` bytes of its first
    /// `size` bytes.
    pub fn iter(&self) -> (r: MemoryMapIter<'_>)
        requires
            self.size <= self.buf@.len(),
        ensures
            r.data@ == self.buf@.subrange(0, self.size as int),
            r.pos == 0,
            r.len == self.desc,
    {
        MemoryMapIter { data: vstd::slice::slice_subrange(self.buf.as_slice(), 0, self.size), pos: 0, len: self.desc }
    }
}

/// Iterator over the descriptors of a memory map.
pub struct MemoryMapIter<'a> {
    pub data: &'a [u8],
    pub pos: usize,
    pub len: usize,
}

impl<'a> MemoryMapIter<'a> {
    /// The next descriptor: there is one while at least one stride of bytes
    /// is left.
    pub fn next(&mut self) -> (r: Option<MemoryDescriptor>)
        requires
            old(self).len >= MEMORY_DESCRIPTOR_SIZE,
            old(self).pos <= old(self).data@.len(),
        ensures
            final(self).data == old(self).data,
            final(self).len == old(self).len,
            final(self).pos <= final(self).data@.len(),
            if old(self).data@.len() - old(self).pos < old(self).len {
                r is None && final(self).pos == old(self).pos
            } else {
                r == Some(descriptor_at(old(self).data@, old(self).pos as int)) && final(self).pos
                    == old(self).pos + old(self).len
            },
    {
        if self.data.len() - self.pos < self.len {
            None
        } else {
            let d = read_descriptor(self.data, self.pos);
            self.pos = self.pos + self.len;
            Some(d)
        }
    }
}

/// Bit masks of the colour channels of a pixel.
#[derive(Copy, Clone, Debug, PartialEq, Eq, Structural)]
pub struct PixelBitmask {
    pub red_mask: u32,
    pub green_mask: u32,
    pub blue_mask: u32,
    pub reserved_mask: u32,
}

/// Layout of a pixel in the frame buffer.
#[derive(Copy, Clone, Debug, PartialEq, Eq, Structural)]
pub enum GraphicsPixelFormat {
    R8G8B8X8,
    B8G8R8X8,
    BitMask,
    BltOnly,
    Max,
}

/// A mode of a graphics output device.
#[derive(Copy, Clone, Debug, PartialEq, Eq, Structural)]
pub struct GraphicsOutputModeInformation {
    pub version: u32,
    pub horizontal_resolution: u32,
    pub vertical_resolution: u32,
    pub pixel_format: GraphicsPixelFormat,
    pub pixel_information: PixelBitmask,
    pub pixels_per_scan_line: u32,
}

/// The current mode of a graphics output device and its frame buffer.
#[derive(Copy, Clone, Debug)]
pub struct GraphicsOutputProtocolMode {
    pub max_mode: u32,
    pub mode: u32,
    pub info: GraphicsOutputModeInformation,
    pub size_of_info: u32,
    pub frame_buffer_base: u64,
    pub frame_buffer_size: usize,
}

/// A pixel of a block transfer.
#[derive(Copy, Clone, Debug, Default, PartialEq, Eq, Structural)]
pub struct GraphicsOutputBltPixel {
    pub blue: u8,
    pub green: u8,
    pub red: u8,
    pub reserved: u8,
}

impl GraphicsOutputBltPixel {
    /// The pixel of the colour `color`: red in the lowest byte, then green,
    /// then blue, then the reserved byte.
    pub fn from_rgba(color: u32) -> (r: Self)
        ensures
            r.red == color % 0x100,
            r.green == (color / 0x100) % 0x100,
            r.blue == (color / 0x10000) % 0x100,
            r.reserved == color / 0x1000000,
    {
        assert(color >> 16u32 & 0xFF == (color / 0x10000) % 0x100) by (bit_vector);
        assert(color >> 8u32 & 0xFF == (color / 0x100) % 0x100) by (bit_vector);
        assert(color & 0xFF == color % 0x100) by (bit_vector);
        assert(color >> 24u32 & 0xFF == color / 0x1000000) by (bit_vector);
        GraphicsOutputBltPixel {
            blue: (color >> 16u32 & 0xFF) as u8,
            green: (color >> 8u32 & 0xFF) as u8,
            red: (color & 0xFF) as u8,
            reserved: (color >> 24u32 & 0xFF) as u8,
        }
    }
}

/// Operation of a block transfer.
#[derive(Copy, Clone, Debug, PartialEq, Eq, Structural)]
pub enum GraphicsOutputBltOperation {
    VideoFill,
    VideoToBltBuffer,
    BufferToVideo,
    VideoToVideo,
    Max,
}

/// A point in time as the real-time clock keeps it.
#[derive(Copy, Clone, Debug, Default, PartialEq, Eq, Structural)]
pub struct Time {
    pub year: u16,
    pub month: u8,
    pub day: u8,
    pub hour: u8,
    pub minute: u8,
    pub second: u8,
    pub pad1: u8,
    pub nanosecond: u32,
    pub time_zone: i16,
    pub day_light: u8,
    pub pad2: u8,
}

/// What the real-time clock can do.
#[derive(Copy, Clone, Debug, Default, PartialEq, Eq, Structural)]
pub struct Capabilities {
    pub resolution: u32,
    pub accuracy: u32,
    pub sets_to_zero: bool,
}

/// Kind of a system reset.
#[derive(Copy, Clone, Debug, PartialEq, Eq, Structural)]
pub enum ResetType {
    Cold,
    Warm,
    Shutdown,
    PlatformSpecific,
}

/// An entry of the configuration table: a GUID and the address of the table
/// it names.
#[derive(Copy, Clone, Debug, PartialEq, Eq, Structural)]
pub struct ConfigurationTable {
    pub guid: u128,
    pub table: usize,
}

/// A table that a configuration table entry can name.
pub trait Table {
    /// The GUID that names the table.
    const GUID: u128;
}

impl ConfigurationTable {
    /// The address of the table when the entry names a table of type `T`.
    pub fn cast<T: Table>(&self) -> (r: Option<usize>)
        ensures
            r == if self.guid == T::GUID {
                Some(self.table)
            } else {
                None::<usize>
            },
    {
        if self.guid == T::GUID {
            Some(self.table)
        } else {
            None
        }
    }
}

/// A configuration table entry by kind, with the address of its table.
#[derive(Copy, Clone, Debug, PartialEq, Eq, Structural)]
pub enum CfgTable {
    Acpi10(usize),
    Acpi20(usize),
    SalSystem(usize),
    SmBios2(usize),
    SmBios3(usize),
    JsonConfigData(usize),
    JsonCapsuleData(usize),
    JsonCapsuleResult(usize),
    Other(usize),
}

/// The kind of the table a configuration table entry names.
pub open spec fn cfg_table_of(t: ConfigurationTable) -> CfgTable {
    if t.guid == ACPI_10_TABLE_GUID {
        CfgTable::Acpi10(t.table)
    } else if t.guid == ACPI_20_TABLE_GUID {
        CfgTable::Acpi20(t.table)
    } else if t.guid == SAL_SYSTEM_TABLE_GUID {
        CfgTable::SalSystem(t.table)
    } else if t.guid == SMBIOS_TABLE_GUID {
        CfgTable::SmBios2(t.table)
    } else if t.guid == SMBIOS3_TABLE_GUID {
        CfgTable::SmBios3(t.table)
    } else if t.guid == JSON_CONFIG_DATA_TABLE_GUID {
        CfgTable::JsonConfigData(t.table)
    } else if t.guid == JSON_CAPSULE_DATA_TABLE_GUID {
        CfgTable::JsonCapsuleData(t.table)
    } else if t.guid == JSON_CAPSULE_RESULT_TABLE_GUID {
        CfgTable::JsonCapsuleResult(t.table)
    } else {
        CfgTable::Other(t.table)
    }
}

impl CfgTable {
    /// Classifies a configuration table entry by its GUID.
    pub fn from_entry(table: ConfigurationTable) -> (r: Self)
        ensures
            r == cfg_table_of(table),
    {
        let g = table.guid;
        if g == ACPI_10_TABLE_GUID {
            CfgTable::Acpi10(table.table)
        } else if g == ACPI_20_TABLE_GUID {
            CfgTable::Acpi20(table.table)
        } else if g == SAL_SYSTEM_TABLE_GUID {
            CfgTable::SalSystem(table.table)
        } else if g == SMBIOS_TABLE_GUID {
            CfgTable::SmBios2(table.table)
        } else if g == SMBIOS3_TABLE_GUID {
            CfgTable::SmBios3(table.table)
        } else if g == JSON_CONFIG_DATA_TABLE_GUID {
            CfgTable::JsonConfigData(table.table)
        } else if g == JSON_CAPSULE_DATA_TABLE_GUID {
            CfgTable::JsonCapsuleData(table.table)
        } else if g == JSON_CAPSULE_RESULT_TABLE_GUID {
            CfgTable::JsonCapsuleResult(table.table)
        } else {
            CfgTable::Other(table.table)
        }
    }
}

/// Index of the first zero unit of `s` at or after `i`, or -1 when none.
pub open spec fn first_nul(s: Seq<u16>, i: int) -> int
    decreases s.len() - i,
{
    if i < 0 || i >= s.len() {
        -1
    } else if s[i] == 0 {
        i
    } else {
        first_nul(s, i + 1)
    }
}

/// Number of units of the string `s` that fit in `cap` bytes: up to its
/// terminating zero, at most `cap`.
pub open spec fn efi_str_len(s: Seq<u16>, cap: int) -> int {
    let z = first_nul(s, 0);
    if 0 <= z && z < cap {
        z
    } else {
        cap
    }
}

proof fn lemma_first_nul(s: Seq<u16>, i: int)
    requires
        0 <= i,
    ensures
        first_nul(s, i) == -1 || (i <= first_nul(s, i) < s.len() && s[first_nul(s, i)] == 0
            && forall|k: int| i <= k < first_nul(s, i) ==> s[k] != 0),
        first_nul(s, i) == -1 ==> forall|k: int| i <= k < s.len() ==> s[k] != 0,
    decreases s.len() - i,
{
    if i < s.len() && s[i] != 0 {
        lemma_first_nul(s, i + 1);
    }
}

/// The UTF-16 encoding of characters below 0x10000 is one unit per
/// character: its code.
proof fn lemma_utf16_single_units(s: Seq<char>)
    requires
        forall|i: int| 0 <= i < s.len() ==> (#[trigger] s[i] as u32) < 0x10000,
    ensures
        utf16(s).len() == s.len(),
        forall|i: int| 0 <= i < s.len() ==> #[trigger] utf16(s)[i] == (s[i] as u32) as u16,
    decreases s.len(),
{
    if s.len() > 0 {
        let t = s.drop_last();
        assert forall|i: int| 0 <= i < t.len() implies (#[trigger] t[i] as u32) < 0x10000 by {
            assert(t[i] == s[i]);
        }
        lemma_utf16_single_units(t);
        assert forall|i: int| 0 <= i < s.len() implies #[trigger] utf16(s)[i] == (s[i] as u32) as u16 by {
            if i < t.len() {
                assert(t[i] == s[i]);
            }
        }
    }
}

/// Writing a string of ASCII characters other than zero as a firmware
/// string (its encoding followed by a zero unit) and copying that back
/// into a buffer longer than the string gives the string's characters back
/// as bytes.
pub proof fn law_efi_str_round_trip(s: Seq<char>, units: Seq<u16>, cap: int)
    requires
        forall|i: int| 0 <= i < s.len() ==> 0 < (#[trigger] s[i] as u32) < 0x80,
        units.len() > utf16(s).len(),
        units.subrange(0, utf16(s).len() as int) == utf16(s),
        units[utf16(s).len() as int] == 0,
        cap > s.len(),
    ensures
        efi_str_len(units, cap) == s.len(),
        forall|i: int| 0 <= i < s.len() ==> (#[trigger] units[i]) as u8 == (s[i] as u32) as u8,
{
    lemma_utf16_single_units(s);
    let n = s.len() as int;
    assert forall|i: int| 0 <= i < n implies (#[trigger] units[i]) == (s[i] as u32) as u16 by {
        assert(units.subrange(0, n)[i] == units[i]);
    }
    lemma_first_nul(units, 0);
    let f = first_nul(units, 0);
    if f != n {
        if f == -1 {
            assert(units[n] != 0);
        } else if f < n {
            assert(units[f] == (s[f] as u32) as u16);
        } else {
            assert(units[n] != 0);
        }
    }
}

/// Copies the zero-terminated UCS-2 string `s` into `buf`, one byte (the low
/// byte) per unit, until its terminating zero or until `buf` is full, and
/// returns the number of bytes copied. Every unit up to the one that ends the
/// copy is read, so it must lie in `s`.
pub fn from_efi_str(s: &[u16], buf: &mut Vec<u8>) -> (len: usize)
    requires
        efi_str_len(s@, old(buf)@.len() as int) < s@.len(),
    ensures
        len == efi_str_len(s@, old(buf)@.len() as int),
        final(buf)@.len() == old(buf)@.len(),
        forall|i: int| 0 <= i < len ==> #[trigger] final(buf)@[i] == s@[i] as u8,
        forall|i: int| len <= i < old(buf)@.len() ==> #[trigger] final(buf)@[i] == old(buf)@[i],
{
    proof {
        lemma_first_nul(s@, 0);
    }
    let mut len: usize = 0;
    loop
        invariant
            len <= buf@.len(),
            buf@.len() == old(buf)@.len(),
            len <= efi_str_len(s@, old(buf)@.len() as int) < s@.len(),
            forall|k: int| 0 <= k < len ==> s@[k] != 0,
            first_nul(s@, 0) == -1 || (0 <= first_nul(s@, 0) < s@.len() && s@[first_nul(s@, 0)] == 0
                && forall|k: int| 0 <= k < first_nul(s@, 0) ==> s@[k] != 0),
            first_nul(s@, 0) == -1 ==> forall|k: int| 0 <= k < s@.len() ==> s@[k] != 0,
            forall|i: int| 0 <= i < len ==> #[trigger] buf@[i] == s@[i] as u8,
            forall|i: int| len <= i < old(buf)@.len() ==> #[trigger] buf@[i] == old(buf)@[i],
        decreases buf@.len() - len,
    {
        let ch = s[len];
        if ch == 0 || len == buf.len() {
            return len;
        }
        buf.set(len, ch as u8);
        len = len + 1;
    }
}

/// The UTF-16 code units of the character `c`.
pub open spec fn utf16_units(c: char) -> Seq<u16> {
    if (c as u32) < 0x10000 {
        seq![(c as u32) as u16]
    } else {
        seq![(0xD800 + ((c as u32 - 0x10000) / 0x400)) as u16, (0xDC00 + ((c as u32 - 0x10000) % 0x400)) as u16]
    }
}

/// The UTF-16 encoding of the characters `s`.
pub open spec fn utf16(s: Seq<char>) -> Seq<u16>
    decreases s.len(),
{
    if s.len() == 0 {
        Seq::empty()
    } else {
        utf16(s.drop_last()) + utf16_units(s.last())
    }
}

/// Writes the UTF-16 encoding of `s` followed by a zero unit into `buf`,
/// and returns the number of units of the encoding.
pub fn to_efi_str(s: &str, buf: &mut Vec<u16>) -> (len: usize)
    requires
        utf16(s@).len() < old(buf)@.len(),
    ensures
        len == utf16(s@).len(),
        final(buf)@.len() == old(buf)@.len(),
        final(buf)@.subrange(0, len as int) == utf16(s@),
        final(buf)@[len as int] == 0,
        forall|i: int| len < i < old(buf)@.len() ==> #[trigger] final(buf)@[i] == old(buf)@[i],
{
    broadcast use vstd::string::axiom_spec_iter;
    let mut len: usize = 0;
    let ghost mut done: Seq<char> = Seq::empty();
    let _ = buf.len();
    for ch in it: s.chars()
        invariant
            it.seq() == s@,
            buf@.len() == old(buf)@.len(),
            buf@.len() <= usize::MAX,
            utf16(s@).len() < buf@.len(),
            done == s@.subrange(0, it.index() as int),
            len == utf16(done).len(),
            buf@.subrange(0, len as int) == utf16(done),
            forall|i: int| len <= i < old(buf)@.len() ==> #[trigger] buf@[i] == old(buf)@[i],
    {
        let ghost next = s@.subrange(0, it.index() as int + 1);
        proof {
            lemma_utf16_prefix(s@, it.index() as int + 1);
            assert(next.drop_last() =~= done);
            assert(next.last() == ch);
            assert(utf16(next) == utf16(done) + utf16_units(ch));
        }
        let ghost before = buf@;
        let ghost len0 = len;
        let c = ch as u32;
        if c < 0x10000 {
            buf.set(len, c as u16);
            len = len + 1;
        } else {
            let v = c - 0x10000;
            buf.set(len, (0xD800 + v / 0x400) as u16);
            buf.set(len + 1, (0xDC00 + v % 0x400) as u16);
            len = len + 2;
        }
        proof {
            assert(buf@.subrange(0, len as int) =~= before.subrange(0, len0 as int) + utf16_units(ch));
            done = next;
        }
    }
    proof {
        assert(done =~= s@);
    }
    buf.set(len, 0);
    len
}

/// The encoding of a prefix is no longer than the encoding of the whole.
proof fn lemma_utf16_prefix(s: Seq<char>, k: int)
    requires
        0 <= k <= s.len(),
    ensures
        utf16(s.subrange(0, k)).len() <= utf16(s).len(),
    decreases s.len() - k,
{
    if k < s.len() {
        lemma_utf16_prefix(s, k + 1);
        assert(s.subrange(0, k + 1).drop_last() == s.subrange(0, k));
    } else {
        assert(s.subrange(0, k) == s);
    }
}

/// The system table, with the firmware vendor's name and the configuration
/// table read into memory.
pub struct SystemTable {
    pub header: TableHeader,
    pub vendor: Vec<u16>,
    pub firmware_revision: u32,
    pub configuration: Vec<ConfigurationTable>,
}

impl SystemTable {
    /// Copies the firmware vendor's name into `buf` (see `from_efi_str`) and
    /// returns its length.
    pub fn firmware_vendor(&self, buf: &mut Vec<u8>) -> (len: usize)
        requires
            efi_str_len(self.vendor@, old(buf)@.len() as int) < self.vendor@.len(),
        ensures
            len == efi_str_len(self.vendor@, old(buf)@.len() as int),
            final(buf)@.len() == old(buf)@.len(),
            forall|i: int| 0 <= i < len ==> #[trigger] final(buf)@[i] == self.vendor@[i] as u8,
            forall|i: int| len <= i < old(buf)@.len() ==> #[trigger] final(buf)@[i] == old(buf)@[i],
    {
        from_efi_str(self.vendor.as_slice(), buf)
    }

    /// The entries of the configuration table.
    pub fn configuration_table(&self) -> (r: &[ConfigurationTable])
        ensures
            r@ == self.configuration@,
    {
        self.configuration.as_slice()
    }
}

} // verus!
