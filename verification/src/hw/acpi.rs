//! ACPI: the root pointer, the description table header, the tables the
//! kernel reads and the walks over their entries.
use vstd::prelude::*;
use super::utils::{le16, le32, le64, read_le16, read_le32, read_le64, Ptr32, Ptr64};
use super::uefi::{ACPI_20_TABLE_GUID, Table as UefiTable};

verus! {

/// Size in bytes of the description table header.
pub const DESC_HEADER_SIZE: usize = 36;

/// AML byte code of a definition block.
pub struct AmlCode<'a>(pub &'a [u8]);

/// A table that can check the memory it is read from.
pub trait TableTrait {
    /// Whether `data` holds a valid table of this kind.
    fn validate(data: &[u8]) -> bool;
}

/// Root System Description Pointer.
#[derive(Copy, Clone)]
pub struct RSDP {
    /// "RSD PTR " (with the trailing blank).
    pub signature: [u8; 8],
    /// Checksum of the first 20 bytes.
    pub checksum: u8,
    /// OEM identification.
    pub oem_id: [u8; 6],
    /// Revision of the structure: 0 for ACPI 1.0, 2 from ACPI 2.0 on.
    pub revision: u8,
    /// 32-bit physical address of the RSDT.
    pub rsdt: Ptr32<RSDT>,
    /// Length of the structure (from revision 2 on).
    pub length: u32,
    /// 64-bit physical address of the XSDT.
    pub xsdt: Ptr64<XSDT>,
    /// Checksum of the whole structure.
    pub extended_checksum: u8,
    pub reserved: [u8; 3],
}

impl RSDP {
    /// The address of the RSDT, unless it is null.
    pub fn get_rsdt(&self) -> (r: Option<usize>)
        ensures
            r == if self.rsdt.0 == 0 {
                None::<usize>
            } else {
                Some(self.rsdt.0 as usize)
            },
    {
        if self.rsdt.0 == 0 {
            None
        } else {
            Some(self.rsdt.get())
        }
    }

    /// From revision 2 on, the 64-bit address of the XSDT, unless it is
    /// null.
    pub fn get_xsdt(&self) -> (r: Option<usize>)
        ensures
            r == if self.revision < 2 || self.xsdt.0 == 0 {
                None::<usize>
            } else {
                Some(self.xsdt.0 as usize)
            },
    {
        if self.revision < 2 || self.xsdt.0 == 0 {
            return None;
        }
        Some(self.xsdt.get())
    }
}

impl UefiTable for RSDP {
    const GUID: u128 = ACPI_20_TABLE_GUID;
}

/// A register in an address space.
#[derive(Copy, Clone, Debug, PartialEq, Eq, Structural)]
pub struct GenericAddress {
    pub address_space: u8,
    pub bit_width: u8,
    pub bit_offset: u8,
    pub access_size: u8,
    pub address: u64,
}

/// The generic address laid out at `off`.
pub open spec fn generic_address_at(s: Seq<u8>, off: int) -> GenericAddress {
    GenericAddress {
        address_space: s[off],
        bit_width: s[off + 1],
        bit_offset: s[off + 2],
        access_size: s[off + 3],
        address: le64(s, off + 4),
    }
}

/// Reads the generic address at `off`.
pub fn read_generic_address(data: &[u8], off: usize) -> (r: GenericAddress)
    requires
        off + 12 <= data@.len(),
    ensures
        r == generic_address_at(data@, off as int),
{
    GenericAddress {
        address_space: data[off],
        bit_width: data[off + 1],
        bit_offset: data[off + 2],
        access_size: data[off + 3],
        address: read_le64(data, off + 4),
    }
}

/// The address spaces a generic address can name.
#[derive(Copy, Clone, Debug, PartialEq, Eq, Structural)]
pub enum AddressSpace {
    SystemMemorySpace,
    SystemIoSpace,
    PciConfigurationSpace,
    EmbeddedController,
    SmBus,
    PlatformCommunicationsChannel,
    FunctionalFixedHardware,
}

/// The address space with code `c`.
pub open spec fn address_space_of(c: u8) -> Option<AddressSpace> {
    if c == 0 {
        Some(AddressSpace::SystemMemorySpace)
    } else if c == 1 {
        Some(AddressSpace::SystemIoSpace)
    } else if c == 2 {
        Some(AddressSpace::PciConfigurationSpace)
    } else if c == 3 {
        Some(AddressSpace::EmbeddedController)
    } else if c == 4 {
        Some(AddressSpace::SmBus)
    } else if c == 0xA {
        Some(AddressSpace::PlatformCommunicationsChannel)
    } else if c == 0x7F {
        Some(AddressSpace::FunctionalFixedHardware)
    } else {
        None
    }
}

impl AddressSpace {
    /// The address space with code `c`, if it is one.
    pub fn from_code(c: u8) -> (r: Option<Self>)
        ensures
            r == address_space_of(c),
    {
        match c {
            0 => Some(AddressSpace::SystemMemorySpace),
            1 => Some(AddressSpace::SystemIoSpace),
            2 => Some(AddressSpace::PciConfigurationSpace),
            3 => Some(AddressSpace::EmbeddedController),
            4 => Some(AddressSpace::SmBus),
            0xA => Some(AddressSpace::PlatformCommunicationsChannel),
            0x7F => Some(AddressSpace::FunctionalFixedHardware),
            _ => None,
        }
    }

    /// The code of the address space.
    pub fn code(self) -> (r: u8)
        ensures
            address_space_of(r) == Some(self),
    {
        match self {
            AddressSpace::SystemMemorySpace => 0,
            AddressSpace::SystemIoSpace => 1,
            AddressSpace::PciConfigurationSpace => 2,
            AddressSpace::EmbeddedController => 3,
            AddressSpace::SmBus => 4,
            AddressSpace::PlatformCommunicationsChannel => 0xA,
            AddressSpace::FunctionalFixedHardware => 0x7F,
        }
    }
}

/// The header every description table starts with.
#[derive(Copy, Clone, Default)]
pub struct DescHeader {
    /// The table identifier, its four ASCII letters in memory order.
    pub signature: u32,
    /// Length of the whole table in bytes, header included.
    pub length: u32,
    pub revision: u8,
    pub checksum: u8,
    pub oem_id: [u8; 6],
    pub oem_table_id: [u8; 8],
    pub oem_revision: u32,
    pub creator_id: u32,
    pub creator_revision: u32,
}

/// The signature whose bytes in memory are `a b c d`.
pub open spec fn sig(a: u8, b: u8, c: u8, d: u8) -> u32 {
    (a as int + b as int * 0x100 + c as int * 0x10000 + d as int * 0x1000000) as u32
}

pub const SIG_APIC: u32 = 0x4349_5041;
pub const SIG_BERT: u32 = 0x5452_4542;
pub const SIG_BGRT: u32 = 0x5452_4742;
pub const SIG_CPEP: u32 = 0x5045_5043;
pub const SIG_ECDT: u32 = 0x5444_4345;
pub const SIG_FACP: u32 = 0x5043_4146;
pub const SIG_FACS: u32 = 0x5343_4146;
pub const SIG_RSDT: u32 = 0x5444_5352;
pub const SIG_SBST: u32 = 0x5453_4253;
pub const SIG_SLIT: u32 = 0x5449_4C53;
pub const SIG_SRAT: u32 = 0x5441_5253;
pub const SIG_XSDT: u32 = 0x5444_5358;
pub const SIG_HPET: u32 = 0x5445_5048;
pub const SIG_MCFG: u32 = 0x4746_434D;
pub const SIG_BOOT: u32 = 0x544F_4F42;

/// The signatures are the ASCII names of the tables in memory order.
pub proof fn lemma_signatures()
    ensures
        SIG_APIC == sig(0x41, 0x50, 0x49, 0x43),
        SIG_BERT == sig(0x42, 0x45, 0x52, 0x54),
        SIG_BGRT == sig(0x42, 0x47, 0x52, 0x54),
        SIG_CPEP == sig(0x43, 0x50, 0x45, 0x50),
        SIG_ECDT == sig(0x45, 0x43, 0x44, 0x54),
        SIG_FACP == sig(0x46, 0x41, 0x43, 0x50),
        SIG_FACS == sig(0x46, 0x41, 0x43, 0x53),
        SIG_RSDT == sig(0x52, 0x53, 0x44, 0x54),
        SIG_SBST == sig(0x53, 0x42, 0x53, 0x54),
        SIG_SLIT == sig(0x53, 0x4C, 0x49, 0x54),
        SIG_SRAT == sig(0x53, 0x52, 0x41, 0x54),
        SIG_XSDT == sig(0x58, 0x53, 0x44, 0x54),
        SIG_HPET == sig(0x48, 0x50, 0x45, 0x54),
        SIG_MCFG == sig(0x4D, 0x43, 0x46, 0x47),
        SIG_BOOT == sig(0x42, 0x4F, 0x4F, 0x54),
{
}

/// A description table by kind, with the address of its header.
#[derive(Copy, Clone, Debug, PartialEq, Eq, Structural)]
pub enum Table {
    Apic(usize),
    Bert(usize),
    Bgrt(usize),
    Cpep(usize),
    Dsdt(usize),
    Ecdt(usize),
    Fadt(usize),
    Facs(usize),
    OemX(usize),
    Rsdt(usize),
    Sbst(usize),
    Slit(usize),
    Srat(usize),
    Xsdt(usize),
    Boot,
    Hpet(usize),
    Mcfg(usize),
    Other(usize),
}

/// The kind of the table with signature `s` whose header is at `addr`;
/// signatures starting with "OEM" are OEM tables.
pub open spec fn table_of(s: u32, addr: usize) -> Table {
    if s == SIG_APIC {
        Table::Apic(addr)
    } else if s == SIG_BERT {
        Table::Bert(addr)
    } else if s == SIG_BGRT {
        Table::Bgrt(addr)
    } else if s == SIG_CPEP {
        Table::Cpep(addr)
    } else if s == SIG_ECDT {
        Table::Ecdt(addr)
    } else if s == SIG_FACP {
        Table::Fadt(addr)
    } else if s == SIG_FACS {
        Table::Facs(addr)
    } else if s == SIG_RSDT {
        Table::Rsdt(addr)
    } else if s == SIG_SBST {
        Table::Sbst(addr)
    } else if s == SIG_SLIT {
        Table::Slit(addr)
    } else if s == SIG_SRAT {
        Table::Srat(addr)
    } else if s == SIG_XSDT {
        Table::Xsdt(addr)
    } else if s == SIG_HPET {
        Table::Hpet(addr)
    } else if s == SIG_MCFG {
        Table::Mcfg(addr)
    } else if s == SIG_BOOT {
        Table::Boot
    } else if s % 0x100_0000 == 0x4D_454F {
        Table::OemX(addr)
    } else {
        Table::Other(addr)
    }
}

/// The description table header laid out at `off`.
pub open spec fn desc_header_at(s: Seq<u8>, off: int) -> DescHeader {
    DescHeader {
        signature: le32(s, off),
        length: le32(s, off + 4),
        revision: s[off + 8],
        checksum: s[off + 9],
        oem_id: [s[off + 10], s[off + 11], s[off + 12], s[off + 13], s[off + 14], s[off + 15]],
        oem_table_id: [s[off + 16], s[off + 17], s[off + 18], s[off + 19], s[off + 20], s[off + 21],
            s[off + 22], s[off + 23]],
        oem_revision: le32(s, off + 24),
        creator_id: le32(s, off + 28),
        creator_revision: le32(s, off + 32),
    }
}

impl DescHeader {
    /// Reads the header at the start of `data`.
    pub fn read(data: &[u8]) -> (r: Self)
        requires
            DESC_HEADER_SIZE <= data@.len(),
        ensures
            r == desc_header_at(data@, 0),
    {
        let r = DescHeader {
            signature: read_le32(data, 0),
            length: read_le32(data, 4),
            revision: data[8],
            checksum: data[9],
            oem_id: [data[10], data[11], data[12], data[13], data[14], data[15]],
            oem_table_id: [data[16], data[17], data[18], data[19], data[20], data[21], data[22], data[23]],
            oem_revision: read_le32(data, 24),
            creator_id: read_le32(data, 28),
            creator_revision: read_le32(data, 32),
        };
        assert(r.oem_id =~= desc_header_at(data@, 0).oem_id);
        assert(r.oem_table_id =~= desc_header_at(data@, 0).oem_table_id);
        r
    }

    /// The kind of the table this header (read at `addr`) opens, by its
    /// signature (see `table_of`).
    pub fn to_table(&self, addr: usize) -> (r: Table)
        ensures
            r == table_of(self.signature, addr),
    {
        let s = self.signature;
        if s == SIG_APIC {
            Table::Apic(addr)
        } else if s == SIG_BERT {
            Table::Bert(addr)
        } else if s == SIG_BGRT {
            Table::Bgrt(addr)
        } else if s == SIG_CPEP {
            Table::Cpep(addr)
        } else if s == SIG_ECDT {
            Table::Ecdt(addr)
        } else if s == SIG_FACP {
            Table::Fadt(addr)
        } else if s == SIG_FACS {
            Table::Facs(addr)
        } else if s == SIG_RSDT {
            Table::Rsdt(addr)
        } else if s == SIG_SBST {
            Table::Sbst(addr)
        } else if s == SIG_SLIT {
            Table::Slit(addr)
        } else if s == SIG_SRAT {
            Table::Srat(addr)
        } else if s == SIG_XSDT {
            Table::Xsdt(addr)
        } else if s == SIG_HPET {
            Table::Hpet(addr)
        } else if s == SIG_MCFG {
            Table::Mcfg(addr)
        } else if s == SIG_BOOT {
            Table::Boot
        } else if s % 0x100_0000 == 0x4D_454F {
            Table::OemX(addr)
        } else {
            Table::Other(addr)
        }
    }
}

/// Number of entries of `size` bytes after a header and `extra` more bytes
/// in a table of `length` bytes.
pub open spec fn entry_count(length: u32, extra: int, size: int) -> int {
    (length - DESC_HEADER_SIZE - extra) / size
}

/// Root System Description Table: a header and 32-bit table addresses.
pub struct RSDT {
    pub header: DescHeader,
    pub entries: Vec<u32>,
}

impl RSDT {
    /// The addresses the table lists: as many as its length holds.
    pub fn iter(&self) -> (r: RsdtEntryIter)
        requires
            self.header.length >= DESC_HEADER_SIZE,
            entry_count(self.header.length, 0, 4) <= self.entries@.len(),
        ensures
            r.entries@ == self.entries@.subrange(0, entry_count(self.header.length, 0, 4)),
            r.pos == 0,
    {
        let n = (self.header.length as usize - DESC_HEADER_SIZE) / 4;
        let mut entries: Vec<u32> = Vec::new();
        let mut i: usize = 0;
        while i < n
            invariant
                i <= n <= self.entries@.len(),
                entries@ == self.entries@.subrange(0, i as int),
            decreases n - i,
        {
            entries.push(self.entries[i]);
            i = i + 1;
            assert(entries@ =~= self.entries@.subrange(0, i as int));
        }
        RsdtEntryIter { entries, pos: 0 }
    }
}

/// Iterator over the table addresses of an RSDT.
pub struct RsdtEntryIter {
    pub entries: Vec<u32>,
    pub pos: usize,
}

impl RsdtEntryIter {
    /// The address of the next table.
    pub fn next(&mut self) -> (r: Option<usize>)
        ensures
            final(self).entries@ == old(self).entries@,
            if old(self).pos < old(self).entries@.len() {
                r == Some(old(self).entries@[old(self).pos as int] as usize) && final(self).pos == old(
                    self,
                ).pos + 1
            } else {
                r is None && final(self).pos == old(self).pos
            },
    {
        if self.pos < self.entries.len() {
            let a = self.entries[self.pos];
            self.pos = self.pos + 1;
            Some(a as usize)
        } else {
            None
        }
    }
}

/// Extended System Description Table: a header and 64-bit table addresses.
pub struct XSDT {
    pub header: DescHeader,
    pub entries: Vec<u64>,
}

impl XSDT {
    /// The addresses the table lists: as many as its length holds.
    pub fn iter(&self) -> (r: XsdtEntryIter)
        requires
            self.header.length >= DESC_HEADER_SIZE,
            entry_count(self.header.length, 0, 8) <= self.entries@.len(),
        ensures
            r.entries@ == self.entries@.subrange(0, entry_count(self.header.length, 0, 8)),
            r.pos == 0,
    {
        let n = (self.header.length as usize - DESC_HEADER_SIZE) / 8;
        let mut entries: Vec<u64> = Vec::new();
        let mut i: usize = 0;
        while i < n
            invariant
                i <= n <= self.entries@.len(),
                entries@ == self.entries@.subrange(0, i as int),
            decreases n - i,
        {
            entries.push(self.entries[i]);
            i = i + 1;
            assert(entries@ =~= self.entries@.subrange(0, i as int));
        }
        XsdtEntryIter { entries, pos: 0 }
    }
}

/// Iterator over the table addresses of an XSDT.
pub struct XsdtEntryIter {
    pub entries: Vec<u64>,
    pub pos: usize,
}

impl XsdtEntryIter {
    /// The address of the next table.
    pub fn next(&mut self) -> (r: Option<u64>)
        ensures
            final(self).entries@ == old(self).entries@,
            if old(self).pos < old(self).entries@.len() {
                r == Some(old(self).entries@[old(self).pos as int]) && final(self).pos == old(self).pos
                    + 1
            } else {
                r is None && final(self).pos == old(self).pos
            },
    {
        if self.pos < self.entries.len() {
            let a = self.entries[self.pos];
            self.pos = self.pos + 1;
            Some(a)
        } else {
            None
        }
    }
}

/// Fixed ACPI Description Table.
#[derive(Copy, Clone)]
pub struct FADT {
    pub header: DescHeader,
    pub firmware_ctrl: u32,
    pub dsdt: Ptr32<DSDT>,
    pub _res0: u8,
    pub preferred_pm_profile: u8,
    pub sci_int: u16,
    pub smi_cmd: u32,
    pub acpi_enable: u8,
    pub acpi_disable: u8,
    pub s4bios_req: u8,
    pub pstate_cnt: u8,
    pub pm1a_evt_blk: u32,
    pub pm1b_evt_blk: u32,
    pub pm1a_cnt_blk: u32,
    pub pm1b_cnt_blk: u32,
    pub pm2_cnt_blk: u32,
    pub pm_tmr_blk: u32,
    pub cpe0_blk: u32,
    pub cpe1_blk: u32,
    pub pm1_evt_len: u8,
    pub pm1_cnt_len: u8,
    pub pm2_cnt_len: u8,
    pub pm_tmr_lem: u8,
    pub gpe0_blk_len: u8,
    pub gpe1_blk_len: u8,
    pub gpe1_base: u8,
    pub cst_cnt: u8,
    pub p_lvl2_lat: u16,
    pub p_lvl3_lat: u16,
    pub flush_size: u16,
    pub flush_stride: u16,
    pub duty_offset: u8,
    pub duty_width: u8,
    pub day_alrm: u8,
    pub mon_alrm: u8,
    pub century: u8,
    pub iapc_boot_arch: u16,
    pub _res1: u8,
    pub flags: u32,
    pub reset_reg: GenericAddress,
    pub reset_value: u8,
    pub arm_boot_arch: u16,
    pub fadt_minor_version: u8,
    pub x_firmware_ctrl: u64,
    pub x_dsdt: Ptr64<DSDT>,
    pub x_pm1a_evt_blk: GenericAddress,
    pub x_pm1b_evt_blk: GenericAddress,
    pub x_pm1a_cnt_blk: GenericAddress,
    pub x_pm1b_cnt_blk: GenericAddress,
    pub x_pm2_cnt_blk: GenericAddress,
    pub x_pm_tmr_blk: GenericAddress,
    pub x_gpe0_blk: GenericAddress,
    pub x_gpe1_blk: GenericAddress,
    pub sleep_control_reg: GenericAddress,
    pub sleep_status_reg: GenericAddress,
    pub hypervisor_vendor_id: u64,
}

impl FADT {
    /// The address of the FACS: the 32-bit one unless it is zero, then the
    /// 64-bit one from revision 2 on unless it is zero.
    pub fn firmware_ctrl(&self) -> (r: Option<u64>)
        ensures
            r == if self.firmware_ctrl != 0 {
                Some(self.firmware_ctrl as u64)
            } else if self.x_firmware_ctrl != 0 && self.header.revision >= 2 {
                Some(self.x_firmware_ctrl)
            } else {
                None::<u64>
            },
    {
        if self.firmware_ctrl != 0 {
            Some(self.firmware_ctrl as u64)
        } else if self.x_firmware_ctrl != 0 && self.header.revision >= 2 {
            Some(self.x_firmware_ctrl)
        } else {
            None
        }
    }

    /// The address of the DSDT: the 32-bit one unless it is zero, then the
    /// 64-bit one from revision 2 on unless it is zero.
    pub fn dsdt(&self) -> (r: Option<u64>)
        ensures
            r == if self.dsdt.0 != 0 {
                Some(self.dsdt.0 as u64)
            } else if self.x_dsdt.0 != 0 && self.header.revision >= 2 {
                Some(self.x_dsdt.0)
            } else {
                None::<u64>
            },
    {
        if self.dsdt.0 != 0 {
            Some(self.dsdt.0 as u64)
        } else if self.x_dsdt.0 != 0 && self.header.revision >= 2 {
            Some(self.x_dsdt.0)
        } else {
            None
        }
    }
}

/// Multiple APIC Description Table: a header, the local interrupt
/// controller address, flags and the interrupt controller structures.
pub struct MADT {
    pub header: DescHeader,
    pub local_interrupt_controller_addr: Ptr32<()>,
    pub flags: u32,
    pub interrupt_controllers: Vec<u8>,
}

impl MADT {
    /// The interrupt controller structures: as many bytes as the table's
    /// length leaves after the header and the two fields.
    pub fn iter(&self) -> (r: MadtEntryIter<'_>)
        requires
            self.header.length >= DESC_HEADER_SIZE + 8,
            self.header.length - DESC_HEADER_SIZE - 8 <= self.interrupt_controllers@.len(),
        ensures
            r.data@ == self.interrupt_controllers@.subrange(0, self.header.length - DESC_HEADER_SIZE - 8),
            r.pos == 0,
    {
        let n = self.header.length as usize - DESC_HEADER_SIZE - 8;
        MadtEntryIter { data: vstd::slice::slice_subrange(self.interrupt_controllers.as_slice(), 0, n), pos: 0 }
    }
}

/// Iterator over the interrupt controller structures of a MADT.
pub struct MadtEntryIter<'a> {
    pub data: &'a [u8],
    pub pos: usize,
}

/// The structure at `pos` of `s` is whole: it has its type and length
/// bytes, and its length does not run past the end.
pub open spec fn madt_entry_fits(s: Seq<u8>, pos: int) -> bool {
    pos < s.len() ==> pos + 2 <= s.len() && pos + s[pos + 1] <= s.len()
}

impl<'a> MadtEntryIter<'a> {
    /// The next structure, as its type and the position of its first byte;
    /// the walk moves on by the structure's length byte.
    pub fn next(&mut self) -> (r: Option<(u8, usize)>)
        requires
            old(self).pos <= old(self).data@.len(),
            madt_entry_fits(old(self).data@, old(self).pos as int),
        ensures
            final(self).data == old(self).data,
            final(self).pos <= final(self).data@.len(),
            if old(self).pos == old(self).data@.len() {
                r is None && final(self).pos == old(self).pos
            } else {
                r == Some((old(self).data@[old(self).pos as int], old(self).pos)) && final(self).pos
                    == old(self).pos + old(self).data@[old(self).pos + 1]
            },
    {
        if self.pos == self.data.len() {
            return None;
        }
        let p = self.pos;
        let t = self.data[p];
        let len = self.data[p + 1];
        self.pos = p + len as usize;
        Some((t, p))
    }
}

#[derive(Copy, Clone, Default, Debug, PartialEq, Eq, Structural)]
pub struct MadtProcessorLocalApic {
    pub length: u8,
    pub acpi_processor_uid: u8,
    pub apic_id: u8,
    pub flags: u32,
}

#[derive(Copy, Clone, Default, Debug, PartialEq, Eq, Structural)]
pub struct MadtIoApic {
    pub length: u8,
    pub io_apic_id: u8,
    pub _res0: u8,
    pub io_apic_addr: u32,
    pub global_system_int_base: u32,
}

#[derive(Copy, Clone, Default, Debug, PartialEq, Eq, Structural)]
pub struct MadtInterruptSourceOverride {
    pub length: u8,
    pub bus: u8,
    pub source: u8,
    pub global_system_int: u32,
    pub flags: u16,
}

#[derive(Copy, Clone, Default, Debug, PartialEq, Eq, Structural)]
pub struct MadtNonMaskableInterruptSource {
    pub length: u8,
    pub flags: u16,
    pub global_system_int: u32,
}

#[derive(Copy, Clone, Default, Debug, PartialEq, Eq, Structural)]
pub struct MadtLocalApicNmi {
    pub length: u8,
    pub acpi_processor_uid: u8,
    pub flags: u16,
    pub local_apic_lint: u8,
}

#[derive(Copy, Clone, Default, Debug, PartialEq, Eq, Structural)]
pub struct MadtLocalApicAddressOverride {
    pub length: u8,
    pub _res0: u16,
    pub local_apic_addr: u64,
}

#[derive(Copy, Clone, Default, Debug, PartialEq, Eq, Structural)]
pub struct MadtIoSapic {
    pub length: u8,
    pub io_apic_id: u8,
    pub _res0: u8,
    pub global_system_int_base: u32,
    pub io_sapic_addr: u64,
}

/// A local SAPIC; its processor UID string follows the fixed fields.
#[derive(Copy, Clone, Default, Debug, PartialEq, Eq)]
pub struct MadtLocalSapic {
    pub length: u8,
    pub acpi_processor_id: u8,
    pub local_sapic_id: u8,
    pub local_sapic_sid: u8,
    pub _res0: [u8; 3],
    pub flags: u32,
    pub acpi_processor_uid_val: u32,
}

#[derive(Copy, Clone, Default, Debug, PartialEq, Eq, Structural)]
pub struct MadtPlatformInterruptSource {
    pub length: u8,
    pub flags: u16,
    pub interrupt_type: u8,
    pub processor_id: u8,
    pub processor_eid: u8,
    pub io_sapic_vector: u8,
    pub global_system_int: u8,
    pub platform_int_src_flags: u32,
}

#[derive(Copy, Clone, Default, Debug, PartialEq, Eq, Structural)]
pub struct MadtProcessorLocalX2Apic {
    pub length: u8,
    pub _res0: u16,
    pub x2_apic: u32,
    pub flags: u32,
    pub acpi_processor_uid: u32,
}

#[derive(Copy, Clone, Default, Debug, PartialEq, Eq)]
pub struct MadtLocalX2ApicNmi {
    pub length: u8,
    pub flags: u16,
    pub acpi_processor_uid: u32,
    pub local_x2_apic_lint: u8,
    pub _res0: [u8; 3],
}

#[derive(Copy, Clone, Default, Debug, PartialEq, Eq)]
pub struct MadtGicCpuInterface {
    pub length: u8,
    pub _res0: u16,
    pub cpu_interface_number: u32,
    pub acpi_processor_uid: u32,
    pub flags: u32,
    pub parking_protocol_version: u32,
    pub performance_int_gisv: u32,
    pub parked_addr: u64,
    pub physical_base_addr: u64,
    pub gicv: u64,
    pub gich: u64,
    pub vgic_maintenance_int: u32,
    pub gicr_base_addr: u64,
    pub mpidr: u64,
    pub processor_power_efficiency_class: u8,
    pub _res1: [u8; 3],
}

#[derive(Copy, Clone, Default, Debug, PartialEq, Eq)]
pub struct MadtGicDistributorInterface {
    pub length: u8,
    pub _res0: u16,
    pub gic_id: u32,
    pub physical_base_addr: u64,
    pub system_vector_base: u32,
    pub gic_version: u8,
    pub _res1: [u8; 3],
}

#[derive(Copy, Clone, Default, Debug, PartialEq, Eq, Structural)]
pub struct MadtGicMsiFrame {
    pub length: u8,
    pub _res0: u16,
    pub gic_msi_frame_id: u32,
    pub physical_base_addr: u64,
    pub flags: u32,
    pub spi_count: u16,
    pub spi_base: u16,
}

#[derive(Copy, Clone, Default, Debug, PartialEq, Eq, Structural)]
pub struct MadtGicRedistributor {
    pub length: u8,
    pub _res0: u16,
    pub discovery_range_base_addr: u64,
    pub discovery_range_length: u32,
}

#[derive(Copy, Clone, Default, Debug, PartialEq, Eq, Structural)]
pub struct MadtGicInterruptTranslationService {
    pub length: u8,
    pub _res0: u16,
    pub gic_its_id: u32,
    pub physical_base_addr: u64,
    pub _res1: u32,
}

/// An interrupt controller structure of a MADT, by its type byte.
#[derive(Copy, Clone, Debug, PartialEq, Eq)]
pub enum MadtInterruptController {
    ProcessorLocalApic(MadtProcessorLocalApic),
    IoApic(MadtIoApic),
    InterruptSourceOverride(MadtInterruptSourceOverride),
    NonMaskableInterruptSource(MadtNonMaskableInterruptSource),
    LocalApicNmi(MadtLocalApicNmi),
    LocalApicAddressOverride(MadtLocalApicAddressOverride),
    IoSapic(MadtIoSapic),
    LocalSapic(MadtLocalSapic),
    PlatformInterruptSource(MadtPlatformInterruptSource),
    ProcessorLocalX2Apic(MadtProcessorLocalX2Apic),
    LocalX2ApicNmi(MadtLocalX2ApicNmi),
    GicCpuInterface(MadtGicCpuInterface),
    GicDistributorInterface(MadtGicDistributorInterface),
    GicMsiFrame(MadtGicMsiFrame),
    GicRedistributor(MadtGicRedistributor),
    GicInterruptTranslationService(MadtGicInterruptTranslationService),
}

/// Number of bytes the fields of the structure of type `t` take, type
/// byte included; 0 for the types this library does not know.
pub open spec fn madt_entry_size(t: u8) -> int {
    if t == 0 {
        8
    } else if t == 1 {
        12
    } else if t == 2 {
        10
    } else if t == 3 {
        8
    } else if t == 4 {
        6
    } else if t == 5 {
        12
    } else if t == 6 {
        16
    } else if t == 7 {
        16
    } else if t == 8 {
        16
    } else if t == 9 {
        16
    } else if t == 10 {
        12
    } else if t == 11 {
        80
    } else if t == 12 {
        24
    } else if t == 13 {
        24
    } else if t == 14 {
        16
    } else if t == 15 {
        20
    } else {
        0
    }
}

/// The interrupt controller structure at `p` of `s`: its type byte, then
/// its fields packed; `None` for the types this library does not know.
pub open spec fn madt_entry_at(s: Seq<u8>, p: int) -> Option<MadtInterruptController> {
    let t = s[p];
    let q = p + 1;
    if t == 0 {
        Some(MadtInterruptController::ProcessorLocalApic(MadtProcessorLocalApic {
            length: s[q], acpi_processor_uid: s[q + 1], apic_id: s[q + 2], flags: le32(s, q + 3),
        }))
    } else if t == 1 {
        Some(MadtInterruptController::IoApic(MadtIoApic {
            length: s[q], io_apic_id: s[q + 1], _res0: s[q + 2], io_apic_addr: le32(s, q + 3),
            global_system_int_base: le32(s, q + 7),
        }))
    } else if t == 2 {
        Some(MadtInterruptController::InterruptSourceOverride(MadtInterruptSourceOverride {
            length: s[q], bus: s[q + 1], source: s[q + 2], global_system_int: le32(s, q + 3),
            flags: le16(s, q + 7),
        }))
    } else if t == 3 {
        Some(MadtInterruptController::NonMaskableInterruptSource(MadtNonMaskableInterruptSource {
            length: s[q], flags: le16(s, q + 1), global_system_int: le32(s, q + 3),
        }))
    } else if t == 4 {
        Some(MadtInterruptController::LocalApicNmi(MadtLocalApicNmi {
            length: s[q], acpi_processor_uid: s[q + 1], flags: le16(s, q + 2), local_apic_lint: s[q + 4],
        }))
    } else if t == 5 {
        Some(MadtInterruptController::LocalApicAddressOverride(MadtLocalApicAddressOverride {
            length: s[q], _res0: le16(s, q + 1), local_apic_addr: le64(s, q + 3),
        }))
    } else if t == 6 {
        Some(MadtInterruptController::IoSapic(MadtIoSapic {
            length: s[q], io_apic_id: s[q + 1], _res0: s[q + 2], global_system_int_base: le32(s, q + 3),
            io_sapic_addr: le64(s, q + 7),
        }))
    } else if t == 7 {
        Some(MadtInterruptController::LocalSapic(MadtLocalSapic {
            length: s[q], acpi_processor_id: s[q + 1], local_sapic_id: s[q + 2], local_sapic_sid: s[q + 3],
            _res0: [s[q + 4], s[q + 5], s[q + 6]], flags: le32(s, q + 7), acpi_processor_uid_val: le32(s, q + 11),
        }))
    } else if t == 8 {
        Some(MadtInterruptController::PlatformInterruptSource(MadtPlatformInterruptSource {
            length: s[q], flags: le16(s, q + 1), interrupt_type: s[q + 3], processor_id: s[q + 4],
            processor_eid: s[q + 5], io_sapic_vector: s[q + 6], global_system_int: s[q + 7],
            platform_int_src_flags: le32(s, q + 8),
        }))
    } else if t == 9 {
        Some(MadtInterruptController::ProcessorLocalX2Apic(MadtProcessorLocalX2Apic {
            length: s[q], _res0: le16(s, q + 1), x2_apic: le32(s, q + 3), flags: le32(s, q + 7),
            acpi_processor_uid: le32(s, q + 11),
        }))
    } else if t == 10 {
        Some(MadtInterruptController::LocalX2ApicNmi(MadtLocalX2ApicNmi {
            length: s[q], flags: le16(s, q + 1), acpi_processor_uid: le32(s, q + 3), local_x2_apic_lint: s[q + 7],
            _res0: [s[q + 8], s[q + 9], s[q + 10]],
        }))
    } else if t == 11 {
        Some(MadtInterruptController::GicCpuInterface(MadtGicCpuInterface {
            length: s[q], _res0: le16(s, q + 1), cpu_interface_number: le32(s, q + 3),
            acpi_processor_uid: le32(s, q + 7), flags: le32(s, q + 11), parking_protocol_version: le32(s, q + 15),
            performance_int_gisv: le32(s, q + 19), parked_addr: le64(s, q + 23), physical_base_addr: le64(s, q + 31),
            gicv: le64(s, q + 39), gich: le64(s, q + 47), vgic_maintenance_int: le32(s, q + 55),
            gicr_base_addr: le64(s, q + 59), mpidr: le64(s, q + 67), processor_power_efficiency_class: s[q + 75],
            _res1: [s[q + 76], s[q + 77], s[q + 78]],
        }))
    } else if t == 12 {
        Some(MadtInterruptController::GicDistributorInterface(MadtGicDistributorInterface {
            length: s[q], _res0: le16(s, q + 1), gic_id: le32(s, q + 3), physical_base_addr: le64(s, q + 7),
            system_vector_base: le32(s, q + 15), gic_version: s[q + 19], _res1: [s[q + 20], s[q + 21], s[q + 22]],
        }))
    } else if t == 13 {
        Some(MadtInterruptController::GicMsiFrame(MadtGicMsiFrame {
            length: s[q], _res0: le16(s, q + 1), gic_msi_frame_id: le32(s, q + 3), physical_base_addr: le64(s, q + 7),
            flags: le32(s, q + 15), spi_count: le16(s, q + 19), spi_base: le16(s, q + 21),
        }))
    } else if t == 14 {
        Some(MadtInterruptController::GicRedistributor(MadtGicRedistributor {
            length: s[q], _res0: le16(s, q + 1), discovery_range_base_addr: le64(s, q + 3),
            discovery_range_length: le32(s, q + 11),
        }))
    } else if t == 15 {
        Some(MadtInterruptController::GicInterruptTranslationService(MadtGicInterruptTranslationService {
            length: s[q], _res0: le16(s, q + 1), gic_its_id: le32(s, q + 3), physical_base_addr: le64(s, q + 7),
            _res1: le32(s, q + 15),
        }))
    } else {
        None
    }
}

/// Reads the interrupt controller structure at `p` (see `madt_entry_at`).
pub fn read_madt_entry(data: &[u8], p: usize) -> (r: Option<MadtInterruptController>)
    requires
        p < data@.len(),
        p + madt_entry_size(data@[p as int]) <= data@.len(),
    ensures
        r == madt_entry_at(data@, p as int),
{
    let t = data[p];
    if t > 15 {
        return None;
    }
    let q = p + 1;
    if t == 0 {
        Some(MadtInterruptController::ProcessorLocalApic(MadtProcessorLocalApic {
            length: data[q], acpi_processor_uid: data[q + 1], apic_id: data[q + 2], flags: read_le32(data, q + 3),
        }))
    } else if t == 1 {
        Some(MadtInterruptController::IoApic(MadtIoApic {
            length: data[q], io_apic_id: data[q + 1], _res0: data[q + 2], io_apic_addr: read_le32(data, q + 3),
            global_system_int_base: read_le32(data, q + 7),
        }))
    } else if t == 2 {
        Some(MadtInterruptController::InterruptSourceOverride(MadtInterruptSourceOverride {
            length: data[q], bus: data[q + 1], source: data[q + 2], global_system_int: read_le32(data, q + 3),
            flags: read_le16(data, q + 7),
        }))
    } else if t == 3 {
        Some(MadtInterruptController::NonMaskableInterruptSource(MadtNonMaskableInterruptSource {
            length: data[q], flags: read_le16(data, q + 1), global_system_int: read_le32(data, q + 3),
        }))
    } else if t == 4 {
        Some(MadtInterruptController::LocalApicNmi(MadtLocalApicNmi {
            length: data[q], acpi_processor_uid: data[q + 1], flags: read_le16(data, q + 2),
            local_apic_lint: data[q + 4],
        }))
    } else if t == 5 {
        Some(MadtInterruptController::LocalApicAddressOverride(MadtLocalApicAddressOverride {
            length: data[q], _res0: read_le16(data, q + 1), local_apic_addr: read_le64(data, q + 3),
        }))
    } else if t == 6 {
        Some(MadtInterruptController::IoSapic(MadtIoSapic {
            length: data[q], io_apic_id: data[q + 1], _res0: data[q + 2],
            global_system_int_base: read_le32(data, q + 3), io_sapic_addr: read_le64(data, q + 7),
        }))
    } else if t == 7 {
        let e = MadtLocalSapic {
            length: data[q], acpi_processor_id: data[q + 1], local_sapic_id: data[q + 2],
            local_sapic_sid: data[q + 3], _res0: [data[q + 4], data[q + 5], data[q + 6]],
            flags: read_le32(data, q + 7), acpi_processor_uid_val: read_le32(data, q + 11),
        };
        proof {
            if let Some(MadtInterruptController::LocalSapic(x)) = madt_entry_at(data@, p as int) {
                assert(e._res0 =~= x._res0);
            }
        }
        Some(MadtInterruptController::LocalSapic(e))
    } else if t == 8 {
        Some(MadtInterruptController::PlatformInterruptSource(MadtPlatformInterruptSource {
            length: data[q], flags: read_le16(data, q + 1), interrupt_type: data[q + 3],
            processor_id: data[q + 4], processor_eid: data[q + 5], io_sapic_vector: data[q + 6],
            global_system_int: data[q + 7], platform_int_src_flags: read_le32(data, q + 8),
        }))
    } else if t == 9 {
        Some(MadtInterruptController::ProcessorLocalX2Apic(MadtProcessorLocalX2Apic {
            length: data[q], _res0: read_le16(data, q + 1), x2_apic: read_le32(data, q + 3),
            flags: read_le32(data, q + 7), acpi_processor_uid: read_le32(data, q + 11),
        }))
    } else if t == 10 {
        let e = MadtLocalX2ApicNmi {
            length: data[q], flags: read_le16(data, q + 1), acpi_processor_uid: read_le32(data, q + 3),
            local_x2_apic_lint: data[q + 7], _res0: [data[q + 8], data[q + 9], data[q + 10]],
        };
        proof {
            if let Some(MadtInterruptController::LocalX2ApicNmi(x)) = madt_entry_at(data@, p as int) {
                assert(e._res0 =~= x._res0);
            }
        }
        Some(MadtInterruptController::LocalX2ApicNmi(e))
    } else if t == 11 {
        let e = MadtGicCpuInterface {
            length: data[q], _res0: read_le16(data, q + 1), cpu_interface_number: read_le32(data, q + 3),
            acpi_processor_uid: read_le32(data, q + 7), flags: read_le32(data, q + 11),
            parking_protocol_version: read_le32(data, q + 15), performance_int_gisv: read_le32(data, q + 19),
            parked_addr: read_le64(data, q + 23), physical_base_addr: read_le64(data, q + 31),
            gicv: read_le64(data, q + 39), gich: read_le64(data, q + 47), vgic_maintenance_int: read_le32(data, q + 55),
            gicr_base_addr: read_le64(data, q + 59), mpidr: read_le64(data, q + 67),
            processor_power_efficiency_class: data[q + 75], _res1: [data[q + 76], data[q + 77], data[q + 78]],
        };
        proof {
            if let Some(MadtInterruptController::GicCpuInterface(x)) = madt_entry_at(data@, p as int) {
                assert(e._res1 =~= x._res1);
            }
        }
        Some(MadtInterruptController::GicCpuInterface(e))
    } else if t == 12 {
        let e = MadtGicDistributorInterface {
            length: data[q], _res0: read_le16(data, q + 1), gic_id: read_le32(data, q + 3),
            physical_base_addr: read_le64(data, q + 7), system_vector_base: read_le32(data, q + 15),
            gic_version: data[q + 19], _res1: [data[q + 20], data[q + 21], data[q + 22]],
        };
        proof {
            if let Some(MadtInterruptController::GicDistributorInterface(x)) = madt_entry_at(data@, p as int) {
                assert(e._res1 =~= x._res1);
            }
        }
        Some(MadtInterruptController::GicDistributorInterface(e))
    } else if t == 13 {
        Some(MadtInterruptController::GicMsiFrame(MadtGicMsiFrame {
            length: data[q], _res0: read_le16(data, q + 1), gic_msi_frame_id: read_le32(data, q + 3),
            physical_base_addr: read_le64(data, q + 7), flags: read_le32(data, q + 15),
            spi_count: read_le16(data, q + 19), spi_base: read_le16(data, q + 21),
        }))
    } else if t == 14 {
        Some(MadtInterruptController::GicRedistributor(MadtGicRedistributor {
            length: data[q], _res0: read_le16(data, q + 1), discovery_range_base_addr: read_le64(data, q + 3),
            discovery_range_length: read_le32(data, q + 11),
        }))
    } else {
        Some(MadtInterruptController::GicInterruptTranslationService(MadtGicInterruptTranslationService {
            length: data[q], _res0: read_le16(data, q + 1), gic_its_id: read_le32(data, q + 3),
            physical_base_addr: read_le64(data, q + 7), _res1: read_le32(data, q + 15),
        }))
    }
}

/// Boot Error Record Table.
#[derive(Copy, Clone)]
pub struct BERT {
    pub header: DescHeader,
    pub boot_error_region_length: u32,
    pub boot_error_region: Ptr64<()>,
}

/// Boot Graphics Resource Table.
#[derive(Copy, Clone)]
pub struct BGRT {
    pub header: DescHeader,
    pub version: u16,
    pub status: u8,
    pub image_type: u8,
    pub image_address: Ptr64<()>,
    pub image_offset_x: u32,
    pub image_offset_y: u32,
}

/// Smart Battery Specification Table.
#[derive(Copy, Clone)]
pub struct SBST {
    pub header: DescHeader,
    pub warning_energy_level: u32,
    pub low_energy_level: u32,
    pub critical_energy_level: u32,
}

/// Embedded Controller Boot Resources Table; its id is a zero-terminated
/// string.
pub struct ECDT {
    pub header: DescHeader,
    pub ec_control: GenericAddress,
    pub ec_data: GenericAddress,
    pub uid: u32,
    pub gpe_bit: u8,
    pub ec_id: Vec<u8>,
}

impl ECDT {
    /// The id of the embedded controller: its bytes up to the first zero.
    pub fn get_ec_id(&self) -> (r: &[u8])
        requires
            exists|k: int| 0 <= k < self.ec_id@.len() && self.ec_id@[k] == 0,
        ensures
            r@ == self.ec_id@.subrange(0, r@.len() as int),
            r@.len() < self.ec_id@.len(),
            self.ec_id@[r@.len() as int] == 0,
            forall|k: int| 0 <= k < r@.len() ==> #[trigger] r@[k] != 0,
    {
        let mut i: usize = 0;
        let n = self.ec_id.len();
        while self.ec_id[i] != 0
            invariant
                i < self.ec_id@.len() == n,
                exists|k: int| i <= k < self.ec_id@.len() && self.ec_id@[k] == 0,
                forall|k: int| 0 <= k < i ==> #[trigger] self.ec_id@[k] != 0,
            decreases self.ec_id@.len() - i,
        {
            proof {
                let k = choose|k: int| i <= k < self.ec_id@.len() && self.ec_id@[k] == 0;
                assert(k != i);
            }
            i = i + 1;
        }
        vstd::slice::slice_subrange(self.ec_id.as_slice(), 0, i)
    }
}

/// A static resource allocation structure of the SRAT.
#[derive(Copy, Clone, Debug, PartialEq, Eq, Structural)]
pub enum StaticResourceAllocation {
    ProcessorLocalApicSapicAffinity {},
    MemoryAffinity {},
    ProcessorLocalX2ApicAffinity {},
    GiccAffinity {},
    GicInterruptTranslationServiceAffinity {},
}

/// System Resource Affinity Table.
pub struct SRAT {
    pub header: DescHeader,
    pub _res0: u32,
    pub _res1: u64,
    pub static_resource_allocations: Vec<StaticResourceAllocation>,
}

/// System Locality Information Table.
pub struct SLIT {
    pub header: DescHeader,
    pub entries: Vec<u8>,
}

/// A processor structure of the CPEP.
#[derive(Copy, Clone, Debug, Default, PartialEq, Eq, Structural)]
pub struct CpepProcessorStructure {
    pub cpep_type: u8,
    pub length: u8,
    pub processor_id: u8,
    pub processor_eid: u8,
    pub polling_interval: u32,
}

/// Corrected Platform Error Polling Table.
pub struct CPEP {
    pub header: DescHeader,
    pub reserved: u64,
    pub entries: Vec<CpepProcessorStructure>,
}

impl CPEP {
    /// The processor structures: as many as the table's length holds after
    /// the header and the reserved field.
    pub fn processor_structures(&self) -> (r: &[CpepProcessorStructure])
        requires
            self.header.length >= DESC_HEADER_SIZE + 8,
            entry_count(self.header.length, 8, 8) <= self.entries@.len(),
        ensures
            r@ == self.entries@.subrange(0, entry_count(self.header.length, 8, 8)),
    {
        let n = (self.header.length as usize - DESC_HEADER_SIZE - 8) / 8;
        vstd::slice::slice_subrange(self.entries.as_slice(), 0, n)
    }
}

/// Firmware ACPI Control Structure.
#[derive(Copy, Clone)]
pub struct FACS {
    pub header: DescHeader,
}

/// Differentiated System Description Table: a header and its definition
/// block.
pub struct DSDT {
    pub header: DescHeader,
    pub body: Vec<u8>,
}

impl DSDT {
    /// The definition block: the bytes of the table after its header.
    pub fn definition_block(&self) -> (r: AmlCode<'_>)
        requires
            self.header.length >= DESC_HEADER_SIZE,
            self.header.length - DESC_HEADER_SIZE <= self.body@.len(),
        ensures
            r.0@ == self.body@.subrange(0, self.header.length - DESC_HEADER_SIZE),
    {
        let n = self.header.length as usize - DESC_HEADER_SIZE;
        AmlCode(vstd::slice::slice_subrange(self.body.as_slice(), 0, n))
    }
}

/// High Precision Event Timer table.
#[derive(Copy, Clone)]
pub struct HPET {
    pub header: DescHeader,
    pub event_timer_block_id: u32,
    pub base_address: GenericAddress,
    pub hpet_number: u8,
    pub main_counter_minimum: u16,
    pub page_protecton_attr: u8,
}

/// An entry of the MCFG: the configuration space of a range of buses.
#[derive(Copy, Clone, Debug, PartialEq, Eq, Structural)]
pub struct McfgEntry {
    pub address: u64,
    pub pci_segment: u16,
    pub start_bus_number: u8,
    pub end_bus_number: u8,
    pub reserved: u32,
}

/// PCI Express memory mapped configuration table.
pub struct MCFG {
    pub header: DescHeader,
    pub reserved: u64,
    pub entries: Vec<McfgEntry>,
}

impl MCFG {
    /// The entries: as many as the table's length holds after the header and
    /// the reserved field.
    pub fn iter(&self) -> (r: McfgEntryIter<'_>)
        requires
            self.header.length >= DESC_HEADER_SIZE + 8,
            entry_count(self.header.length, 8, 16) <= self.entries@.len(),
        ensures
            r.entries@ == self.entries@.subrange(0, entry_count(self.header.length, 8, 16)),
            r.pos == 0,
    {
        let n = (self.header.length as usize - DESC_HEADER_SIZE - 8) / 16;
        McfgEntryIter { entries: vstd::slice::slice_subrange(self.entries.as_slice(), 0, n), pos: 0 }
    }
}

/// Iterator over the entries of an MCFG.
pub struct McfgEntryIter<'a> {
    pub entries: &'a [McfgEntry],
    pub pos: usize,
}

impl<'a> McfgEntryIter<'a> {
    /// The next entry.
    pub fn next(&mut self) -> (r: Option<McfgEntry>)
        ensures
            final(self).entries == old(self).entries,
            if old(self).pos < old(self).entries@.len() {
                r == Some(old(self).entries@[old(self).pos as int]) && final(self).pos == old(self).pos + 1
            } else {
                r is None && final(self).pos == old(self).pos
            },
    {
        if self.pos < self.entries.len() {
            let e = self.entries[self.pos];
            self.pos = self.pos + 1;
            Some(e)
        } else {
            None
        }
    }
}


/// Type byte of a processor local x2APIC structure.
pub const MADT_LOCAL_X2APIC: u8 = 9;

/// The ACPI processor id of the structure at `pos` of `s` when it is a whole
/// processor local x2APIC structure; nothing otherwise.
pub open spec fn x2apic_uid_at(s: Seq<u8>, pos: int) -> Seq<u32> {
    if s[pos] == MADT_LOCAL_X2APIC && pos + madt_entry_size(s[pos]) <= s.len() {
        match madt_entry_at(s, pos) {
            Some(MadtInterruptController::ProcessorLocalX2Apic(a)) => seq![a.acpi_processor_uid],
            _ => Seq::empty(),
        }
    } else {
        Seq::empty()
    }
}

/// The ACPI processor ids of the processor local x2APIC structures met
/// walking the structures `s` from `pos`, in order. The walk ends at the end
/// of `s`, or at a structure whose type and length bytes or whose length do
/// not fit in `s`, or whose length is 0 (the walk would stay on it).
pub open spec fn x2apic_uids(s: Seq<u8>, pos: int) -> Seq<u32>
    decreases s.len() - pos,
{
    if pos < 0 || pos + 2 > s.len() || pos + s[pos + 1] > s.len() || s[pos + 1] == 0 {
        Seq::empty()
    } else {
        x2apic_uid_at(s, pos) + x2apic_uids(s, pos + s[pos + 1])
    }
}

impl MADT {
    /// The ACPI processor ids of the processors with a local x2APIC, in the
    /// order of their structures (see `x2apic_uids`); none when the table's
    /// length does not cover the two fields after the header or runs past
    /// the structures held.
    pub fn x2apic_processors(&self) -> (r: Vec<u32>)
        ensures
            r@ == if self.header.length >= DESC_HEADER_SIZE + 8 && self.header.length - DESC_HEADER_SIZE
                - 8 <= self.interrupt_controllers@.len() {
                x2apic_uids(
                    self.interrupt_controllers@.subrange(0, self.header.length - DESC_HEADER_SIZE - 8),
                    0,
                )
            } else {
                Seq::empty()
            },
    {
        let mut uids: Vec<u32> = Vec::new();
        let n = self.header.length as usize;
        if n < DESC_HEADER_SIZE + 8 || n - DESC_HEADER_SIZE - 8 > self.interrupt_controllers.len() {
            return uids;
        }
        let mut it = self.iter();
        let ghost s = it.data@;
        loop
            invariant
                it.data@ == s,
                it.pos <= s.len(),
                n == self.header.length,
                n >= DESC_HEADER_SIZE + 8,
                n - DESC_HEADER_SIZE - 8 <= self.interrupt_controllers@.len(),
                s == self.interrupt_controllers@.subrange(0, n - DESC_HEADER_SIZE - 8),
                x2apic_uids(s, 0) == uids@ + x2apic_uids(s, it.pos as int),
            decreases s.len() - it.pos,
        {
            let len = it.data.len();
            let pos = it.pos;
            if len - pos < 2 || it.data[pos + 1] == 0 || it.data[pos + 1] as usize > len - pos {
                proof {
                    assert(x2apic_uids(s, pos as int) =~= Seq::<u32>::empty());
                    assert(uids@ + Seq::<u32>::empty() =~= uids@);
                }
                return uids;
            }
            let ghost rest = x2apic_uids(s, pos + s[pos + 1]);
            assert(x2apic_uids(s, pos as int) == x2apic_uid_at(s, pos as int) + rest);
            let (t, p) = match it.next() {
                Some(e) => e,
                None => {
                    return uids;
                },
            };
            if t == MADT_LOCAL_X2APIC && 16 <= len - p {
                match read_madt_entry(it.data, p) {
                    Some(MadtInterruptController::ProcessorLocalX2Apic(apic)) => {
                        let ghost before = uids@;
                        uids.push(apic.acpi_processor_uid);
                        proof {
                            assert(x2apic_uid_at(s, pos as int) == seq![apic.acpi_processor_uid]);
                            assert(before + (seq![apic.acpi_processor_uid] + rest) =~= uids@ + rest);
                        }
                    },
                    _ => {
                        assert(x2apic_uid_at(s, pos as int) =~= Seq::<u32>::empty());
                        assert(uids@ + (Seq::<u32>::empty() + rest) =~= uids@ + rest);
                    },
                }
            } else {
                assert(x2apic_uid_at(s, pos as int) =~= Seq::<u32>::empty());
                assert(uids@ + (Seq::<u32>::empty() + rest) =~= uids@ + rest);
            }
        }
    }
}

/// The interrupt controller structures are packed as ACPI lays them out:
/// after the type byte at `p` and the length byte at `p + 1`, each field
/// follows the one before it, multi-byte fields little-endian. (For an I/O
/// APIC: its id at `p + 2`, a reserved byte, its address at `p + 4` and the
/// first global system interrupt it serves at `p + 8`.) Types above 15 are
/// not read.
pub proof fn law_madt_layout(s: Seq<u8>, p: int)
    ensures
        s[p] == 0 ==> (madt_entry_at(s, p) == Some(MadtInterruptController::ProcessorLocalApic(MadtProcessorLocalApic {
            length: s[p + 1], acpi_processor_uid: s[p + 2], apic_id: s[p + 3], flags: le32(s, p + 4),
            }))),
        s[p] == 1 ==> (madt_entry_at(s, p) == Some(MadtInterruptController::IoApic(MadtIoApic {
            length: s[p + 1], io_apic_id: s[p + 2], _res0: s[p + 3], io_apic_addr: le32(s, p + 4),
            global_system_int_base: le32(s, p + 8),
            }))),
        s[p] == 2 ==> (madt_entry_at(s, p) == Some(MadtInterruptController::InterruptSourceOverride(MadtInterruptSourceOverride {
            length: s[p + 1], bus: s[p + 2], source: s[p + 3], global_system_int: le32(s, p + 4),
            flags: le16(s, p + 8),
            }))),
        s[p] == 3 ==> (madt_entry_at(s, p) == Some(MadtInterruptController::NonMaskableInterruptSource(MadtNonMaskableInterruptSource {
            length: s[p + 1], flags: le16(s, p + 2), global_system_int: le32(s, p + 4),
            }))),
        s[p] == 4 ==> (madt_entry_at(s, p) == Some(MadtInterruptController::LocalApicNmi(MadtLocalApicNmi {
            length: s[p + 1], acpi_processor_uid: s[p + 2], flags: le16(s, p + 3), local_apic_lint: s[p + 5],
            }))),
        s[p] == 5 ==> (madt_entry_at(s, p) == Some(MadtInterruptController::LocalApicAddressOverride(MadtLocalApicAddressOverride {
            length: s[p + 1], _res0: le16(s, p + 2), local_apic_addr: le64(s, p + 4),
            }))),
        s[p] == 6 ==> (madt_entry_at(s, p) == Some(MadtInterruptController::IoSapic(MadtIoSapic {
            length: s[p + 1], io_apic_id: s[p + 2], _res0: s[p + 3], global_system_int_base: le32(s, p + 4),
            io_sapic_addr: le64(s, p + 8),
            }))),
        s[p] == 7 ==> (madt_entry_at(s, p) == Some(MadtInterruptController::LocalSapic(MadtLocalSapic {
            length: s[p + 1], acpi_processor_id: s[p + 2], local_sapic_id: s[p + 3], local_sapic_sid: s[p + 4],
            _res0: [s[p + 5], s[p + 6], s[p + 7]], flags: le32(s, p + 8), acpi_processor_uid_val: le32(s, p + 12),
            }))),
        s[p] == 8 ==> (madt_entry_at(s, p) == Some(MadtInterruptController::PlatformInterruptSource(MadtPlatformInterruptSource {
            length: s[p + 1], flags: le16(s, p + 2), interrupt_type: s[p + 4], processor_id: s[p + 5],
            processor_eid: s[p + 6], io_sapic_vector: s[p + 7], global_system_int: s[p + 8],
            platform_int_src_flags: le32(s, p + 9),
            }))),
        s[p] == 9 ==> (madt_entry_at(s, p) == Some(MadtInterruptController::ProcessorLocalX2Apic(MadtProcessorLocalX2Apic {
            length: s[p + 1], _res0: le16(s, p + 2), x2_apic: le32(s, p + 4), flags: le32(s, p + 8),
            acpi_processor_uid: le32(s, p + 12),
            }))),
        s[p] == 10 ==> (madt_entry_at(s, p) == Some(MadtInterruptController::LocalX2ApicNmi(MadtLocalX2ApicNmi {
            length: s[p + 1], flags: le16(s, p + 2), acpi_processor_uid: le32(s, p + 4), local_x2_apic_lint: s[p + 8],
            _res0: [s[p + 9], s[p + 10], s[p + 11]],
            }))),
        s[p] == 11 ==> (madt_entry_at(s, p) == Some(MadtInterruptController::GicCpuInterface(MadtGicCpuInterface {
            length: s[p + 1], _res0: le16(s, p + 2), cpu_interface_number: le32(s, p + 4),
            acpi_processor_uid: le32(s, p + 8), flags: le32(s, p + 12), parking_protocol_version: le32(s, p + 16),
            performance_int_gisv: le32(s, p + 20), parked_addr: le64(s, p + 24), physical_base_addr: le64(s, p + 32),
            gicv: le64(s, p + 40), gich: le64(s, p + 48), vgic_maintenance_int: le32(s, p + 56),
            gicr_base_addr: le64(s, p + 60), mpidr: le64(s, p + 68), processor_power_efficiency_class: s[p + 76],
            _res1: [s[p + 77], s[p + 78], s[p + 79]],
            }))),
        s[p] == 12 ==> (madt_entry_at(s, p) == Some(MadtInterruptController::GicDistributorInterface(MadtGicDistributorInterface {
            length: s[p + 1], _res0: le16(s, p + 2), gic_id: le32(s, p + 4), physical_base_addr: le64(s, p + 8),
            system_vector_base: le32(s, p + 16), gic_version: s[p + 20], _res1: [s[p + 21], s[p + 22], s[p + 23]],
            }))),
        s[p] == 13 ==> (madt_entry_at(s, p) == Some(MadtInterruptController::GicMsiFrame(MadtGicMsiFrame {
            length: s[p + 1], _res0: le16(s, p + 2), gic_msi_frame_id: le32(s, p + 4), physical_base_addr: le64(s, p + 8),
            flags: le32(s, p + 16), spi_count: le16(s, p + 20), spi_base: le16(s, p + 22),
            }))),
        s[p] == 14 ==> (madt_entry_at(s, p) == Some(MadtInterruptController::GicRedistributor(MadtGicRedistributor {
            length: s[p + 1], _res0: le16(s, p + 2), discovery_range_base_addr: le64(s, p + 4),
            discovery_range_length: le32(s, p + 12),
            }))),
        s[p] == 15 ==> (madt_entry_at(s, p) == Some(MadtInterruptController::GicInterruptTranslationService(MadtGicInterruptTranslationService {
            length: s[p + 1], _res0: le16(s, p + 2), gic_its_id: le32(s, p + 4), physical_base_addr: le64(s, p + 8),
            _res1: le32(s, p + 16),
            }))),
        s[p] > 15 ==> madt_entry_at(s, p) is None,
{
}

} // verus!
