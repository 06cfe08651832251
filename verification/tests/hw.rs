use core::marker::PhantomData;
use lib::hw::acpi::{
    read_generic_address, read_madt_entry, AddressSpace, DescHeader, GenericAddress,
    MadtInterruptController, MadtProcessorLocalApic, Table, MADT, RSDP, SIG_APIC, SIG_FACP,
};
use lib::hw::devtree::{FdtHeader, FdtReserveEntry, FdtShown, FdtStructureToken, FdtValue};
use lib::hw::arch::amd64::{rdtsc64, IdtEntry, InterruptDescriptorTable, IDT_ENTRY_DEFAULT_OPTIONS};
use lib::hw::arch::riscv::atp::{Entry, PageTables};
use lib::hw::arch::riscv::plic::PLIC;
use lib::hw::uart_ns16550a::{DIVISOR, LCR_8_BITS, LCR_DLAB};
use lib::hw::uefi::{from_efi_str, to_efi_str, GraphicsOutputBltPixel, MemoryType};
use lib::hw::utils::{read_le16, read_le32, read_le64, Ptr32, Ptr64};

fn rsdp(revision: u8, rsdt: u32, xsdt: u64) -> RSDP {
    RSDP {
        signature: *b"RSD PTR ",
        checksum: 0,
        oem_id: [0; 6],
        revision,
        rsdt: Ptr32(rsdt, PhantomData),
        length: 36,
        xsdt: Ptr64(xsdt, PhantomData),
        extended_checksum: 0,
        reserved: [0; 3],
    }
}

#[test]
fn rsdp_root_tables() {
    assert_eq!(rsdp(0, 0x1000, 0x2000).get_rsdt(), Some(0x1000));
    assert_eq!(rsdp(0, 0, 0x2000).get_rsdt(), None);
    assert_eq!(rsdp(0, 0x1000, 0x2000).get_xsdt(), None);
    assert_eq!(rsdp(2, 0x1000, 0x2000).get_xsdt(), Some(0x2000));
    assert_eq!(rsdp(2, 0, 0x2000).get_xsdt(), Some(0x2000));
    assert_eq!(rsdp(2, 0x1000, 0).get_xsdt(), None);
}

fn header_bytes(sig: &[u8; 4], length: u32) -> Vec<u8> {
    let mut b = Vec::new();
    b.extend_from_slice(sig);
    b.extend_from_slice(&length.to_le_bytes());
    b.push(1);
    b.push(0xAB);
    b.extend_from_slice(b"OEMID ");
    b.extend_from_slice(b"TABLEID ");
    b.extend_from_slice(&7u32.to_le_bytes());
    b.extend_from_slice(&0x1234u32.to_le_bytes());
    b.extend_from_slice(&0x5678u32.to_le_bytes());
    b
}

#[test]
fn description_header_is_read_little_endian() {
    let b = header_bytes(b"APIC", 0x2C);
    let h = DescHeader::read(&b);
    assert_eq!(h.signature, SIG_APIC);
    assert_eq!(h.length, 0x2C);
    assert_eq!(h.revision, 1);
    assert_eq!(h.checksum, 0xAB);
    assert_eq!(&h.oem_id, b"OEMID ");
    assert_eq!(&h.oem_table_id, b"TABLEID ");
    assert_eq!(h.oem_revision, 7);
    assert_eq!(h.creator_id, 0x1234);
    assert_eq!(h.creator_revision, 0x5678);
    assert_eq!(h.to_table(0x8000), Table::Apic(0x8000));
}

#[test]
fn description_header_kinds() {
    assert_eq!(DescHeader::read(&header_bytes(b"FACP", 36)).signature, SIG_FACP);
    assert_eq!(DescHeader::read(&header_bytes(b"FACP", 36)).to_table(1), Table::Fadt(1));
    assert_eq!(DescHeader::read(&header_bytes(b"BOOT", 36)).to_table(1), Table::Boot);
    assert_eq!(DescHeader::read(&header_bytes(b"OEM1", 36)).to_table(2), Table::OemX(2));
    assert_eq!(DescHeader::read(&header_bytes(b"ABCD", 36)).to_table(3), Table::Other(3));
}

#[test]
fn address_space_codes_round_trip() {
    for c in [0u8, 1, 2, 3, 4, 0xA, 0x7F] {
        let a = AddressSpace::from_code(c).unwrap();
        assert_eq!(a.code(), c);
    }
    assert_eq!(AddressSpace::from_code(0), Some(AddressSpace::SystemMemorySpace));
    assert_eq!(AddressSpace::from_code(0x7F), Some(AddressSpace::FunctionalFixedHardware));
    assert_eq!(AddressSpace::from_code(5), None);
}

#[test]
fn generic_address_is_read_at_an_offset() {
    let mut b = vec![0xFF, 1, 8, 0, 3];
    b.extend_from_slice(&0x1122_3344_5566_7788u64.to_le_bytes());
    assert_eq!(
        read_generic_address(&b, 1),
        GenericAddress { address_space: 1, bit_width: 8, bit_offset: 0, access_size: 3, address: 0x1122_3344_5566_7788 }
    );
}

#[test]
fn madt_local_apic_entry() {
    let b = vec![0, 8, 1, 2, 1, 0, 0, 0];
    assert_eq!(
        read_madt_entry(&b, 0),
        Some(MadtInterruptController::ProcessorLocalApic(MadtProcessorLocalApic {
            length: 8,
            acpi_processor_uid: 1,
            apic_id: 2,
            flags: 1,
        }))
    );
    let unknown = vec![16, 2];
    assert_eq!(read_madt_entry(&unknown, 0), None);
}

#[test]
fn little_endian_reads() {
    let b = [1u8, 2, 3, 4, 5, 6, 7, 8, 9];
    assert_eq!(read_le16(&b, 1), 0x0302);
    assert_eq!(read_le32(&b, 0), 0x0403_0201);
    assert_eq!(read_le64(&b, 1), 0x0908_0706_0504_0302);
}

#[test]
fn plic_enable_and_disable() {
    let mut p = PLIC::new();
    assert!(!p.is_enabled(1, 33));
    p.enable(1, 33);
    assert!(p.is_enabled(1, 33));
    assert!(!p.is_enabled(1, 32));
    assert!(!p.is_enabled(0, 33));
    p.enable(1, 34);
    p.disable(1, 33);
    assert!(!p.is_enabled(1, 33));
    assert!(p.is_enabled(1, 34));
}

#[test]
fn plic_priorities_and_pending() {
    let mut p = PLIC::new();
    p.set_priority(5, 7);
    assert_eq!(p.get_priority(5), 7);
    assert_eq!(p.get_priority(6), 0);
    assert!(!p.is_pending(40));
    p.raise(40);
    assert!(p.is_pending(40));
    assert!(!p.is_pending(41));
    p.set_priority_threshold(2, 3);
    assert_eq!(p.get_priority_threshold(2), 3);
    p.complete(2, 9);
    assert_eq!(p.claim(2), 9);
    assert_eq!(p.get_priority_threshold(2), 3);
}

#[test]
fn riscv_entry_fields() {
    let mut e = Entry(0);
    e.set_valid(true);
    e.set_write(true);
    assert!(e.get_valid() && e.get_write() && !e.get_read());
    e.set_write(false);
    assert!(!e.get_write());
    e.set_ppn(0x1234);
    assert_eq!(e.0, (0x1234 << 10) | 0x1);
    // the page number mask is shifted before it is applied
    assert_eq!(e.get_ppn(), e.0 & 0x0000_0FFF_FFFF_FFFF);
}

#[test]
fn riscv_page_tables_root() {
    let mut t = PageTables::new();
    assert_eq!(t.0, 0);
    t.set_asid(5);
    assert_eq!(t.0, 5 << 44);
    assert_eq!(t.get_asid(), t.0 as usize & 0xFFFF);
}

#[test]
fn idt_entry_handler_round_trip() {
    let mut e = IdtEntry::new(0x1234_5678_9ABC_DEF0);
    assert_eq!(e.ptr(), 0x1234_5678_9ABC_DEF0);
    assert_eq!(e.options, IDT_ENTRY_DEFAULT_OPTIONS);
    e.set_ptr(0xFFFF_8000_0000_1000);
    assert_eq!(e.ptr(), 0xFFFF_8000_0000_1000);
    assert_eq!(IdtEntry::zeroed().ptr(), 0);
    assert_eq!(InterruptDescriptorTable::pointer(0x5000).base, 0x5000);
    assert_eq!(InterruptDescriptorTable::pointer(0x5000).limit, 4095);
}

#[test]
fn time_stamp_counter_halves() {
    assert_eq!(rdtsc64(0x89AB_CDEF, 0x0123_4567), 0x0123_4567_89AB_CDEF);
}

#[test]
fn uart_init_sequence() {
    let port = lib::hw::uart_ns16550a::Ns16550a {
        data: lib::hw::arch::RW(0),
        ier: lib::hw::arch::RW(0),
        fcr: lib::hw::arch::RW(0),
        lcr: lib::hw::arch::RW(0),
        mcr: lib::hw::arch::RW(0),
        lsr: lib::hw::arch::RW(0),
        msr: lib::hw::arch::RW(0),
        scr: lib::hw::arch::RW(0),
    };
    assert_eq!(
        port.init(),
        vec![
            (3, LCR_8_BITS),
            (2, 1),
            (1, 1),
            (3, LCR_8_BITS | LCR_DLAB),
            (0, (DIVISOR & 0xFF) as u8),
            (1, (DIVISOR >> 8) as u8),
            (3, LCR_8_BITS)
        ]
    );
    assert_eq!(port.init()[4], (0, 0x50));
}

#[test]
fn blt_pixel_channels() {
    let p = GraphicsOutputBltPixel::from_rgba(0x4433_2211);
    assert_eq!((p.red, p.green, p.blue, p.reserved), (0x11, 0x22, 0x33, 0x44));
}

#[test]
fn memory_type_codes() {
    assert_eq!(MemoryType::from_code(7), MemoryType::ConventionalMemory);
    assert_eq!(MemoryType::from_code(0), MemoryType::ReservedMemoryType);
    assert_eq!(MemoryType::from_code(0x7000_0000), MemoryType::ReservedMemoryType);
}

#[test]
fn efi_strings_round_trip() {
    let mut units = vec![0xFFFFu16; 8];
    let n = to_efi_str("Boot", &mut units);
    assert_eq!(n, 4);
    assert_eq!(&units[..6], &[0x42, 0x6F, 0x6F, 0x74, 0, 0xFFFF]);
    let mut bytes = vec![0u8; 16];
    assert_eq!(from_efi_str(&units, &mut bytes), 4);
    assert_eq!(&bytes[..5], b"Boot\0");
}

#[test]
fn efi_string_copy_stops_when_the_buffer_is_full() {
    let units = [0x41u16, 0x42, 0x43, 0];
    let mut bytes = vec![9u8; 2];
    assert_eq!(from_efi_str(&units, &mut bytes), 2);
    assert_eq!(bytes, vec![0x41, 0x42]);
}

#[test]
fn efi_string_of_a_wide_character() {
    let mut units = vec![0u16; 4];
    assert_eq!(to_efi_str("\u{1F600}", &mut units), 2);
    assert_eq!(&units[..3], &[0xD83D, 0xDE00, 0]);
}

#[test]
fn riscv_unmap_without_root_table() {
    let mut t = PageTables::new();
    t.set_asid(3);
    t.unmap(0x10, 4);
    assert_eq!(t.0, 3 << 44);
}

fn be(b: &mut Vec<u8>, v: u32) {
    b.extend_from_slice(&v.to_be_bytes());
}

fn fdt_blob() -> Vec<u8> {
    let mut s = Vec::new();
    be(&mut s, 1);
    s.extend_from_slice(&[0, 0, 0, 0]);
    be(&mut s, 1);
    s.extend_from_slice(b"cpus\0\0\0\0");
    be(&mut s, 1);
    s.extend_from_slice(b"cpu@0\0\0\0");
    be(&mut s, 3);
    be(&mut s, 4);
    be(&mut s, 0);
    be(&mut s, 0);
    be(&mut s, 2);
    be(&mut s, 2);
    be(&mut s, 3);
    be(&mut s, 4);
    be(&mut s, 4);
    be(&mut s, 0x1234_5678);
    be(&mut s, 2);
    be(&mut s, 9);
    let strings = b"reg\0model\0";
    let rsv_off = 40u32;
    let struct_off = rsv_off + 32;
    let strings_off = struct_off + s.len() as u32;
    let total = strings_off + strings.len() as u32;
    let mut b = Vec::new();
    for v in [0xd00d_feed, total, struct_off, strings_off, rsv_off, 17, 16, 0, strings.len() as u32, s.len() as u32] {
        be(&mut b, v);
    }
    b.extend_from_slice(&0x1000u64.to_le_bytes());
    b.extend_from_slice(&0x2000u64.to_le_bytes());
    b.extend_from_slice(&[0u8; 16]);
    b.extend_from_slice(&s);
    b.extend_from_slice(strings);
    b
}

#[test]
fn device_tree_header_and_reservations() {
    let blob = fdt_blob();
    let h = FdtHeader::from_bytes(&blob).unwrap();
    assert!(h.is_valid());
    assert_eq!(h.version, 17);
    assert_eq!(h.memory_reservation_block_slice(), vec![FdtReserveEntry { address: 0x1000, size: 0x2000 }]);
    assert!(FdtHeader::from_bytes(&blob[..39]).is_none());
}

#[test]
fn device_tree_structure_tokens() {
    let blob = fdt_blob();
    let h = FdtHeader::from_bytes(&blob).unwrap();
    let mut it = h.structure_block();
    let mut seen = Vec::new();
    while let Some(t) = it.next() {
        seen.push(match t {
            FdtStructureToken::BeginNone { name, .. } => format!("begin {}", String::from_utf8_lossy(name)),
            FdtStructureToken::Prop { name, value } => format!("prop {} {:?}", String::from_utf8_lossy(name), value.as_u32()),
            FdtStructureToken::EndNode => "end".to_string(),
        });
    }
    assert_eq!(
        seen,
        vec!["begin ", "begin cpus", "begin cpu@0", "prop reg Some(0)", "end", "end", "prop model Some(305419896)", "end"]
    );
}

#[test]
fn device_tree_path_search() {
    let blob = fdt_blob();
    let h = FdtHeader::from_bytes(&blob).unwrap();
    let path = ["", "cpus", "cpu"];
    let mut it = h.get(&path);
    match it.next() {
        Some(FdtStructureToken::BeginNone { name, .. }) => assert_eq!(name, b"cpu@0"),
        _ => panic!("node not found"),
    }
    assert!(it.next().is_none());
    let path = ["", "model"];
    let mut it = h.get(&path);
    match it.next() {
        Some(FdtStructureToken::Prop { name, value }) => {
            assert_eq!(name, b"model");
            assert_eq!(value.as_u32(), Some(0x1234_5678));
        }
        _ => panic!("property not found"),
    }
    let path = ["", "missing"];
    assert!(h.get(&path).next().is_none());
}

#[test]
fn device_tree_value_display() {
    assert_eq!(FdtValue(b"okay\0").shown(), FdtShown::Text);
    assert_eq!(FdtValue(b"okay\0").as_str(), Some("okay"));
    assert_eq!(FdtValue(&[]).shown(), FdtShown::Nothing);
    assert_eq!(FdtValue(&[0, 0, 0, 1]).shown(), FdtShown::Number(1));
    assert_eq!(FdtValue(&[1, 2, 3]).shown(), FdtShown::Text);
    assert_eq!(FdtValue(&[0, 2, 3]).shown(), FdtShown::Number(0x0002_0300));
    assert_eq!(FdtValue(&[0, 0, 0, 0, 0, 0, 1, 0]).shown(), FdtShown::Number(0x100));
    assert_eq!(FdtValue(&[0xFF, 0xFE, 0xFD, 0xFC, 0xFB]).shown(), FdtShown::Hex);
    assert_eq!(FdtValue(&[0xFF, 0]).as_str(), None);
    assert_eq!(FdtValue(&[0xFF, 0]).shown(), FdtShown::Number(0xFF00));
    // text with a zero byte before its end is not shown as text
    assert_eq!(FdtValue(b"a\0b\0").show_as(true), FdtShown::Number(0x6100_6200));
}

fn madt(length: u32, entries: Vec<u8>) -> MADT {
    MADT {
        header: DescHeader {
            signature: SIG_APIC,
            length,
            revision: 0,
            checksum: 0,
            oem_id: [0; 6],
            oem_table_id: [0; 8],
            oem_revision: 0,
            creator_id: 0,
            creator_revision: 0,
        },
        local_interrupt_controller_addr: Ptr32(0xFEE0_0000, PhantomData),
        flags: 0,
        interrupt_controllers: entries,
    }
}

#[test]
fn madt_x2apic_processors_in_order() {
    let mut e = vec![0, 8, 1, 2, 1, 0, 0, 0];
    e.extend_from_slice(&[9, 16, 0, 0, 1, 0, 0, 0, 1, 0, 0, 0, 7, 0, 0, 0]);
    e.extend_from_slice(&[9, 16, 0, 0, 2, 0, 0, 0, 1, 0, 0, 0, 9, 0, 0, 0]);
    assert_eq!(madt(36 + 8 + 40, e.clone()).x2apic_processors(), vec![7, 9]);
    // the table's length decides how many structures are read
    assert_eq!(madt(36 + 8 + 24, e.clone()).x2apic_processors(), vec![7]);
    // a length past the structures held reads none
    assert_eq!(madt(36 + 8 + 41, e.clone()).x2apic_processors(), Vec::<u32>::new());
    // a structure of length 0 ends the walk
    let mut z = vec![3, 0];
    z.extend_from_slice(&e);
    assert_eq!(madt(36 + 8 + 42, z).x2apic_processors(), Vec::<u32>::new());
}
