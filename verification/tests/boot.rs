use lib::hw::uefi::{
    GraphicsOutputModeInformation, GraphicsPixelFormat, MemoryDescriptor, MemoryType, PixelBitmask,
};
use lib::kernel::boot::uefi::arch::amd64::{
    ap_boot_step, setup_descriptor_tables, tsc_frequency, ApBootAction, ApBootState, ICR_INIT_ASSERT,
    ICR_INIT_DEASSERT, ICR_STARTUP, STATUS_BOOT_COMPLETED, STATUS_PRE_BOOT,
};
use lib::kernel::boot::uefi::writer::{Font, GopConsoleWriter};
use lib::kernel::boot::uefi::{init_mem_map, memory_areas, select_gop_mode, AreaType, MemoryArea};

fn desc(t: MemoryType, start: u64, pages: u64) -> MemoryDescriptor {
    MemoryDescriptor { mem_type: t, physical_start: start, virtual_start: 0, number_of_pages: pages, attribute: 0 }
}

fn blank_map() -> Vec<MemoryArea> {
    vec![MemoryArea { offset: 0, length: 0, area_type: AreaType::Reserved, attrs: 0 }; 0x100]
}

#[test]
fn memory_map_is_sorted_by_address() {
    let descs = vec![
        desc(MemoryType::ConventionalMemory, 0x10_0000, 16),
        desc(MemoryType::RuntimeServicesData, 0x1000, 1),
        desc(MemoryType::MemoryMappedIo, 0xFEE0_0000, 1),
    ];
    let mut key = 0;
    let mut map = blank_map();
    init_mem_map(&descs, 42, &mut key, &mut map);
    assert_eq!(key, 42);
    assert_eq!(map[0], MemoryArea { offset: 0x1000, length: 1, area_type: AreaType::Firmware, attrs: 0 });
    assert_eq!(map[1], MemoryArea { offset: 0x10_0000, length: 16, area_type: AreaType::Usable, attrs: 0 });
    assert_eq!(map[2], MemoryArea { offset: 0xFEE0_0000, length: 1, area_type: AreaType::Mmio, attrs: 0 });
    assert_eq!(map[3], blank_map()[3]);
}

#[test]
fn memory_map_stops_at_the_port_space() {
    let descs = vec![
        desc(MemoryType::ConventionalMemory, 0x10_0000, 16),
        desc(MemoryType::MemoryMappedIoPortSpace, 0x0, 1),
        desc(MemoryType::LoaderData, 0x1000, 1),
    ];
    let mut key = 7;
    let mut map = blank_map();
    init_mem_map(&descs, 42, &mut key, &mut map);
    assert_eq!(key, 7);
    assert_eq!(map[0], MemoryArea { offset: 0x10_0000, length: 16, area_type: AreaType::Usable, attrs: 0 });
    assert_eq!(map[1], blank_map()[1]);
}

#[test]
fn memory_map_merges_a_continued_area_and_stops() {
    let descs = vec![
        desc(MemoryType::ConventionalMemory, 0x10_0000, 16),
        desc(MemoryType::BootServicesData, 0x11_0000, 4),
        desc(MemoryType::LoaderData, 0x1000, 1),
    ];
    let mut key = 7;
    let mut map = blank_map();
    init_mem_map(&descs, 42, &mut key, &mut map);
    assert_eq!(key, 7);
    assert_eq!(map[0], MemoryArea { offset: 0x10_0000, length: 20, area_type: AreaType::Usable, attrs: 0 });
    assert_eq!(map[1], blank_map()[1]);
}

#[test]
fn largest_display_mode_is_chosen() {
    let modes = vec![(640, 480), (1024, 768), (800, 600), (1024, 1024)];
    assert_eq!(select_gop_mode(0, 640, 480, &modes), (3, 1024, 1024));
    let none_better = vec![(320, 200)];
    assert_eq!(select_gop_mode(5, 640, 480, &none_better), (5, 640, 480));
}

#[test]
fn display_mode_taken_when_wider_or_taller() {
    // a later mode that is only taller replaces a wider one
    let modes = vec![(1920, 1080), (800, 1200)];
    assert_eq!(select_gop_mode(0, 0, 0, &modes), (1, 800, 1200));
}

#[test]
fn tsc_frequency_from_cpuid() {
    assert_eq!(tsc_frequency(2, 100, 24_000_000), 1_200_000_000);
    assert_eq!(tsc_frequency(3, 1, 10), 3);
}

#[test]
fn ap_start_up_sequence() {
    let uid = 2;
    let dst: u64 = 2 << 24;
    let frq = 1_000_000;
    let (s, a) = ap_boot_step(ApBootState::Start, uid, frq, 0, STATUS_PRE_BOOT);
    assert_eq!((s, a), (ApBootState::ErrorsCleared, ApBootAction::ClearErrors));
    let (s, a) = ap_boot_step(s, uid, frq, 0, STATUS_PRE_BOOT);
    assert_eq!(a, ApBootAction::SendIpi(ICR_INIT_ASSERT | dst));
    let (s, a) = ap_boot_step(s, uid, frq, 0, STATUS_PRE_BOOT);
    assert_eq!(a, ApBootAction::SendIpi(ICR_INIT_DEASSERT | dst));
    let (s, a) = ap_boot_step(s, uid, frq, 100, STATUS_PRE_BOOT);
    assert_eq!((s, a), (ApBootState::AfterInit(10_100), ApBootAction::Wait));
    let (s, a) = ap_boot_step(s, uid, frq, 5_000, STATUS_PRE_BOOT);
    assert_eq!((s, a), (ApBootState::AfterInit(10_100), ApBootAction::Wait));
    let (s, a) = ap_boot_step(s, uid, frq, 10_100, STATUS_PRE_BOOT);
    assert_eq!((s, a), (ApBootState::FirstStartupSent, ApBootAction::SendIpi(ICR_STARTUP | dst)));
    let (s, a) = ap_boot_step(s, uid, frq, 20_000, STATUS_PRE_BOOT);
    assert_eq!((s, a), (ApBootState::AfterFirstStartup(20_200), ApBootAction::Wait));
    let (s, a) = ap_boot_step(s, uid, frq, 20_100, STATUS_BOOT_COMPLETED);
    assert_eq!((s, a), (ApBootState::Booted, ApBootAction::Next));
}

#[test]
fn ap_start_up_gives_up_after_the_second_startup() {
    let frq = 1_000_000;
    let s = ApBootState::AfterFirstStartup(200);
    let (s, a) = ap_boot_step(s, 0, frq, 200, STATUS_PRE_BOOT);
    assert_eq!((s, a), (ApBootState::SecondStartupSent, ApBootAction::SendIpi(ICR_STARTUP)));
    let (s, a) = ap_boot_step(s, 0, frq, 300, STATUS_PRE_BOOT);
    assert_eq!((s, a), (ApBootState::AfterSecondStartup(100_300), ApBootAction::Wait));
    let (s, a) = ap_boot_step(s, 0, frq, 100_300, STATUS_PRE_BOOT);
    assert_eq!((s, a), (ApBootState::Failed, ApBootAction::GiveUp));
    let (_, a) = ap_boot_step(s, 0, frq, 0, STATUS_PRE_BOOT);
    assert_eq!(a, ApBootAction::Next);
}

fn font() -> Font {
    let mut glyphs = Vec::new();
    for g in 0..0x5F {
        let v = if g == 0 { 1 } else { 0 };
        glyphs.push(vec![vec![v; 2]; 2]);
    }
    Font { length: 2, height: 2, glyphs }
}

fn writer(x: u32, y: u32, c: u32) -> GopConsoleWriter {
    GopConsoleWriter {
        info: GraphicsOutputModeInformation {
            version: 0,
            horizontal_resolution: 8,
            vertical_resolution: 8,
            pixel_format: GraphicsPixelFormat::B8G8R8X8,
            pixel_information: PixelBitmask { red_mask: 0, green_mask: 0, blue_mask: 0, reserved_mask: 0 },
            pixels_per_scan_line: 8,
        },
        framebuffer: vec![0; 64],
        x,
        y,
        c,
    }
}

fn lit(w: &GopConsoleWriter) -> Vec<usize> {
    (0..w.framebuffer.len()).filter(|&i| w.framebuffer[i] != 0).collect()
}

#[test]
fn console_draws_a_glyph_after_advancing() {
    let f = font();
    let mut w = writer(0, 0, 1);
    assert!(!w.write(&f, "!"));
    assert_eq!((w.x, w.y), (2, 0));
    assert_eq!(lit(&w), vec![2, 3, 10, 11]);
}

#[test]
fn console_space_and_newline() {
    let f = font();
    let mut w = writer(0, 0, 1);
    assert!(!w.write(&f, " \n!"));
    assert_eq!((w.x, w.y), (2, 2));
    assert_eq!(lit(&w), vec![18, 19, 26, 27]);
    assert!(!w.write(&f, "\t"));
    assert_eq!((w.x, w.y), (10, 2));
}

#[test]
fn console_stops_at_the_screen_edge() {
    let f = font();
    let mut w = writer(6, 0, 1);
    assert!(!w.write(&f, "!!"));
    assert_eq!((w.x, w.y), (8, 0));
    assert!(lit(&w).is_empty());
}

#[test]
fn console_clears_when_the_line_does_not_fit() {
    let f = font();
    let mut w = writer(0, 6, 1);
    w.framebuffer[5] = 9;
    assert!(!w.write(&f, ""));
    assert_eq!((w.x, w.y), (0, 0));
    assert!(lit(&w).is_empty());
}

#[test]
fn console_white_pixel_value() {
    let f = font();
    let mut w = writer(0, 0, 0xFFFF_FFFF);
    assert!(!w.write(&f, "!"));
    // each channel scaled and combined, then multiplied by the colour
    assert_eq!(w.framebuffer[2], 0xFFFF_FFFFu32.wrapping_mul(0xFFFF_FFFF));
    // a character without a glyph draws the unknown glyph, blank here
    assert!(!w.write(&f, "\u{e9}"));
    assert_eq!((w.x, w.y), (4, 0));
    assert_eq!(lit(&w), vec![2, 3, 10, 11]);
}

#[test]
fn console_reports_a_pixel_outside_the_frame_buffer() {
    let f = font();
    let mut w = writer(0, 0, 1);
    w.framebuffer = vec![0; 10];
    assert!(w.write(&f, "!"));
    assert_eq!((w.x, w.y), (2, 0));
    assert_eq!(lit(&w), vec![2]);
}

#[test]
fn descriptor_tables_of_the_bootstrap_processor() {
    let mut gdt = [7u64; 3];
    let mut idt = [0u128; 256];
    setup_descriptor_tables(&mut gdt, &mut idt, &[(0, 0x1122_3344_5566_7788), (14, 0x1000), (0, 0x2000)]);
    // every segment word goes to the first entry, the last stays
    assert_eq!(gdt, [0x0000_9200_0000_0000, 7, 7]);
    // a later gate for a vector replaces an earlier one
    assert_eq!(idt[0], (0x8E00_0000u128 << 16) | 0x2000);
    assert_eq!(idt[14], (0x8E00_0000u128 << 16) | 0x1000);
    assert_eq!(idt[1], 0);
}

#[test]
fn memory_map_takes_any_page_count_it_does_not_add() {
    // a huge area whose end is never computed is recorded as it is
    let descs = vec![
        desc(MemoryType::ConventionalMemory, 0x10_0000, u64::MAX),
        desc(MemoryType::MemoryMappedIo, 0xFEE0_0000, 1),
    ];
    let mut key = 0;
    let mut map = blank_map();
    init_mem_map(&descs, 42, &mut key, &mut map);
    assert_eq!(key, 42);
    assert_eq!(map[0], MemoryArea { offset: 0x10_0000, length: u64::MAX, area_type: AreaType::Usable, attrs: 0 });
    // the end of an area is its pages shifted to bytes, higher bits dropped
    let wrapped = vec![
        desc(MemoryType::ConventionalMemory, 0x1000, 1 << 52),
        desc(MemoryType::LoaderData, 0x1000, 2),
    ];
    let (areas, stop) = memory_areas(&wrapped).unwrap();
    assert!(stop);
    assert_eq!(areas, vec![MemoryArea { offset: 0x1000, length: (1 << 52) + 2, area_type: AreaType::Usable, attrs: 0 }]);
}

#[test]
fn memory_map_overflow_is_refused() {
    // the end of the first area does not fit in 64 bits
    let descs = vec![
        desc(MemoryType::ConventionalMemory, u64::MAX - 0xFFF, 2),
        desc(MemoryType::LoaderData, 0x1000, 1),
    ];
    assert_eq!(memory_areas(&descs), None);
    // a merge whose page count does not fit
    let merged = vec![
        desc(MemoryType::ConventionalMemory, 0, u64::MAX),
        desc(MemoryType::LoaderData, 0xFFFF_FFFF_FFFF_F000, 1),
    ];
    assert_eq!(memory_areas(&merged), None);
}
