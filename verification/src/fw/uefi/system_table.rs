//! The UEFI system table the firmware lays out for a guest, with the
//! dispatch tables of its services.
use vstd::prelude::*;

verus! {

/// Header of every UEFI table.
#[derive(Copy, Clone, Debug, Default, PartialEq, Eq, Structural)]
pub struct TableHeader {
    pub signature: u64,
    pub revision: u32,
    pub header_size: u32,
    pub crc32: u32,
    pub reserved: u32,
}

/// Where the firmware's data lies.
pub const BASE_ADDR: usize = 0x1000_0000;

/// Distance between two service trampolines.
pub const TRAMPOLINE_STRIDE: usize = 0x10;

/// The addresses of `n` service trampolines laid out from `*ptr` on, one
/// every `TRAMPOLINE_STRIDE` bytes; `*ptr` moves past them.
pub fn dispatch_table(ptr: &mut usize, n: usize) -> (r: Vec<usize>)
    requires
        *old(ptr) + n * TRAMPOLINE_STRIDE <= usize::MAX,
    ensures
        r@.len() == n,
        forall|i: int| 0 <= i < n ==> #[trigger] r@[i] == *old(ptr) + i * TRAMPOLINE_STRIDE,
        *final(ptr) == *old(ptr) + n * TRAMPOLINE_STRIDE,
{
    let mut ptrs: Vec<usize> = Vec::new();
    let mut i: usize = 0;
    let start = *ptr;
    let end = *ptr + n * TRAMPOLINE_STRIDE;
    while *ptr < end
        invariant
            start == *old(ptr),
            end == start + n * TRAMPOLINE_STRIDE,
            i <= n,
            *ptr == *old(ptr) + i * TRAMPOLINE_STRIDE,
            ptrs@.len() == i,
            forall|k: int| 0 <= k < i ==> #[trigger] ptrs@[k] == *old(ptr) + k * TRAMPOLINE_STRIDE,
        decreases end - *ptr,
    {
        proof {
            let p = *ptr;
            assert(i < n) by (nonlinear_arith)
                requires p == start + i * 16, p < end, end == start + n * 16;
        }
        ptrs.push(*ptr);
        i = i + 1;
        *ptr = *ptr + TRAMPOLINE_STRIDE;
    }
    proof {
        let p = *ptr;
        assert(i == n) by (nonlinear_arith)
            requires p == start + i * 16, p >= end, i <= n, end == start + n * 16;
    }
    ptrs
}

/// The firmware's data: the system table, the firmware vendor, the consoles,
/// the runtime and boot services, the graphics output and the trampolines.
/// Pointers and service entries are addresses.
pub struct Data {
    pub system_table_header: TableHeader,
    pub system_table_firmware_vendor: usize,
    pub system_table_firmware_revision: u32,
    pub system_table_console_in_handle: usize,
    pub system_table_console_in: usize,
    pub system_table_console_out_handle: usize,
    pub system_table_console_out: usize,
    pub system_table_std_err_handle: usize,
    pub system_table_std_err: usize,
    pub system_table_runtime_services: usize,
    pub system_table_boot_services: usize,
    pub system_table_number_of_table_entries: usize,
    pub system_table_configuration_table: usize,
    pub firmware_vendor_val: [u8; 16],
    pub console_in_ptrs: Vec<usize>,
    pub console_in_wait_for_key: usize,
    pub console_out_ptrs: Vec<usize>,
    pub console_err_ptrs: Vec<usize>,
    pub runtime_services_header: TableHeader,
    pub runtime_services_ptrs: Vec<usize>,
    pub boot_services_header: TableHeader,
    pub boot_services_ptrs: Vec<usize>,
    pub gop_ptrs: Vec<usize>,
}

pub const SYSTEM_TABLE_SIGNATURE: u64 = 0x5453595320494249;
pub const RUNTIME_SERVICES_SIGNATURE: u64 = 0x56524553544e5552;
pub const BOOT_SERVICES_SIGNATURE: u64 = 0x56524553544f4f42;

/// Fills the firmware's data placed at `base`: the table signatures, the
/// addresses of the system table's parts, and the dispatch tables of the
/// services, whose trampolines follow one another from `base + 0x1000` on
/// (2 for the console input, 9 for each console output, 13 for the
/// runtime services, 61 for the boot services and 3 for the graphics
/// output).
pub fn init_data(data: &mut Data, base: usize)
    requires
        base + 0x1000 + 97 * TRAMPOLINE_STRIDE <= usize::MAX,
    ensures
        final(data).system_table_header.signature == SYSTEM_TABLE_SIGNATURE,
        final(data).runtime_services_header.signature == RUNTIME_SERVICES_SIGNATURE,
        final(data).boot_services_header.signature == BOOT_SERVICES_SIGNATURE,
        final(data).system_table_firmware_vendor == base + 0x10,
        final(data).system_table_console_in == base + 0x20,
        final(data).system_table_console_out == base + 0x30,
        final(data).system_table_std_err == base + 0x40,
        final(data).system_table_runtime_services == base + 0x50,
        final(data).system_table_boot_services == base + 0x60,
        trampolines(final(data).console_in_ptrs@, base + 0x1000, 2),
        trampolines(final(data).console_out_ptrs@, base + 0x1000 + 2 * TRAMPOLINE_STRIDE, 9),
        trampolines(final(data).console_err_ptrs@, base + 0x1000 + 11 * TRAMPOLINE_STRIDE, 9),
        trampolines(final(data).runtime_services_ptrs@, base + 0x1000 + 20 * TRAMPOLINE_STRIDE, 13),
        trampolines(final(data).boot_services_ptrs@, base + 0x1000 + 33 * TRAMPOLINE_STRIDE, 61),
        trampolines(final(data).gop_ptrs@, base + 0x1000 + 94 * TRAMPOLINE_STRIDE, 3),
{
    let mut trampoline_ptr = base + 0x1000;
    data.system_table_header.signature = SYSTEM_TABLE_SIGNATURE;
    data.runtime_services_header.signature = RUNTIME_SERVICES_SIGNATURE;
    data.boot_services_header.signature = BOOT_SERVICES_SIGNATURE;
    data.system_table_firmware_vendor = base + 0x10;
    data.system_table_console_in = base + 0x20;
    data.system_table_console_out = base + 0x30;
    data.system_table_std_err = base + 0x40;
    data.system_table_runtime_services = base + 0x50;
    data.system_table_boot_services = base + 0x60;
    data.console_in_ptrs = dispatch_table(&mut trampoline_ptr, 2);
    data.console_out_ptrs = dispatch_table(&mut trampoline_ptr, 9);
    data.console_err_ptrs = dispatch_table(&mut trampoline_ptr, 9);
    data.runtime_services_ptrs = dispatch_table(&mut trampoline_ptr, 13);
    data.boot_services_ptrs = dispatch_table(&mut trampoline_ptr, 61);
    data.gop_ptrs = dispatch_table(&mut trampoline_ptr, 3);
}

/// `p` holds the `n` trampoline addresses from `start` on.
pub open spec fn trampolines(p: Seq<usize>, start: int, n: int) -> bool {
    p.len() == n && forall|i: int| 0 <= i < n ==> #[trigger] p[i] == start + i * TRAMPOLINE_STRIDE
}

} // verus!
