# lib

The data structures and decisions of a small hypervisor kernel, its
hardware descriptions and its firmware tables, with their behaviour stated
in contracts and proved with Verus.

- `src/hw`: firmware and hardware formats (ACPI tables, UEFI structures and
  strings, the flattened device tree, GPT, SMBIOS, NVMe, AHCI, PCIe, the
  NS16550A serial port) and per-architecture registers and tables (amd64
  interrupt descriptors, RISC-V page table entries and the PLIC, the arm GIC
  and VMSA).
- `src/kernel/mem`: the buddy allocator of a memory zone, the small-object
  cache, page descriptors and the page fault decision.
- `src/kernel/boot`: the choice of the display mode, the physical memory
  map, the boot console and the start-up of the application processors.
- `src/kernel/misc`: the path trie, the search tree, the list and the
  remaining helpers; `src/kernel/log.rs` the event ring.
- `src/fw`: the data a firmware image hands to its loader.
- `app/`: the firmware calls, assembly, raw memory and the loops that carry
  out what the library decides.
