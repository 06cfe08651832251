pub mod acpi;
pub mod ahci;
pub mod arch;
pub mod devtree;
pub mod gpt;
pub mod nvme;
pub mod pcie;
pub mod smbios;
pub mod uart_ns16550a;
pub mod uefi;
pub mod utils;
