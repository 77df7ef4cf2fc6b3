//! Verified core of the eucalypt kernel: address arithmetic, page tables,
//! frame and heap allocators, process and thread tables, schedulers, the
//! virtual file system with its RAM file system, the text console, the
//! terminal line discipline and the register encodings of the drivers.
pub mod memory;
pub mod strutil;
pub mod vfs;
pub mod ramfs;
pub mod process;
pub mod thread;
pub mod sched;
pub mod console;
pub mod tty;
pub mod keyboard;
pub mod pci;
pub mod elf;
pub mod ahci;
pub mod fat12;
pub mod usb;
pub mod apic;
pub mod gdt;
pub mod idt;
pub mod nvme;
pub mod syscall;
pub mod pci_scan;
pub mod text;
pub mod symbols;
