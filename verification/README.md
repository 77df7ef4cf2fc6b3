# eucalypt

The verified core of the eucalyptOS x86_64 kernel, written in Verus.

- `src/` is the library. Every function in it carries a contract that Verus
  proves: address arithmetic and page table entries, the frame and heap
  allocators, the process and thread tables and both schedulers, the virtual
  file system with its RAM file system and FAT12 loader, ELF load planning,
  the text console and terminal line discipline, the keyboard map, the
  kernel symbol map lookup, and the register encodings and decisions of the
  PCI, AHCI, NVMe, xHCI, APIC, GDT and IDT drivers. Laws that relate several
  operations are stated as public proof functions named `law_*`.
- `tests/` exercises the library on concrete values.
- `app/` is the kernel image around the library: boot protocol requests,
  port and memory-mapped I/O, interrupt entry points, the global state and
  the allocator hooks. It performs the accesses the library computes.

Calls into outside crates (`elf_parser`, `xhci`, `String::from_utf8`) made
by the library go through a few trusted wrappers whose contracts state what
those functions do; everything else is proved.
