# charlotte_core

The core logic of the Charlotte hobby kernel for x86_64, written in Verus and
proved against its specifications.

- `src/` is the verified library: ACPI table parsing (RSDP, RSDT/XSDT, MADT, SRAT,
  BGRT, FADT), the local APIC's register programming and timer setup, x86_64 page
  table entries, page tables and page-table walks, the physical frame allocators,
  the framebuffer's drawing operations and the text console, the serial port
  protocol, the PS/2 keyboard's scancode decoding (through pc-keyboard) and what each
  key does, and the small decoders of CPU registers.
- `app/` is the kernel around it: Limine boot requests, port and register access,
  global state behind spin locks, the keyboard interrupt's port read, interrupt
  dispatch and the memory self tests.
- `tests/` exercises the library on concrete values.

Hardware is reached only from `app/`: the library takes the values read from
devices and returns the register writes to perform. Physical memory is handed to
the ACPI parsers as a byte slice in which a physical address is an index, and page
tables are held as the tables stored in each physical frame.
