//! Verified core logic of the Charlotte kernel: ACPI table parsing, x86_64 paging
//! structures, the physical frame allocator, APIC helpers and the framebuffer console.
//!
//! Physical memory is handed to the parsers as a byte slice in which a physical
//! address is an index; the kernel passes its direct mapping of physical memory.

pub mod le_bytes;
pub mod access_control;
pub mod acpi;
pub mod arch;
pub mod c_abi;
pub mod cpu;
pub mod framebuffer;
pub mod gdt;
pub mod interrupts;
pub mod keyboard;
pub mod memory;
pub mod ringbuffer;
pub mod serial;
pub mod uart;
