//! Core logic of the Firework kernel, its boot loader and its user-space
//! extensions: the system-call interface and the kernel's handling of each
//! call, the physical page allocator, per-process memory bookkeeping,
//! scheduling, executable loading, ACPI and MADT parsing, descriptor
//! tables and exception handlers, the boot memory map and frame buffer,
//! the text terminal, kernel symbol lookup, and the register layouts and
//! driver logic of the PCI, PS/2, 8259 and AC'97 devices.

pub mod ac97;
pub mod acpi;
pub mod allocations;
pub mod bitmap;
pub mod bits;
pub mod bootmem;
pub mod client;
pub mod devtree;
pub mod exc;
pub mod fb;
pub mod gdt;
pub mod ids;
pub mod idt;
pub mod kernel;
pub mod loader;
pub mod madt;
pub mod maps;
pub mod memmap;
pub mod pci;
pub mod pic;
pub mod pmm;
pub mod proc;
pub mod process;
pub mod ps2;
pub mod regs;
pub mod scheduler;
pub mod shell;
pub mod symbols;
pub mod syscall;
pub mod terminal;
pub mod tss;
