# firework

The logic of the Firework operating system, verified with Verus: the kernel's
system-call handling, physical page allocator, process memory bookkeeping,
scheduler, id generators and executable loader; the device tree and the
matching of extensions to its entries; ACPI and MADT parsing; descriptor tables and
exception handlers; the boot loader's memory map and frame buffer; the text
terminal and backtrace symbol lookup; and the register layouts and driver logic
of the PCI, PS/2, 8259 and AC'97 devices.

- `src/` is the verified library. Each public function states what it returns
  or changes in its `ensures`; proof functions named `law_*` and `lemma_*`
  state properties that relate several functions.
- The kernel's process management comes in two forms: `kernel` handles
  system calls over flat lists of processes, threads and messages with a
  shared allocation tracker, and `scheduler` over hash tables of processes
  and threads, each process keeping its own allocations and message queue,
  with process, thread and message ids from `ids::IdGen`.
- `tests/` runs the library on concrete values.
- `app/` holds what touches the machine: system-call traps, port I/O through
  the kernel, the PCI service and the AC'97 driver's hardware side, logging,
  serialisation of messages, and conversion of firmware structures.
