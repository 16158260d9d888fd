# fyos

A small x86_64 hobby kernel. The library (`src/`) holds the kernel's logic,
each function with a contract that Verus proves:

- `bit_field`: reading and writing spans of bits of `u8`..`u64`, with the laws
  that tie reads and writes together;
- `x86_64`, `gdt`, `interrupts::idt`: segment selectors, the task state
  segment, the global and interrupt descriptor tables and their entries;
- `pic`: the chained 8259 PICs, as the sequences of port writes they need;
- `screen`: the VGA text screen as a cursor over 25 rows of 80 characters;
- `interrupts`: vectors, the kernel's interrupt table, and keyboard decoding
  through `pc_keyboard`;
- `lazy_static`: what a lazily initialized value does at each stage.

`app/` is the kernel around it: the CPU instructions, port I/O, the spin lock
and lazy statics, the serial port (`uart_16550`), the interrupt handlers and
the copies of the tables in the layout the CPU reads.
