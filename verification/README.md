# kernel

The logic of a small x86-64 hobby kernel, verified with Verus, and the
hardware-facing code around it.

`src/` is the verified library:

- `common/` — a fixed-capacity vector (`BufVec`), memory regions (`Region`),
  fallible byte strings and vectors (`StringBuf`, `TryVec`), bit masks
  (`flags`), and address wrappers (`SyncPtr`, `SyncMutPtr`).
- `memory_map` — the free memory left once the used regions are taken out of
  the available ones, and the largest free region.
- `math` — rounding to multiples (`Alignable`).
- `simple_alloc` — the bump allocator's state and allocation step.
- `paging`, `idt`, `segmentation`, `tss` — page-table entries, interrupt
  gates, segment selectors and the task state segment, as bit patterns.
- `tty/` — the text-mode screen (`vga`), what printing does character by
  character (`print_spec`), and the scrolling terminal (`Tty`).

`app/` is the kernel binary around it: the entry point and boot information,
port I/O, the memory-mapped text buffer, the spin lock, the global allocator,
page tables in memory, formatting and logging.
