# lantern_kernel

A small capability microkernel, verified with Verus: threads with round-robin scheduling,
synchronous messages on endpoints, signals on notifications, capabilities with monotone
rights, and address spaces made of untyped memory. It allocates nothing after boot.

- `src/` is the kernel proper. Every function states exactly what it does over
  `model::KernelModel`, and what holds of all syscalls together is proved in
  `consistency`, `authority`, `memory`, `exchange`, `resources` and `laws`.
- `tests/` runs it.
- `app/` connects it to the hardware layer `lantern_hal`: trap frames, page tables,
  address space activation, the first thread.
