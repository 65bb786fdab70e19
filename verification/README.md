# posix_api

The decisions of a POSIX system-call layer for a small unikernel, written in
Verus and proved against their contracts.

- `src/` is the verified library: descriptor tables, pipes, local and
  loopback sockets with their options, select/poll/epoll bookkeeping,
  signal frames and masks, futex decisions, shared memory segments, memory
  layout (`brk`, `mmap`, stacks), ELF placement, path resolution, program
  launch, and the decisions of the waiting loops. Each module states its
  laws as public proof functions beside the code.
- `app/` is the plain Rust around it: the system-call entry, the loops that
  wait or sleep, and everything that touches user memory, the file system,
  the address space or the network stack. It asks the library what to do
  and performs it through traits (`Host`, `Vfs`, `SyscallHandlers`,
  `Children`, `TaskHost` and others) that the embedding kernel implements;
  this crate holds no implementation of them.
- `tests/` runs the library on concrete inputs.

ELF files are parsed with `xmas-elf`, behind a few trusted wrappers in
`src/elf.rs` whose contracts name what the parser returns.
