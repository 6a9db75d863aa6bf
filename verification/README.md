# kyaaa

Fixed-capacity building blocks for bare-metal Rust, verified with Verus.

- `src/` is the verified library (crate `kyaaa`):
  - `buffer` — a byte buffer used as a FIFO queue, a LIFO stack or a bump arena;
  - `ring` — a bounded FIFO queue of `N` (a power of two) slots kept inline, with
    wrapping counters, and the slot rules its lock-free form in `app/` uses;
  - `library` — a queue of book entry ids with one free slot, and the flush bookkeeping;
  - `types` — `Str<N>`, a NUL-terminated fixed-capacity string, and `KyaaaAssign`;
  - `page` — the `Game` and `User` records with their byte layout;
  - `proto` — a framed packet read in place;
  - `syscall` — decoding of raw system call results;
  - `thread` — the state rules of the sequence, ticket and writer-preferring locks;
  - `siren`, `wavelet`, `mobius` — fixed-point sound generators;
  - `arith` — modular arithmetic and power-of-two lemmas.
- `app/` holds what works through raw memory, atomics, inline assembly or floating
  point: the book macro, the lock-free queue, the lock types, the system calls, the
  code-generating macros and the float constructors.
- `tests/` exercises the library on concrete values.
