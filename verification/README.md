# my_async

A small asynchronous I/O runtime: a work-stealing ring buffer, three
schedulers for a multi-threaded executor, a single-threaded executor, a
`mio`-based reactor and non-blocking wrappers around files and sockets.

## Layout

- `src/` — the library, verified with Verus:
  - `ringbuf.rs`: the ring buffer `Inner`, whose push, pop and steal are
    stated exactly and related by laws, and the handles `Ringbuf` / `Stealer` that share one
    `Inner` behind a lock (their contracts say only what holds whatever the
    other handles do).
  - `schedulers/`: scheduling messages, the spawner's sends, broadcasting to
    workers, the workers' rings and the stealers paired with them, the
    construction of each scheduler's runners (each owning its ring and
    stealing through all the workers' stealers), the workers' step functions
    (`hybrid`, `work_stealing`),
    the hybrid scheduler's priority queue, and the round-robin turn keeper.
  - `single_thread.rs`: the single-threaded executor's step function and the
    law that spawned tasks run as they arrive.
  - `multi_thread.rs`: task indices and the multi-threaded executor's decisions.
  - `budget.rs`: per-task operation budgets.
  - `reactor.rs`: the reactor's wake-up backlog and the I/O objects' reactions
    to the outcome of an operation.
- `app/` — the runtime that runs these decisions: threads, channels, task
  pools, the reactor, and the `IoWrapper` types of `fs` and `net`.
- `tests/` — tests of the library.
