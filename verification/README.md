# vibeio

An asynchronous runtime for a single thread, in two parts.

- `src/` is the library: the scheduler and its tasks, the timers, the registrations of the I/O
  drivers (a completion ring, a completion port, a readiness poller and a stand-in without I/O),
  the state machines of the I/O operations, socket addresses, buffers, transfers, and the rules of
  the file system calls. It makes no system call. Verus proves its contracts.
- `app/` is ordinary Rust around the library: system calls, futures and wakers, threads, and an
  echo server.
- `tests/` runs the library on given values.

What holds of several operations taken together stands in the proof functions whose names begin
with `law_`.

The library calls `slab`, `tm-wheel`, `crossbeam-queue` and `crossbeam-channel`. What it takes for
granted of them is written above the functions that make the calls.
