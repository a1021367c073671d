# teletypewriter_pipes

Anonymous pipes that an event loop can poll. Each pipe is served by a worker
thread that blocks on it, and by a ring buffer through which the pipe handle
reads or writes without blocking.

- `src/` is the verified library:
  - `ring.rs`: the bounded FIFO byte ring shared by a handle and its worker,
    with laws on capacity and on the byte stream it carries;
  - `call.rs`: the decision machine of one read or write call on a handle,
    with laws over whole calls (the worker is woken before every completion,
    the call answers once, the readiness follows the ring, the reported
    count is the moved one);
  - `pump.rs`: the decision machines of the inbound and outbound worker
    loops, with laws on byte counts (every byte read from the pipe is stored,
    every byte taken from the ring is written, until the worker stops);
  - `flow.rs`: a worker machine, its chunk, the ring, the handle calls and
    the advertised readiness interleaved step by step, with laws over every
    interleaving: reads return the pipe's bytes in pipe order, the pipe
    receives the written bytes in write order, at most a full ring plus one
    chunk is in flight, buffered bytes (or free room) are always advertised
    once the two sides are between steps, and a call that moves bytes
    releases a waiting worker, which then moves more bytes.
- `app/` performs what the decisions ask for on Windows: pipe I/O, worker
  threads, locking and waking, and readiness changes through mio 0.6. The
  event loop these pipes were written for is a fork of mio 0.6 kept in the
  same workspace as this code; `app/` uses the upstream `mio` 0.6 it was
  forked from, which offers the same `Registration`, `SetReadiness`,
  `Ready` and `Evented` API.
- `tests/` runs the library on concrete values.
