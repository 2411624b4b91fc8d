# gorust

Go-style concurrency for Rust: goroutines on a pool of worker threads, channels, `select`,
timers, wait groups, contexts and a network poller.

The crate is split in two.

- `src/` is the library, written in Verus and verified. It holds the runtime's decisions, as
  state machines with contracts over mathematical views (each step is one call; the loops that
  repeat steps, wait on condition variables or switch stacks are in `app/`):
  - `scheduler`: goroutine states, the run queue, spawning, waking, yielding, the workers'
    steps, and shutting the scheduler, the timer and the poller down;
  - `channel`: buffered, unbuffered and unbounded channels, their parked senders and receivers
    (a goroutine that parks is marked waiting in the same step);
  - `g_select`: the `Select` builder and one scan of its cases;
  - `timer`: sleeping goroutines ordered by deadline and the timer thread's rounds;
  - `sync`: wait groups, counters, `Once`, pools and cancellable contexts;
  - `netpoller`: registrations of file descriptors and what an event wakes;
  - `stack`, `context`: goroutine stack sizes and the initial register state of a goroutine;
  - `go_runtime`: counting live and created goroutines (creating and finishing a goroutine
    updates the counts) and deciding when the runtime may shut down;
  - `select_parse`, `make_chan`: the syntax of the `select!` and `make_chan!` macros, parsed from
    bytes, and the plan of the `select!` expansion.
- `app/` is ordinary Rust around it: threads, locks, context switches in assembly, stack memory,
  sockets and `mio`, and the token handling of the macros with `syn` and `quote`. It performs
  what the library decides.

`tests/` holds the tests, run against the library.
