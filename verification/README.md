# evno

An asynchronous, type-safe event bus whose decisions are verified with Verus.

- `src/` is the verified library: accepted ring capacities (`capacity`), the
  life of a listener task as a state machine (`lifecycle`) and laws over whole
  runs of it (`runs`), listener shells and the event limit of bounded listeners
  (`listeners`), event chains and processors (`chain`), the startup barrier
  that holds emits back while listeners subscribe (`startup`), the drain
  (`shutdown`), the decisions of the task counters (`gate`), and the calls into
  `gyre` (`ring`) and `tokio-util` (`cancel`).
- `app/` is the asynchronous bus built on it with tokio, gyre, acty and papaya:
  the `Bus`, the `Listener`, `Step` and `Emit` traits, publishers, spawned
  listener tasks and the atomic counters.
- `tests/` exercises the library.
