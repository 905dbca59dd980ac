# browserserve

A self-hosted browser server: one process runs isolated Chrome sessions over
CDP, with a warm pool, host-derived capacity, per-session resource caps and
optional save and restore of session profiles.

- `src/` is the library. It holds every rule of the server as executable code
  whose contracts Verus proves: the pool, admission and authentication, the CDP
  framing and client, launch and teardown, capacity, isolation tiers, profiles,
  configuration, and the `check` and `doctor` reports. Where the library calls
  another crate, the call stands behind a small item whose doc comment says what
  is relied on.
- `app/` is the program around it: the command line, files, processes, sockets
  and timers. It performs what the library decides and reports back what
  happened.
- `tests/` runs the library.

Work that takes time is modelled as a machine: `begin` gives the first action,
`step` takes what happened and gives the next one. A launch, a teardown, the
template build, a profile session, the server's life and `check` are of this
form. The pool keeps the books for many claims at once: each reports what
happens to it (`claim`, `wait`, `search`, `release`), and so does the
replenisher (`cull_warm`, `replenish`, `restock`). Laws about whole courses of
events are stated next to them as public proof functions.
