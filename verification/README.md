# naos_selector

A readiness selector over the NaOS capability epoll interface, with its
decisions verified in Verus.

- `src/` is the verified library. It makes no system call: it says which call
  comes next, and takes the answer as plain values.
  - `selector`: creation, registrations, and the wakeups that are noted
  - `select`: a wait for readiness, step by step
  - `waker`, `naos`: wakers, and capability handles as event sources
  - `abi`, `token`, `event`, `deadline`, `error`, `text`: the values involved
  - `laws`: what holds across operations
- `app/` makes the calls through `naos_sys` and shares a selector between
  threads.
- `tests/` runs the library on concrete values.
