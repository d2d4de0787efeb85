# what-the-async

An async runtime following the executor-reactor model, with its decisions
verified.

- `src/` is the library. Executors, timers, channels, sockets and parking threads
  are state machines and data structures here, with contracts that Verus proves.
  What several of them promise together is stated as `law_*` proof functions next
  to them.
- `app/` is the runtime itself: it owns the threads, the clock, the sockets and
  the futures, and carries out what the library decides.
- `tests/` runs the library.

## Executor

Executors are in charge of polling tasks and spawning futures. A worker takes a
task from its own queue, from the shared one or from another worker, and parks
while there is none. A task that waits is held by its waker, and waking it puts
it back into the shared queue.

## Reactor

Reactors handle side effects, like OS events or timers. Leaf futures put their
wakers onto the reactor, in order to wake up when the resources are ready.
