# hooch

The core of an asynchronous runtime, written in Verus. The functions of `src/` carry contracts that
the verifier proves; it takes on trust only the three calls into `dashmap` in `task::sender_map`.

- `utils`: the bounded ring buffer that the queues are made of.
- `task`: tasks with their tags and abort flags, and the manager that pairs waiting tasks with
  waiting executors. The map from executors to their ready queues is a `dashmap::DashMap`.
- `executor`: what a worker does with the tasks it receives.
- `reactor`: who waits for which event, and whom an event wakes.
- `sync`: the bounded channel.
- `spawner`, `runtime`: spawning tasks, awaiting them, and the life of a runtime.
- `fs`, `net`: opening files and sockets without blocking an executor.

The library decides and keeps the books; it starts no thread and touches no file or socket. Its
operations take the state they work on by `&mut`. `app/` is the rest: threads, locks, futures and
the operating system's event queue, by way of `mio`.

Each component has a ghost state, and functions on it that say what an operation makes of it. The
contracts of the operations speak of these functions, and so do the laws, the public proof
functions whose names begin with `law_`.
