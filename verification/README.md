# yaar_lock

Locks, events, parking lots and clocks for threads and tasks, in verified Rust.

The library in `src/` holds the decisions of every primitive. What threads share
is one machine word, and each function is one atomic step on that word: it takes
the word as a plain value and its contract says what becomes of it. A thread that
cannot go on at once keeps its progress in a small value (an `Attempt`, a `Wait`, a
`Dequeue`) and takes further steps with it until it is told to block.

Waiting threads are nodes in a queue. Nodes are named by their addresses, and the
trait `queue::Memory` reads and writes them.

- `lock_word`, `queue`: the lock word and its queue of waiting nodes.
- `mutex`, `shared`, `sync`, `parker`: mutexes, events and parking lots for threads.
- `futures`, `future`: the same for tasks.
- `event`, `signal`, `thread_event`, `windows_api`: how threads block on each
  system, and clocks.
- modules named `*_protocol`: what holds of all threads together, such as mutual
  exclusion, however they take their steps.

`app/` runs the steps as atomic operations, blocks and wakes threads, and offers the
primitives through `lock_api` and as futures.
