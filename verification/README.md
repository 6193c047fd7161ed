# Wait-free queue and channel

- `src/waitfree_queue.rs`: `WaitFreeQueue<T, SIZE>`, a ring buffer for one writer
  and one reader that holds up to `SIZE - 1` values. Each side caches the other
  side's position and refreshes it only when the cache makes the queue look full
  or empty; the proofs show that this never changes an answer. Contracts are
  stated over the queue's contents (`Seq<T>`, oldest first), with `write_outcome`
  and `read_outcome` giving the effect of each operation; the first-in first-out
  laws are proved over these.
- `src/waitfree_channel.rs`: `AtomicChannel<T>`, which hands one value at a time
  from a writer handle to a reader handle through two alternating slots.
- Both types keep their positions in plain fields and are used through `&mut`,
  so the proofs cover the protocol run in sequence; a value shared between
  threads goes behind a lock, as the worker in `app/` does.
- `app/`: a background worker built on the queue, and a pointer carrier for
  sharing values across threads; neither is verified.
