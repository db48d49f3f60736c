# async-observable

A value that several tasks or threads keep in view. Every fork of an observable reaches the same
shared state; whoever publishes a new value wakes the forks that wait for one. Versions may be
skipped: a fork that asks late gets the latest value.

- `src/` is the library, verified with Verus: the shared state and its wakers (`inner`), the
  handles (`observable`), the wait for an update as something to be polled (`update`), the model
  that the contracts speak of (`state`), and what holds of all of it together (`laws`). What is
  taken on trust of the standard library stands in `sync` and `wake`.
- `app/` puts futures on top: `Observable::next().await`, and `Debug`.

The shared state sits behind a `std::sync::Mutex`, so no contract can tell beforehand what a call
will find there. A handle therefore keeps, in ghost state, the last critical section that it went
through. Its contracts say that this is a section of the handle's own lock, and how what it left
follows from what it found.

Versions and waits are numbered in `u128`, and the numbers wrap around.
