//! Async and reactive synchronization model to keep multiple async tasks or threads partially
//! synchronized.
//!
//! An observable is not a clonable stream: versions may be skipped on the receiving side. If
//! updates are published too quickly, or a fork does not ask for updates any more, the fork just
//! retrieves the latest value the next time it asks.
//!
//! - [`state`] is the mathematical model of the state that all forks share,
//! - [`inner`] is that state itself, with the wakers of the tasks that wait for an update,
//! - [`shared`] is the way to it, a lock that is entered one turn at a time,
//! - [`observable`] holds the handles, which take turns at the lock,
//! - [`update`] is a wait for an update, to be polled,
//! - [`wake`] and [`sync`] say what is taken on trust of `std::task` and `std::sync`,
//! - [`laws`] holds what is proved of the shared state over its whole life,
//! - [`calls`] holds what is proved of the calls, and of calls that follow one another.
pub mod calls;
pub mod inner;
pub mod laws;
pub mod observable;
pub mod shared;
pub mod state;
pub mod sync;
pub mod update;
pub mod wake;

pub use crate::observable::Observable;
