//! The mathematical model of the state that all forks of an observable share.
use std::task::Waker;
use vstd::prelude::*;

verus! {

/// What the forks of an observable share.
#[verifier::ext_equal]
#[verifier::reject_recursive_types(T)]
pub struct State<T> {
    /// The number of the current version.
    pub version: u128,
    /// How many waits have been numbered so far: the number of the latest one.
    pub future_count: u128,
    /// The current value.
    pub value: T,
    /// The wakers of the waits that are pending, by the wait's number.
    pub waiting: Map<u128, Waker>,
    /// The wakers that were woken so far, in their order, one entry for each wake-up.
    pub woken: Seq<Waker>,
}

/// The number that follows `n`. Both counters start over once they have used all of `u128`.
pub open spec fn successor(n: u128) -> u128 {
    if n == u128::MAX {
        0
    } else {
        (n + 1) as u128
    }
}

impl<T> State<T> {
    /// The state of a new observable.
    pub open spec fn initial(value: T) -> State<T> {
        State {
            version: 0,
            future_count: 0,
            value,
            waiting: Map::empty(),
            woken: Seq::empty(),
        }
    }

    /// The state after a change to `value` that woke `woken`: a new version, and nobody waits any
    /// more.
    pub open spec fn changed_to(self, value: T, woken: Seq<Waker>) -> State<T> {
        State {
            version: successor(self.version),
            value,
            waiting: Map::empty(),
            woken: self.woken + woken,
            ..self
        }
    }

    /// The state after a new wait was given its number, which is the new `future_count`.
    pub open spec fn registered(self) -> State<T> {
        State { future_count: successor(self.future_count), ..self }
    }

    /// The state in which `waker` stands for the wait `id`, in place of an earlier waker.
    pub open spec fn with_waker(self, id: u128, waker: Waker) -> State<T> {
        State { waiting: self.waiting.insert(id, waker), ..self }
    }

    /// The state in which the wait `id` has no waker.
    pub open spec fn without_waker(self, id: u128) -> State<T> {
        State { waiting: self.waiting.remove(id), ..self }
    }

    /// Whether there is an update for a handle that has seen the version `seen`. A handle that
    /// has seen none (`None`) always has one.
    pub open spec fn has_update(self, seen: Option<u128>) -> bool {
        seen != Some(self.version)
    }

    /// The state after the wait `id` of a handle that has seen the version `seen` was polled.
    pub open spec fn polled(self, id: u128, seen: Option<u128>, waker: Waker) -> State<T> {
        if self.has_update(seen) {
            self.without_waker(id)
        } else {
            self.with_waker(id, waker)
        }
    }
}

/// One critical section: what was found in the shared state when the lock was taken, and what was
/// left in it when the lock was released.
#[verifier::reject_recursive_types(T)]
pub struct Section<T> {
    pub before: State<T>,
    pub after: State<T>,
}

impl<T> Section<T> {
    /// The wakers that were woken in the section.
    pub open spec fn woken(self) -> Seq<Waker> {
        self.after.woken.skip(self.before.woken.len() as int)
    }

    /// The section changed the value to `value`, and woke everybody who waited, once for each wait
    /// and nobody else.
    pub open spec fn changes_to(self, value: T) -> bool {
        &&& self.after == self.before.changed_to(value, self.woken())
        &&& crate::wake::wakes_all(self.before.waiting, self.woken())
    }

    /// The section left all as it was, and woke nobody.
    pub open spec fn only_reads(self) -> bool {
        self.after == self.before
    }
}

} // verus!
