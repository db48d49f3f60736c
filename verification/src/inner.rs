//! The state that all forks of an observable share.
use crate::state::{Section, State};
use crate::wake::{self, Waiters};
use std::task::Waker;
use vstd::prelude::*;

verus! {

/// The state that all forks of an observable share.
#[verifier::reject_recursive_types(T)]
pub struct Inner<T>
where
    T: Clone,
{
    version: u128,
    future_count: u128,
    value: T,
    waker: Waiters,
}

impl<T: Clone> View for Inner<T> {
    type V = State<T>;

    closed spec fn view(&self) -> State<T> {
        State {
            version: self.version,
            future_count: self.future_count,
            value: self.value,
            waiting: self.waker.waiting(),
            woken: self.waker.woken(),
        }
    }
}

impl<T> Inner<T>
where
    T: Clone,
{
    /// Creates the state of a new observable, at its first version, with nobody waiting.
    pub fn new(value: T) -> (inner: Self)
        ensures
            inner@ == State::initial(value),
    {
        Self {
            version: 0,
            future_count: 0,
            value,
            waker: Waiters::new(),
        }
    }

    /// Stores the waker of the wait `id`, in place of an earlier one.
    pub fn add_waker(&mut self, id: u128, waker: Waker)
        ensures
            final(self)@ == old(self)@.with_waker(id, waker),
    {
        self.waker.add_waker(id, waker);
    }

    /// Forgets the waker of the wait `id`, if there is one.
    pub fn remove_waker(&mut self, id: u128)
        ensures
            final(self)@ == old(self)@.without_waker(id),
    {
        self.waker.remove_waker(id);
    }

    /// Wakes every task that waits, and forgets the wakers. Returns which wakers were woken.
    fn notify(&mut self) -> (woken: Ghost<Seq<Waker>>)
        ensures
            final(self)@ == (State {
                waiting: Map::empty(),
                woken: old(self)@.woken + woken@,
                ..old(self)@
            }),
            wake::wakes_all(old(self)@.waiting, woken@),
    {
        self.waker.wake_all()
    }

    /// Applies the change that `change` makes to the value, if it reports (by `true`) that it
    /// made one: the version goes up, and every task that waits is woken.
    ///
    /// Returns `true` if a change was made.
    pub fn apply<F>(&mut self, change: F) -> (changed: bool)
    where
        F: FnOnce(&mut T) -> bool,
        requires
            forall|value: &mut T| *value == old(self)@.value ==> call_requires(change, (value,)),
        ensures
            exists|value: &mut T|
                {
                    &&& *value == old(self)@.value
                    &&& #[trigger] call_ensures(change, (value,), changed)
                    &&& if changed {
                        (Section { before: old(self)@, after: final(self)@ }).changes_to(
                            *final(value),
                        )
                    } else {
                        final(self)@ == (State { value: *final(value), ..old(self)@ })
                    }
                },
    {
        let changed = change(&mut self.value);
        if !changed {
            return false;
        }
        self.version = self.version.wrapping_add(1);
        let Ghost(woken) = self.notify();
        assert((old(self)@.woken + woken).skip(old(self)@.woken.len() as int) =~= woken);
        true
    }

    /// Clones the value, and says which version it is.
    pub fn snapshot(&self) -> (latest: (T, u128))
        ensures
            call_ensures(T::clone, (&self@.value,), latest.0),
            latest.1 == self@.version,
    {
        (self.value.clone(), self.version)
    }

    /// Numbers a new wait.
    pub fn register(&mut self) -> (id: u128)
        ensures
            final(self)@ == old(self)@.registered(),
            id == final(self)@.future_count,
    {
        self.future_count = self.future_count.wrapping_add(1);
        self.future_count
    }

    /// Polls the wait `id` of a handle that has seen the version `seen`.
    ///
    /// If there is an update, it is returned, a clone of the value with its version, and the wait
    /// is over. Else `waker` is kept, to be woken by the next change.
    pub fn poll(&mut self, id: u128, seen: Option<u128>, waker: Waker) -> (update: Option<(T, u128)>)
        ensures
            final(self)@ == old(self)@.polled(id, seen, waker),
            update is Some <==> old(self)@.has_update(seen),
            update matches Some((value, version)) ==> {
                &&& call_ensures(T::clone, (&old(self)@.value,), value)
                &&& version == old(self)@.version
            },
    {
        if seen == Some(self.version) {
            self.add_waker(id, waker);
            None
        } else {
            self.remove_waker(id);
            Some(self.snapshot())
        }
    }

    /// Counts the wakers that are stored.
    pub fn waker_count(&self) -> (count: usize)
        ensures
            count == self@.waiting.len(),
    {
        self.waker.len()
    }
}

} // verus!
