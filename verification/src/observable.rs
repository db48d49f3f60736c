//! The handles to an observable value.
use crate::shared::{Shared, Held};
use crate::inner::Inner;
use crate::state::{Section, State};
use crate::update::AwaitObservableUpdate;
use std::ops::DerefMut;
use std::sync::MutexGuard;
use std::task::Waker;
use vstd::prelude::*;

verus! {

/// Wraps a value and lets you fork the state to synchronize it between tasks and threads.
///
/// A handle reaches the shared state through a lock, and other handles may come first. So the
/// contracts speak of [`last`](Observable::last): what a call found there, and what it left. They
/// also say that this is what the handle's lock gave access to ([`opens`](Observable::opens)), and
/// that it is the only turn that the call took ([`turns`](Observable::turns)).
///
/// If you publish multiple versions directly after each other there are no guarantees that all
/// forks will receive every change. But as long as every fork is constantly asking for changes
/// (via [`next`](Observable::next)), every fork receives the latest version.
#[verifier::reject_recursive_types(T)]
pub struct Observable<T>
where
    T: Clone,
{
    inner: Shared<Inner<T>>,
    version: Option<u128>,
}

impl<T> Observable<T>
where
    T: Clone,
{
    /// Whether the two handles are forks of one another: they reach the same shared state.
    pub closed spec fn shares(self, other: Self) -> bool {
        self.inner.same_lock(other.inner)
    }

    /// The latest version that this handle has consumed, if any.
    pub closed spec fn seen(self) -> Option<u128> {
        self.version
    }

    /// The critical sections in which this handle changed the shared state or could have, one for
    /// each turn that it took: the state that was found behind the lock and the state that was left
    /// there. The first is the state that the observable was made with, found and left. A fork
    /// begins with the sections of the handle that it was forked from.
    pub closed spec fn turns(self) -> Seq<Section<T>> {
        self.inner.turns().map_values(
            |turn: (Inner<T>, Inner<T>)| Section { before: turn.0@, after: turn.1@ },
        )
    }

    /// The last of these sections.
    pub open spec fn last(self) -> Section<T> {
        self.turns().last()
    }

    /// `guard` is what taking this handle's lock gives: the guard of the lock that was taken, or,
    /// if the lock is poisoned, the guard that the error wraps.
    pub closed spec fn locks_to(self, guard: MutexGuard<'_, Inner<T>>) -> bool {
        self.inner.locks_to(guard)
    }

    /// `inner` is what this handle's lock gives access to: what `deref_mut` makes of a guard that
    /// taking the lock gives. While it is held nobody else comes to the shared state, so `*inner`
    /// is what was found there, and `*final(inner)` what is left.
    pub open spec fn opens(self, inner: &mut Inner<T>) -> bool {
        exists|guard: &mut MutexGuard<'_, Inner<T>>|
            {
                &&& self.locks_to(*guard)
                &&& #[trigger] call_ensures(
                    <MutexGuard<'_, Inner<T>> as DerefMut>::deref_mut,
                    (guard,),
                    inner,
                )
            }
    }

    /// The shared state that this handle reaches was made with the state `initial`.
    pub closed spec fn made_with(self, initial: State<T>) -> bool {
        exists|inner: Inner<T>|
            {
                &&& #[trigger] self.inner.made_with(inner)
                &&& inner@ == initial
            }
    }

    /// Create a new observable from any value.
    pub fn new(value: T) -> (observable: Self)
        ensures
            observable.made_with(State::initial(value)),
            observable.seen() == Some(0u128),
            observable.turns().len() == 1,
            observable.last().before == State::initial(value),
            observable.last().only_reads(),
    {
        let inner = Inner::new(value);
        let ghost made = inner;
        let observable = Observable { inner: Shared::new(inner), version: Some(0) };
        assert(observable.inner.made_with(made));
        observable
    }

    /// Store provided value and notify forks.
    pub fn publish(&mut self, value: T)
        ensures
            final(self).shares(*old(self)),
            exists|inner: &mut Inner<T>|
                {
                    &&& #[trigger] old(self).opens(inner)
                    &&& inner@ == final(self).last().before
                    &&& final(inner)@ == final(self).last().after
                },
            final(self).turns() == old(self).turns().push(final(self).last()),
            final(self).seen() == old(self).seen(),
            final(self).last().changes_to(value),
    {
        let store = |v: &mut T|
            ensures
                *final(v) == value,
            { *v = value };
        self.modify(store);
    }

    /// Modify the underlying value and notify forks.
    pub fn modify<M>(&mut self, modify: M)
    where
        M: FnOnce(&mut T),
        requires
            forall|value: &mut T| call_requires(modify, (value,)),
        ensures
            final(self).shares(*old(self)),
            exists|inner: &mut Inner<T>|
                {
                    &&& #[trigger] old(self).opens(inner)
                    &&& inner@ == final(self).last().before
                    &&& final(inner)@ == final(self).last().after
                },
            final(self).turns() == old(self).turns().push(final(self).last()),
            final(self).seen() == old(self).seen(),
            exists|value: &mut T|
                {
                    &&& *value == final(self).last().before.value
                    &&& #[trigger] call_ensures(modify, (value,), ())
                    &&& final(self).last().changes_to(*final(value))
                },
    {
        let always = |_v: &T| -> (met: bool)
            ensures
                met,
            { true };
        self.modify_conditional(always, modify);
    }

    /// If the condition is met, modify the underlying value and notify forks.
    ///
    /// Returns `true` if the modification was executed.
    pub fn modify_conditional<C, M>(&mut self, condition: C, modify: M) -> (modified: bool)
    where
        C: FnOnce(&T) -> bool,
        M: FnOnce(&mut T),
        requires
            forall|value: &T| call_requires(condition, (value,)),
            forall|value: &mut T|
                call_ensures(condition, (&*value,), true) ==> call_requires(modify, (value,)),
        ensures
            final(self).shares(*old(self)),
            exists|inner: &mut Inner<T>|
                {
                    &&& #[trigger] old(self).opens(inner)
                    &&& inner@ == final(self).last().before
                    &&& final(inner)@ == final(self).last().after
                },
            final(self).turns() == old(self).turns().push(final(self).last()),
            final(self).seen() == old(self).seen(),
            call_ensures(condition, (&final(self).last().before.value,), modified),
            modified ==> exists|value: &mut T|
                {
                    &&& *value == final(self).last().before.value
                    &&& #[trigger] call_ensures(modify, (value,), ())
                    &&& final(self).last().changes_to(*final(value))
                },
            !modified ==> final(self).last().only_reads(),
    {
        let change = |value: &mut T| -> (met: bool)
            requires
                call_requires(condition, (&*value,)),
                call_ensures(condition, (&*value,), true) ==> forall|v: &mut T|
                    *v == *value ==> call_requires(modify, (v,)),
            ensures
                call_ensures(condition, (&*old(value),), met),
                met ==> exists|v: &mut T|
                    {
                        &&& *v == *old(value)
                        &&& #[trigger] call_ensures(modify, (v,), ())
                        &&& *final(v) == *final(value)
                    },
                !met ==> *final(value) == *old(value),
            {
                if condition(value) {
                    modify(value);
                    true
                } else {
                    false
                }
            };
        self.apply(change)
    }

    /// Optionally apply the change that the provided closure makes.
    ///
    /// Returns `true` if a change was made.
    pub(crate) fn apply<F>(&mut self, change: F) -> (changed: bool)
    where
        F: FnOnce(&mut T) -> bool,
        requires
            forall|value: &mut T| call_requires(change, (value,)),
        ensures
            final(self).shares(*old(self)),
            exists|inner: &mut Inner<T>|
                {
                    &&& #[trigger] old(self).opens(inner)
                    &&& inner@ == final(self).last().before
                    &&& final(inner)@ == final(self).last().after
                },
            final(self).turns() == old(self).turns().push(final(self).last()),
            final(self).seen() == old(self).seen(),
            exists|value: &mut T|
                {
                    &&& *value == final(self).last().before.value
                    &&& #[trigger] call_ensures(change, (value,), changed)
                    &&& if changed {
                        final(self).last().changes_to(*final(value))
                    } else {
                        final(self).last().after == (State {
                            value: *final(value),
                            ..final(self).last().before
                        })
                    }
                },
    {
        let step = |inner: &mut Inner<T>| -> (changed: bool)
            requires
                forall|value: &mut T| call_requires(change, (value,)),
            ensures
                exists|value: &mut T|
                    {
                        &&& *value == old(inner)@.value
                        &&& #[trigger] call_ensures(change, (value,), changed)
                        &&& if changed {
                            (Section { before: old(inner)@, after: final(inner)@ }).changes_to(
                                *final(value),
                            )
                        } else {
                            final(inner)@ == (State { value: *final(value), ..old(inner)@ })
                        }
                    },
            { inner.apply(change) };
        self.turn(step)
    }

    /// Takes a turn: runs `step` on the shared state, behind the lock.
    fn turn<R, F>(&mut self, step: F) -> (result: R)
    where
        F: FnOnce(&mut Inner<T>) -> R,
        requires
            forall|inner: &mut Inner<T>| call_requires(step, (inner,)),
        ensures
            final(self).shares(*old(self)),
            final(self).seen() == old(self).seen(),
            final(self).turns() == old(self).turns().push(final(self).last()),
            exists|inner: &mut Inner<T>, given: &mut Inner<T>|
                {
                    &&& #[trigger] old(self).opens(inner)
                    &&& inner@ == final(self).last().before
                    &&& final(inner)@ == final(self).last().after
                    &&& given@ == inner@
                    &&& final(given)@ == final(inner)@
                    &&& #[trigger] call_ensures(step, (given,), result)
                },
    {
        let result = self.inner.run(step);
        assert forall|inner: &mut Inner<T>| #[trigger] old(self).inner.opens(inner) implies old(
            self,
        ).opens(inner) by {}
        assert(self.turns() =~= old(self).turns().push(self.last()));
        result
    }

    /// Same as clone, but *the reset causes the fork to instantly have a change available* with
    /// the current state.
    pub fn clone_and_reset(&self) -> (fork: Observable<T>)
        ensures
            fork.shares(*self),
            fork.seen() is None,
            fork.turns() == self.turns(),
            fork.last() == self.last(),
    {
        Self { inner: self.inner.fork(), version: None }
    }

    /// Creates a clone of latest version of the observable value, *without consuming the change!*
    ///
    /// Which value is found depends on the other handles. What is promised is that a clone of it
    /// comes back.
    pub fn latest(&self) -> (value: T)
        ensures
            exists|inner: &mut Inner<T>|
                {
                    &&& #[trigger] self.opens(inner)
                    &&& final(inner)@ == inner@
                    &&& call_ensures(T::clone, (&inner@.value,), value)
                },
    {
        let look = |inner: &Inner<T>| -> (value: T)
            ensures
                call_ensures(T::clone, (&inner@.value,), value),
            {
                let (value, _) = inner.snapshot();
                value
            };
        let held = self.lock();
        let ghost taken = held;
        let result = held.read(look);
        assert forall|inner: &mut Inner<T>| #[trigger] taken.opens(inner) implies self.opens(
            inner,
        ) by {}
        result
    }

    /// Wait until a new version of the observable was published and return a clone of the new
    /// version.
    ///
    /// What is returned is the wait, which is to be polled for that clone.
    pub fn next(&mut self) -> (update: AwaitObservableUpdate<'_, T>)
        ensures
            *final(update.handle()) == *final(self),
            update.handle().shares(*old(self)),
            exists|inner: &mut Inner<T>|
                {
                    &&& #[trigger] old(self).opens(inner)
                    &&& inner@ == update.handle().last().before
                    &&& final(inner)@ == update.handle().last().after
                },
            update.handle().turns() == old(self).turns().push(update.handle().last()),
            update.handle().seen() == old(self).seen(),
            ({
                let section = update.handle().last();
                &&& section.after == section.before.registered()
                &&& update.id() == section.after.future_count
            }),
    {
        AwaitObservableUpdate::from(self)
    }

    /// Skip any potential updates and retrieve the latest version of the observed value.
    pub fn synchronize(&mut self) -> (value: T)
        ensures
            final(self).shares(*old(self)),
            exists|inner: &mut Inner<T>|
                {
                    &&& #[trigger] old(self).opens(inner)
                    &&& inner@ == final(self).last().before
                    &&& final(inner)@ == final(self).last().after
                },
            final(self).turns() == old(self).turns().push(final(self).last()),
            final(self).last().only_reads(),
            final(self).seen() == Some(final(self).last().before.version),
            call_ensures(T::clone, (&final(self).last().before.value,), value),
    {
        let step = |inner: &mut Inner<T>| -> (latest: (T, u128))
            ensures
                final(inner)@ == old(inner)@,
                call_ensures(T::clone, (&old(inner)@.value,), latest.0),
                latest.1 == old(inner)@.version,
            { inner.snapshot() };
        let (value, version) = self.turn(step);
        self.version = Some(version);
        value
    }

    /// Splits the observable into two handles to the same value
    ///
    /// This is very useful if you are spawning threads or tasks which get an owned instance of
    /// the observable
    pub fn split(self) -> (handles: (Self, Self))
        ensures
            handles.0 == self,
            handles.1 == self,
    {
        (self.clone(), self)
    }

    /// The version that this handle has consumed last. After a reset there is none.
    pub fn version(&self) -> (version: Option<u128>)
        ensures
            version == self.seen(),
    {
        self.version
    }

    /// How many tasks wait for an update. This depends on the other handles, and may have changed
    /// by the time it is returned.
    pub fn waker_count(&self) -> (count: usize)
        ensures
            exists|inner: &mut Inner<T>|
                {
                    &&& #[trigger] self.opens(inner)
                    &&& final(inner)@ == inner@
                    &&& count == inner@.waiting.len()
                },
    {
        let look = |inner: &Inner<T>| -> (count: usize)
            ensures
                count == inner@.waiting.len(),
            { inner.waker_count() };
        let held = self.lock();
        let ghost taken = held;
        let result = held.read(look);
        assert forall|inner: &mut Inner<T>| #[trigger] taken.opens(inner) implies self.opens(
            inner,
        ) by {}
        result
    }

    /// Numbers a new wait.
    pub(crate) fn register_update(&mut self) -> (id: u128)
        ensures
            final(self).shares(*old(self)),
            exists|inner: &mut Inner<T>|
                {
                    &&& #[trigger] old(self).opens(inner)
                    &&& inner@ == final(self).last().before
                    &&& final(inner)@ == final(self).last().after
                },
            final(self).turns() == old(self).turns().push(final(self).last()),
            final(self).seen() == old(self).seen(),
            final(self).last().after == final(self).last().before.registered(),
            id == final(self).last().after.future_count,
    {
        let step = |inner: &mut Inner<T>| -> (id: u128)
            ensures
                final(inner)@ == old(inner)@.registered(),
                id == final(inner)@.future_count,
            { inner.register() };
        self.turn(step)
    }

    /// Polls the wait `id`. An update that is delivered is consumed.
    pub(crate) fn poll_update(&mut self, id: u128, waker: Waker) -> (update: Option<T>)
        ensures
            final(self).shares(*old(self)),
            exists|inner: &mut Inner<T>|
                {
                    &&& #[trigger] old(self).opens(inner)
                    &&& inner@ == final(self).last().before
                    &&& final(inner)@ == final(self).last().after
                },
            final(self).turns() == old(self).turns().push(final(self).last()),
            final(self).last().after == final(self).last().before.polled(
                id,
                old(self).seen(),
                waker,
            ),
            update is Some <==> final(self).last().before.has_update(old(self).seen()),
            match update {
                Some(value) => {
                    &&& final(self).seen() == Some(final(self).last().before.version)
                    &&& call_ensures(T::clone, (&final(self).last().before.value,), value)
                },
                None => final(self).seen() == old(self).seen(),
            },
    {
        let seen = self.version;
        let step = |inner: &mut Inner<T>| -> (update: Option<(T, u128)>)
            ensures
                final(inner)@ == old(inner)@.polled(id, seen, waker),
                update is Some <==> old(inner)@.has_update(seen),
                update matches Some((value, version)) ==> {
                    &&& call_ensures(T::clone, (&old(inner)@.value,), value)
                    &&& version == old(inner)@.version
                },
            { inner.poll(id, seen, waker) };
        match self.turn(step) {
            Some((value, version)) => {
                self.version = Some(version);
                Some(value)
            },
            None => None,
        }
    }

    /// Gives up the wait `id`.
    pub(crate) fn cancel_update(&mut self, id: u128)
        ensures
            final(self).shares(*old(self)),
            exists|inner: &mut Inner<T>|
                {
                    &&& #[trigger] old(self).opens(inner)
                    &&& inner@ == final(self).last().before
                    &&& final(inner)@ == final(self).last().after
                },
            final(self).turns() == old(self).turns().push(final(self).last()),
            final(self).seen() == old(self).seen(),
            final(self).last().after == final(self).last().before.without_waker(id),
    {
        let step = |inner: &mut Inner<T>|
            ensures
                final(inner)@ == old(inner)@.without_waker(id),
            { inner.remove_waker(id) };
        self.turn(step)
    }

    /// Takes the lock, to look at the shared state. A lock that was poisoned by a panic is taken all
    /// the same.
    pub(crate) fn lock(&self) -> (held: Held<'_, Inner<T>>)
        ensures
            self.locks_to(held.guard()),
    {
        self.inner.hold()
    }
}

impl<T> Observable<T>
where
    T: Clone + Eq,
{
    /// Publish a change if the new value differs from the current one.
    ///
    /// Returns `true` if a change was made.
    pub fn publish_if_changed(&mut self, value: T) -> (changed: bool)
        ensures
            final(self).shares(*old(self)),
            exists|inner: &mut Inner<T>|
                {
                    &&& #[trigger] old(self).opens(inner)
                    &&& inner@ == final(self).last().before
                    &&& final(inner)@ == final(self).last().after
                },
            final(self).turns() == old(self).turns().push(final(self).last()),
            final(self).seen() == old(self).seen(),
            call_ensures(T::ne, (&final(self).last().before.value, &value), changed),
            changed ==> final(self).last().changes_to(value),
            !changed ==> final(self).last().only_reads(),
    {
        let replace = |v: &mut T| -> (differs: bool)
            ensures
                call_ensures(T::ne, (&*old(v), &value), differs),
                *final(v) == (if differs { value } else { *old(v) }),
            {
                if *v != value {
                    *v = value;
                    true
                } else {
                    false
                }
            };
        self.apply(replace)
    }
}

impl<T> Clone for Observable<T>
where
    T: Clone,
{
    /// Forks the observable: the fork has seen what this handle has seen.
    fn clone(&self) -> (fork: Self)
        ensures
            fork == *self,
    {
        Self { inner: self.inner.fork(), version: self.version }
    }
}

/// What `from` returns is not a function of the value: each call makes a shared state of its own.
impl<T: Clone> vstd::std_specs::convert::FromSpecImpl<T> for Observable<T> {
    open spec fn obeys_from_spec() -> bool {
        false
    }

    open spec fn from_spec(value: T) -> Self {
        arbitrary()
    }
}

impl<T: Clone> From<T> for Observable<T> {
    /// Create a new observable from any value. Same as calling `new`.
    fn from(value: T) -> (observable: Self)
        ensures
            observable.made_with(State::initial(value)),
            observable.seen() == Some(0u128),
            observable.turns().len() == 1,
            observable.last().before == State::initial(value),
            observable.last().only_reads(),
    {
        Observable::new(value)
    }
}

/// To share is an equivalence, and equal handles share. Handles that share have the same lock: they
/// were made with the same state, and what one of them may find behind the lock the other may.
pub proof fn law_sharing<T: Clone>(one: Observable<T>, two: Observable<T>, three: Observable<T>)
    ensures
        one == two ==> one.shares(two),
        one.shares(one),
        one.shares(two) ==> two.shares(one),
        one.shares(two) && two.shares(three) ==> one.shares(three),
        one.shares(two) ==> forall|initial: State<T>| #[trigger]
            one.made_with(initial) == two.made_with(initial),
        one.shares(two) ==> forall|guard: MutexGuard<'_, Inner<T>>| #[trigger]
            one.locks_to(guard) == two.locks_to(guard),
        one.shares(two) ==> forall|inner: &mut Inner<T>| #[trigger]
            one.opens(inner) == two.opens(inner),
{
    crate::shared::law_same_lock(one.inner, two.inner, three.inner);
    crate::shared::law_same_lock(two.inner, one.inner, three.inner);
}

} // verus!
