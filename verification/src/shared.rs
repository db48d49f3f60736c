//! The way to what is shared: a lock that is entered one turn at a time.
//!
//! What the lock protects can be changed only in a turn, by one closure that is called once, and
//! each turn is written down. The code here knows nothing of what is shared, so it cannot change it
//! by itself.
use std::ops::DerefMut;
use std::sync::{Arc, Mutex, MutexGuard, PoisonError};
use vstd::prelude::*;

verus! {

/// One of the handles to a lock, with a record of the turns that were taken through it.
#[verifier::reject_recursive_types(X)]
pub struct Shared<X> {
    mutex: Arc<Mutex<X>>,
    turns: Ghost<Seq<(X, X)>>,
}

/// The lock, held in order to look at what is shared.
#[verifier::reject_recursive_types(X)]
pub struct Held<'a, X> {
    guard: MutexGuard<'a, X>,
}

impl<'a, X> Held<'a, X> {
    /// The guard by which the lock is held.
    pub closed spec fn guard(self) -> MutexGuard<'a, X> {
        self.guard
    }

    /// `x` is what this guard gives access to.
    pub open spec fn opens(self, x: &mut X) -> bool {
        exists|guard: &mut MutexGuard<'a, X>|
            {
                &&& *guard == self.guard()
                &&& #[trigger] call_ensures(
                    <MutexGuard<'a, X> as DerefMut>::deref_mut,
                    (guard,),
                    x,
                )
            }
    }

    /// Looks at what is shared, and releases the lock.
    pub(crate) fn read<R, F>(self, look: F) -> (result: R)
    where
        F: FnOnce(&X) -> R,
        requires
            forall|x: &X| call_requires(look, (x,)),
        ensures
            exists|x: &mut X|
                {
                    &&& #[trigger] self.opens(x)
                    &&& *final(x) == *x
                    &&& call_ensures(look, (&*x,), result)
                },
    {
        let mut guard = self.guard;
        let x: &mut X = guard.deref_mut();
        assert(self.opens(x));
        look(&*x)
    }
}

impl<X> Shared<X> {
    /// Whether the two lead to the same lock.
    pub closed spec fn same_lock(self, other: Self) -> bool {
        self.mutex == other.mutex
    }

    /// The lock was made around `x`.
    pub closed spec fn made_with(self, x: X) -> bool {
        call_ensures(Mutex::<X>::new, (x,), *self.mutex)
    }

    /// `guard` is what taking the lock gives: the guard of the lock that was taken, or, if the lock
    /// is poisoned, the guard that the error wraps.
    pub closed spec fn locks_to(self, guard: MutexGuard<'_, X>) -> bool {
        ||| call_ensures(Mutex::<X>::lock, (&*self.mutex,), Ok(guard))
        ||| exists|e: PoisonError<MutexGuard<'_, X>>|
            {
                &&& #[trigger] call_ensures(Mutex::<X>::lock, (&*self.mutex,), Err(e))
                &&& call_ensures(PoisonError::into_inner, (e,), guard)
            }
    }

    /// `x` is what the lock gives access to: what `deref_mut` makes of a guard that taking the lock
    /// gives.
    pub open spec fn opens(self, x: &mut X) -> bool {
        exists|guard: &mut MutexGuard<'_, X>|
            {
                &&& self.locks_to(*guard)
                &&& #[trigger] call_ensures(
                    <MutexGuard<'_, X> as DerefMut>::deref_mut,
                    (guard,),
                    x,
                )
            }
    }

    /// The turns that were taken through here: what each of them found, and what it left. The first
    /// entry is what the lock was made around. A fork has the turns of its origin to begin with.
    pub closed spec fn turns(self) -> Seq<(X, X)> {
        self.turns@
    }

    /// Makes a lock around `x`.
    pub(crate) fn new(x: X) -> (shared: Self)
        ensures
            shared.made_with(x),
            shared.turns() == seq![(x, x)],
    {
        let ghost made = x;
        let ghost turns = seq![(made, made)];
        let mutex = Mutex::new(x);
        assert(call_ensures(Mutex::<X>::new, (made,), mutex));
        let shared = Shared { mutex: Arc::new(mutex), turns: Ghost(turns) };
        assert(call_ensures(Mutex::<X>::new, (made,), *shared.mutex));
        shared
    }

    /// Another way to the same lock.
    pub(crate) fn fork(&self) -> (shared: Self)
        ensures
            shared == *self,
            shared.same_lock(*self),
    {
        Shared { mutex: self.mutex.clone(), turns: Ghost(self.turns@) }
    }

    /// Takes the lock, to look at what is shared. A lock that was poisoned by a panic is taken all
    /// the same.
    pub(crate) fn hold(&self) -> (held: Held<'_, X>)
        ensures
            self.locks_to(held.guard()),
    {
        let guard = match self.mutex.lock() {
            Ok(guard) => guard,
            Err(e) => e.into_inner(),
        };
        Held { guard }
    }

    /// Takes a turn: takes the lock, calls `step` on what is shared, and releases the lock.
    pub(crate) fn run<R, F>(&mut self, step: F) -> (result: R)
    where
        F: FnOnce(&mut X) -> R,
        requires
            forall|x: &mut X| call_requires(step, (x,)),
        ensures
            final(self).same_lock(*old(self)),
            exists|x: &mut X, given: &mut X|
                {
                    &&& #[trigger] old(self).opens(x)
                    &&& *x == *given
                    &&& *final(x) == *final(given)
                    &&& #[trigger] call_ensures(step, (given,), result)
                    &&& final(self).turns() == old(self).turns().push((*x, *final(x)))
                },
    {
        let ghost before;
        let ghost after;
        let result = {
            let mut held = self.hold();
            let x: &mut X = held.guard.deref_mut();
            assert(self.opens(x));
            proof {
                before = *x;
            }
            let result = step(x);
            proof {
                after = *x;
            }
            result
        };
        self.turns = Ghost(self.turns@.push((before, after)));
        result
    }
}

/// To lead to the same lock is an equivalence, and what leads to the same lock opens the same.
pub proof fn law_same_lock<X>(one: Shared<X>, two: Shared<X>, three: Shared<X>)
    ensures
        one.same_lock(one),
        one.same_lock(two) ==> two.same_lock(one),
        one.same_lock(two) && two.same_lock(three) ==> one.same_lock(three),
        one.same_lock(two) ==> forall|x: X| #[trigger] one.made_with(x) == two.made_with(x),
        one.same_lock(two) ==> forall|guard: MutexGuard<'_, X>| #[trigger]
            one.locks_to(guard) == two.locks_to(guard),
{
}

} // verus!
