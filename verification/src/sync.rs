//! What is taken on trust of `std::sync`.
//!
//! Other handles may run between any two calls, so what a lock hands out is not known beforehand:
//! no contract here says anything of it. What is done to it until the lock is released is proved.
use std::ops::DerefMut;
use std::sync::{Mutex, MutexGuard, PoisonError};
use vstd::prelude::*;

verus! {

/// `std::sync::Mutex`. As a value it stands for which lock it is, not for what it protects.
#[verifier::external_type_specification]
#[verifier::external_body]
#[verifier::reject_recursive_types(T)]
pub struct ExMutex<T: ?Sized>(std::sync::Mutex<T>);

/// `std::sync::MutexGuard`, which holds the lock until it is dropped.
#[verifier::external_type_specification]
#[verifier::external_body]
#[verifier::reject_recursive_types(T)]
pub struct ExMutexGuard<'a, T: ?Sized + 'a>(std::sync::MutexGuard<'a, T>);

/// `std::sync::PoisonError`, which wraps a guard if another holder of the lock has panicked.
#[verifier::external_type_specification]
#[verifier::external_body]
#[verifier::reject_recursive_types(T)]
pub struct ExPoisonError<T>(std::sync::PoisonError<T>);

/// `std::sync::Mutex::new` makes a lock around `t`. Nothing is claimed: what the lock protects is
/// seen only through a guard.
pub assume_specification<T>[ Mutex::<T>::new ](t: T) -> (mutex: Mutex<T>);

/// `std::sync::Mutex::lock` waits for the lock and takes it. Nothing is claimed of the guard, nor
/// of whether the lock is poisoned: both depend on what other holders have done. A thread that
/// holds the lock already must not take it again: it would panic or wait for itself. The library
/// holds one guard at a time; what it runs under the lock are the caller's closures, the clone and
/// the comparison of the value, and the wake-ups, none of which may come back for the lock.
pub assume_specification<T: ?Sized>[ Mutex::<T>::lock ](mutex: &Mutex<T>) -> (guard: Result<
    MutexGuard<'_, T>,
    PoisonError<MutexGuard<'_, T>>,
>);

/// `std::sync::PoisonError::into_inner` gives the guard that the error wraps. Nothing is claimed
/// of the guard.
pub assume_specification<T>[ PoisonError::<T>::into_inner ](error: PoisonError<T>) -> (guard: T);

/// `deref_mut` of `std::sync::MutexGuard` gives access to what the lock protects. Nothing is
/// claimed of the value found there, which is what the last holder has left.
pub assume_specification<'a, 'b, T: ?Sized>[ <MutexGuard<'a, T> as DerefMut>::deref_mut ](
    guard: &'b mut MutexGuard<'a, T>,
) -> (value: &'b mut T);

} // verus!
