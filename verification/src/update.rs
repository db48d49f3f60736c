//! Waiting for an update.
use crate::inner::Inner;
use crate::observable::Observable;
use std::task::Waker;
use vstd::prelude::*;

verus! {

/// A wait for the next update of an observable, to be polled until the update comes.
///
/// A wait that is given up before that is to be cancelled, so that its waker is forgotten.
#[verifier::reject_recursive_types(T)]
pub struct AwaitObservableUpdate<'a, T>
where
    T: Clone,
{
    id: u128,
    observable: &'a mut Observable<T>,
}

impl<'a, T> AwaitObservableUpdate<'a, T>
where
    T: Clone,
{
    /// The number of the wait.
    pub closed spec fn id(self) -> u128 {
        self.id
    }

    /// The handle that waits.
    pub closed spec fn handle(self) -> &'a mut Observable<T> {
        self.observable
    }

    /// Asks for the update. If there is none yet, `waker` is kept, to be woken by the next change.
    pub fn poll(&mut self, waker: Waker) -> (update: Option<T>)
        ensures
            final(self).id() == old(self).id(),
            *final(final(self).handle()) == *final(old(self).handle()),
            final(self).handle().shares(*old(self).handle()),
            exists|inner: &mut Inner<T>|
                {
                    &&& #[trigger] old(self).handle().opens(inner)
                    &&& inner@ == final(self).handle().last().before
                    &&& final(inner)@ == final(self).handle().last().after
                },
            final(self).handle().turns() == old(self).handle().turns().push(
                final(self).handle().last(),
            ),
            ({
                let section = final(self).handle().last();
                let seen = old(self).handle().seen();
                &&& section.after == section.before.polled(old(self).id(), seen, waker)
                &&& match update {
                    Some(value) => {
                        &&& section.before.has_update(seen)
                        &&& final(self).handle().seen() == Some(section.before.version)
                        &&& call_ensures(T::clone, (&section.before.value,), value)
                    },
                    None => {
                        &&& !section.before.has_update(seen)
                        &&& final(self).handle().seen() == seen
                    },
                }
            }),
    {
        self.observable.poll_update(self.id, waker)
    }

    /// Gives up the wait: its waker is forgotten.
    pub fn cancel(&mut self)
        ensures
            final(self).id() == old(self).id(),
            *final(final(self).handle()) == *final(old(self).handle()),
            final(self).handle().shares(*old(self).handle()),
            exists|inner: &mut Inner<T>|
                {
                    &&& #[trigger] old(self).handle().opens(inner)
                    &&& inner@ == final(self).handle().last().before
                    &&& final(inner)@ == final(self).handle().last().after
                },
            final(self).handle().turns() == old(self).handle().turns().push(
                final(self).handle().last(),
            ),
            final(self).handle().seen() == old(self).handle().seen(),
            ({
                let section = final(self).handle().last();
                section.after == section.before.without_waker(old(self).id())
            }),
    {
        self.observable.cancel_update(self.id)
    }
}

/// What `from` returns is not a function of the handle: the number depends on the other waits.
impl<'a, T: Clone> vstd::std_specs::convert::FromSpecImpl<&'a mut Observable<T>>
    for AwaitObservableUpdate<'a, T> {
    open spec fn obeys_from_spec() -> bool {
        false
    }

    open spec fn from_spec(observable: &'a mut Observable<T>) -> Self {
        arbitrary()
    }
}

impl<'a, T: Clone> From<&'a mut Observable<T>> for AwaitObservableUpdate<'a, T> {
    /// Begins to wait for the next update of `observable`.
    fn from(observable: &'a mut Observable<T>) -> (update: Self)
        ensures
            *final(update.handle()) == *final(observable),
            update.handle().shares(*old(observable)),
            exists|inner: &mut Inner<T>|
                {
                    &&& #[trigger] old(observable).opens(inner)
                    &&& inner@ == update.handle().last().before
                    &&& final(inner)@ == update.handle().last().after
                },
            update.handle().turns() == old(observable).turns().push(update.handle().last()),
            update.handle().seen() == old(observable).seen(),
            ({
                let section = update.handle().last();
                &&& section.after == section.before.registered()
                &&& update.id() == section.after.future_count
            }),
    {
        let id = observable.register_update();
        Self { id, observable }
    }
}

} // verus!
