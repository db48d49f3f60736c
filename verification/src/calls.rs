//! What calls of the handles do, and how calls that follow one another relate.
//!
//! The laws here are about the calls themselves: that a call was made, with what arguments and with
//! what result, is written `call_ensures`. The handles in them may be forks of one another or one
//! and the same handle at different times. Where a law says that calls follow one another
//! undisturbed, nobody else took the lock from the first turn of the first call to the last turn of
//! the last, so each turn finds what the turn before has left.
use crate::observable::Observable;
use crate::state::Section;
use crate::update::AwaitObservableUpdate;
use std::task::Waker;
use vstd::prelude::*;
use vstd::std_specs::cmp::PartialEqSpec;

verus! {

/// The turns that a handle has taken between two times.
pub open spec fn new_turns<T: Clone>(
    earlier: Observable<T>,
    later: Observable<T>,
) -> Seq<Section<T>> {
    later.turns().skip(earlier.turns().len() as int)
}

/// The turns follow one another undisturbed: each finds what the one before has left.
pub open spec fn undisturbed<T>(turns: Seq<Section<T>>) -> bool {
    forall|i: int, j: int|
        #![trigger turns[i], turns[j]]
        0 <= i && i + 1 == j && j < turns.len() ==> turns[j].before == turns[i].after
}

/// A call that takes one turn adds that turn to the record, and nothing else.
proof fn lemma_one_turn<T: Clone>(earlier: Observable<T>, later: Observable<T>)
    requires
        later.turns() == earlier.turns().push(later.last()),
    ensures
        new_turns(earlier, later) == seq![later.last()],
{
    assert(new_turns(earlier, later) =~= seq![later.last()]);
}

/// Two single turns that follow one another undisturbed.
proof fn lemma_two_turns<T>(one: Section<T>, two: Section<T>)
    requires
        undisturbed(seq![one] + seq![two]),
    ensures
        two.before == one.after,
{
    let turns = seq![one] + seq![two];
    assert(turns[0] == one && turns[1] == two);
}

/// Three single turns that follow one another undisturbed.
proof fn lemma_three_turns<T>(one: Section<T>, two: Section<T>, three: Section<T>)
    requires
        undisturbed(seq![one] + seq![two] + seq![three]),
    ensures
        two.before == one.after,
        three.before == two.after,
{
    let turns = seq![one] + seq![two] + seq![three];
    assert(turns[0] == one && turns[1] == two && turns[2] == three);
}

/// What is published is what is read next: `publish` on one handle, then `synchronize` on any
/// handle, gives a clone of the published value.
pub proof fn law_published_value_is_read_back<T: Clone>(
    publisher: &mut Observable<T>,
    value: T,
    reader: &mut Observable<T>,
    read: T,
)
    requires
        call_ensures(Observable::<T>::publish, (publisher, value), ()),
        call_ensures(Observable::<T>::synchronize, (reader,), read),
        undisturbed(
            new_turns(*publisher, *final(publisher)) + new_turns(*reader, *final(reader)),
        ),
    ensures
        call_ensures(T::clone, (&value,), read),
{
    lemma_one_turn(*publisher, *final(publisher));
    lemma_one_turn(*reader, *final(reader));
    lemma_two_turns(final(publisher).last(), final(reader).last());
}

/// What is published is what a waiting fork gets: a wait of a handle that was up to date gives,
/// polled after `publish`, a clone of the published value.
pub proof fn law_published_value_is_delivered<T: Clone>(
    before: &mut Observable<T>,
    current: T,
    publisher: &mut Observable<T>,
    value: T,
    wait: &mut AwaitObservableUpdate<'_, T>,
    waker: Waker,
    update: Option<T>,
)
    requires
        call_ensures(Observable::<T>::synchronize, (before,), current),
        call_ensures(Observable::<T>::publish, (publisher, value), ()),
        call_ensures(AwaitObservableUpdate::<T>::poll, (wait, waker), update),
        wait.handle().seen() == final(before).seen(),
        undisturbed(
            new_turns(*before, *final(before)) + new_turns(*publisher, *final(publisher))
                + new_turns(*wait.handle(), *final(wait).handle()),
        ),
    ensures
        update is Some,
        call_ensures(T::clone, (&value,), update->0),
        final(wait).handle().seen() != final(before).seen(),
{
    lemma_one_turn(*before, *final(before));
    lemma_one_turn(*publisher, *final(publisher));
    lemma_one_turn(*wait.handle(), *final(wait).handle());
    lemma_three_turns(
        final(before).last(),
        final(publisher).last(),
        final(wait).handle().last(),
    );
}

/// A wait that is left pending is woken by the next change: `poll` gives nothing, then `publish`
/// wakes the waker that was left.
pub proof fn law_pending_wait_is_woken<T: Clone>(
    wait: &mut AwaitObservableUpdate<'_, T>,
    waker: Waker,
    publisher: &mut Observable<T>,
    value: T,
)
    requires
        call_ensures(AwaitObservableUpdate::<T>::poll, (wait, waker), None::<T>),
        call_ensures(Observable::<T>::publish, (publisher, value), ()),
        undisturbed(
            new_turns(*wait.handle(), *final(wait).handle()) + new_turns(
                *publisher,
                *final(publisher),
            ),
        ),
    ensures
        new_turns(*old(publisher), *final(publisher))[0].woken().contains(waker),
{
    lemma_one_turn(*wait.handle(), *final(wait).handle());
    lemma_one_turn(*publisher, *final(publisher));
    let change = final(publisher).last();
    lemma_two_turns(final(wait).handle().last(), change);
    lemma_woken(change, wait.id(), waker);
}

/// Whoever waits when a change is made is woken.
proof fn lemma_woken<T>(change: Section<T>, id: u128, waker: Waker)
    requires
        crate::wake::wakes_all(change.before.waiting, change.woken()),
        change.before.waiting.contains_pair(id, waker),
    ensures
        change.woken().contains(waker),
{
    let waiting = change.before.waiting;
    let ids = choose|ids: Seq<u128>| crate::wake::wakes_in_order(waiting, ids, change.woken());
    assert(ids.to_set().contains(id));
    assert(change.woken()[ids.index_of(id)] == waker);
}

/// One wait does not stand in the way of another: two waits are left pending one after the other,
/// then `publish` wakes both wakers.
pub proof fn law_all_pending_waits_are_woken<T: Clone>(
    first: &mut AwaitObservableUpdate<'_, T>,
    first_waker: Waker,
    second: &mut AwaitObservableUpdate<'_, T>,
    second_waker: Waker,
    publisher: &mut Observable<T>,
    value: T,
)
    requires
        call_ensures(AwaitObservableUpdate::<T>::poll, (first, first_waker), None::<T>),
        call_ensures(AwaitObservableUpdate::<T>::poll, (second, second_waker), None::<T>),
        call_ensures(Observable::<T>::publish, (publisher, value), ()),
        first.id() != second.id(),
        undisturbed(
            new_turns(*first.handle(), *final(first).handle()) + new_turns(
                *second.handle(),
                *final(second).handle(),
            ) + new_turns(*publisher, *final(publisher)),
        ),
    ensures
        new_turns(*old(publisher), *final(publisher))[0].woken().contains(first_waker),
        new_turns(*old(publisher), *final(publisher))[0].woken().contains(second_waker),
{
    lemma_one_turn(*first.handle(), *final(first).handle());
    lemma_one_turn(*second.handle(), *final(second).handle());
    lemma_one_turn(*publisher, *final(publisher));
    let change = final(publisher).last();
    lemma_three_turns(final(first).handle().last(), final(second).handle().last(), change);
    lemma_woken(change, first.id(), first_waker);
    lemma_woken(change, second.id(), second_waker);
}

/// `publish_if_changed` compares with what is there: after a call with `one`, a call with `other`
/// makes a change if and only if the two differ, whether or not the first call made one.
pub proof fn law_second_value_is_compared_with_the_first<T: Clone + Eq>(
    first: &mut Observable<T>,
    one: T,
    first_changed: bool,
    second: &mut Observable<T>,
    other: T,
    second_changed: bool,
)
    requires
        vstd::laws_eq::obeys_eq::<T>(),
        call_ensures(Observable::<T>::publish_if_changed, (first, one), first_changed),
        call_ensures(Observable::<T>::publish_if_changed, (second, other), second_changed),
        one.eq_spec(&one),
        undisturbed(new_turns(*first, *final(first)) + new_turns(*second, *final(second))),
    ensures
        second_changed == !one.eq_spec(&other),
{
    reveal(vstd::laws_eq::obeys_eq_spec_properties);
    lemma_one_turn(*first, *final(first));
    lemma_one_turn(*second, *final(second));
    lemma_two_turns(final(first).last(), final(second).last());
    let found = final(first).last().before.value;
    let left = final(first).last().after.value;
    assert(left.eq_spec(&one));
    assert(one.eq_spec(&left));
    if left.eq_spec(&other) {
        assert(one.eq_spec(&other));
    }
    if one.eq_spec(&other) {
        assert(left.eq_spec(&other));
    }
}

/// `publish_if_changed` says whether there is an update: a wait of a handle that was up to date,
/// polled after it, gives something if and only if it returned `true`, and that is then a clone of
/// the value.
pub proof fn law_changed_means_update<T: Clone + Eq>(
    before: &mut Observable<T>,
    current: T,
    publisher: &mut Observable<T>,
    value: T,
    changed: bool,
    wait: &mut AwaitObservableUpdate<'_, T>,
    waker: Waker,
    update: Option<T>,
)
    requires
        call_ensures(Observable::<T>::synchronize, (before,), current),
        call_ensures(Observable::<T>::publish_if_changed, (publisher, value), changed),
        call_ensures(AwaitObservableUpdate::<T>::poll, (wait, waker), update),
        wait.handle().seen() == final(before).seen(),
        undisturbed(
            new_turns(*before, *final(before)) + new_turns(*publisher, *final(publisher))
                + new_turns(*wait.handle(), *final(wait).handle()),
        ),
    ensures
        update is Some <==> changed,
        update matches Some(updated) ==> call_ensures(T::clone, (&value,), updated),
{
    lemma_one_turn(*before, *final(before));
    lemma_one_turn(*publisher, *final(publisher));
    lemma_one_turn(*wait.handle(), *final(wait).handle());
    lemma_three_turns(
        final(before).last(),
        final(publisher).last(),
        final(wait).handle().last(),
    );
}

/// `modify_conditional` says whether there is an update: a wait of a handle that was up to date,
/// polled after it, gives something if and only if it returned `true`. It returns what the
/// condition says of the value that was there, of which `current` is a clone.
pub proof fn law_modified_means_update<T: Clone, C: FnOnce(&T) -> bool, M: FnOnce(&mut T)>(
    before: &mut Observable<T>,
    current: T,
    modifier: &mut Observable<T>,
    condition: C,
    modify: M,
    modified: bool,
    wait: &mut AwaitObservableUpdate<'_, T>,
    waker: Waker,
    update: Option<T>,
)
    requires
        call_ensures(Observable::<T>::synchronize, (before,), current),
        call_ensures(
            Observable::<T>::modify_conditional::<C, M>,
            (modifier, condition, modify),
            modified,
        ),
        call_ensures(AwaitObservableUpdate::<T>::poll, (wait, waker), update),
        wait.handle().seen() == final(before).seen(),
        undisturbed(
            new_turns(*before, *final(before)) + new_turns(*modifier, *final(modifier))
                + new_turns(*wait.handle(), *final(wait).handle()),
        ),
    ensures
        update is Some <==> modified,
        exists|value: T|
            {
                &&& #[trigger] call_ensures(T::clone, (&value,), current)
                &&& call_ensures(condition, (&value,), modified)
            },
        update matches Some(updated) ==> exists|value: &mut T|
            {
                &&& #[trigger] call_ensures(modify, (value,), ())
                &&& call_ensures(T::clone, (&*value,), current)
                &&& call_ensures(T::clone, (&*final(value),), updated)
            },
{
    lemma_one_turn(*before, *final(before));
    lemma_one_turn(*modifier, *final(modifier));
    lemma_one_turn(*wait.handle(), *final(wait).handle());
    lemma_three_turns(
        final(before).last(),
        final(modifier).last(),
        final(wait).handle().last(),
    );
}

/// A condition that is not met leaves all as it was: what is read before and after is a clone of
/// the same value, and the version is the same.
pub proof fn law_unmet_condition_changes_nothing<
    T: Clone,
    C: FnOnce(&T) -> bool,
    M: FnOnce(&mut T),
>(
    before: &mut Observable<T>,
    first: T,
    modifier: &mut Observable<T>,
    condition: C,
    modify: M,
    after: &mut Observable<T>,
    second: T,
)
    requires
        call_ensures(Observable::<T>::synchronize, (before,), first),
        call_ensures(
            Observable::<T>::modify_conditional::<C, M>,
            (modifier, condition, modify),
            false,
        ),
        call_ensures(Observable::<T>::synchronize, (after,), second),
        undisturbed(
            new_turns(*before, *final(before)) + new_turns(*modifier, *final(modifier))
                + new_turns(*after, *final(after)),
        ),
    ensures
        final(after).seen() == final(before).seen(),
        exists|value: T|
            {
                &&& #[trigger] call_ensures(T::clone, (&value,), first)
                &&& call_ensures(T::clone, (&value,), second)
            },
{
    lemma_one_turn(*before, *final(before));
    lemma_one_turn(*modifier, *final(modifier));
    lemma_one_turn(*after, *final(after));
    lemma_three_turns(final(before).last(), final(modifier).last(), final(after).last());
    assert(call_ensures(T::clone, (&final(before).last().before.value,), first));
}

/// `modify` works on what is there: what is read after it is a clone of what the closure made of
/// the value of which a clone was read before.
pub proof fn law_modification_is_read_back<T: Clone, M: FnOnce(&mut T)>(
    before: &mut Observable<T>,
    first: T,
    modifier: &mut Observable<T>,
    modify: M,
    after: &mut Observable<T>,
    second: T,
)
    requires
        call_ensures(Observable::<T>::synchronize, (before,), first),
        call_ensures(Observable::<T>::modify::<M>, (modifier, modify), ()),
        call_ensures(Observable::<T>::synchronize, (after,), second),
        undisturbed(
            new_turns(*before, *final(before)) + new_turns(*modifier, *final(modifier))
                + new_turns(*after, *final(after)),
        ),
    ensures
        final(after).seen() != final(before).seen(),
        exists|value: &mut T|
            {
                &&& #[trigger] call_ensures(modify, (value,), ())
                &&& call_ensures(T::clone, (&*value,), first)
                &&& call_ensures(T::clone, (&*final(value),), second)
            },
{
    lemma_one_turn(*before, *final(before));
    lemma_one_turn(*modifier, *final(modifier));
    lemma_one_turn(*after, *final(after));
    lemma_three_turns(final(before).last(), final(modifier).last(), final(after).last());
}

/// `synchronize` leaves nothing to wait for: a wait of the handle that was synchronized, polled
/// after it, gives nothing, and so does one of any handle that has seen the same.
pub proof fn law_synchronized_handle_has_no_update<T: Clone>(
    handle: &mut Observable<T>,
    value: T,
    wait: &mut AwaitObservableUpdate<'_, T>,
    waker: Waker,
    update: Option<T>,
)
    requires
        call_ensures(Observable::<T>::synchronize, (handle,), value),
        call_ensures(AwaitObservableUpdate::<T>::poll, (wait, waker), update),
        wait.handle().seen() == final(handle).seen(),
        undisturbed(
            new_turns(*handle, *final(handle)) + new_turns(*wait.handle(), *final(wait).handle()),
        ),
    ensures
        update is None,
        final(wait).handle().seen() == final(handle).seen(),
{
    lemma_one_turn(*handle, *final(handle));
    lemma_one_turn(*wait.handle(), *final(wait).handle());
    lemma_two_turns(final(handle).last(), final(wait).handle().last());
}

/// To synchronize again changes nothing, for nobody: both calls give clones of one value, and a wait
/// of a handle that had seen the current version before the second call, polled after it, gives
/// nothing.
pub proof fn law_synchronizing_again_changes_nothing<T: Clone>(
    first: &mut Observable<T>,
    one: T,
    second: &mut Observable<T>,
    other: T,
    wait: &mut AwaitObservableUpdate<'_, T>,
    waker: Waker,
    update: Option<T>,
)
    requires
        call_ensures(Observable::<T>::synchronize, (first,), one),
        call_ensures(Observable::<T>::synchronize, (second,), other),
        call_ensures(AwaitObservableUpdate::<T>::poll, (wait, waker), update),
        wait.handle().seen() == final(first).seen(),
        undisturbed(
            new_turns(*first, *final(first)) + new_turns(*second, *final(second)) + new_turns(
                *wait.handle(),
                *final(wait).handle(),
            ),
        ),
    ensures
        final(second).seen() == final(first).seen(),
        update is None,
        exists|value: T|
            {
                &&& #[trigger] call_ensures(T::clone, (&value,), one)
                &&& call_ensures(T::clone, (&value,), other)
            },
{
    lemma_one_turn(*first, *final(first));
    lemma_one_turn(*second, *final(second));
    lemma_one_turn(*wait.handle(), *final(wait).handle());
    lemma_three_turns(final(first).last(), final(second).last(), final(wait).handle().last());
    assert(call_ensures(T::clone, (&final(first).last().before.value,), one));
}

/// An update is delivered once: a wait that gave something gives nothing when it is polled again.
pub proof fn law_second_poll_gives_nothing<T: Clone>(
    wait: &mut AwaitObservableUpdate<'_, T>,
    waker: Waker,
    value: T,
    again: &mut AwaitObservableUpdate<'_, T>,
    second_waker: Waker,
    update: Option<T>,
)
    requires
        call_ensures(AwaitObservableUpdate::<T>::poll, (wait, waker), Some(value)),
        call_ensures(AwaitObservableUpdate::<T>::poll, (again, second_waker), update),
        again.handle().seen() == final(wait).handle().seen(),
        undisturbed(
            new_turns(*wait.handle(), *final(wait).handle()) + new_turns(
                *again.handle(),
                *final(again).handle(),
            ),
        ),
    ensures
        update is None,
{
    lemma_one_turn(*wait.handle(), *final(wait).handle());
    lemma_one_turn(*again.handle(), *final(again).handle());
    lemma_two_turns(final(wait).handle().last(), final(again).handle().last());
}

/// A wait that is given up is not woken: `poll` gives nothing, `cancel`, then `publish` finds no
/// waker of that wait.
pub proof fn law_cancelled_wait_is_not_woken<T: Clone>(
    wait: &mut AwaitObservableUpdate<'_, T>,
    waker: Waker,
    given_up: &mut AwaitObservableUpdate<'_, T>,
    publisher: &mut Observable<T>,
    value: T,
)
    requires
        call_ensures(AwaitObservableUpdate::<T>::poll, (wait, waker), None::<T>),
        call_ensures(AwaitObservableUpdate::<T>::cancel, (given_up,), ()),
        call_ensures(Observable::<T>::publish, (publisher, value), ()),
        given_up.id() == wait.id(),
        undisturbed(
            new_turns(*wait.handle(), *final(wait).handle()) + new_turns(
                *given_up.handle(),
                *final(given_up).handle(),
            ) + new_turns(*publisher, *final(publisher)),
        ),
    ensures
        !new_turns(*old(publisher), *final(publisher))[0].before.waiting.contains_key(
            old(wait).id(),
        ),
{
    lemma_one_turn(*wait.handle(), *final(wait).handle());
    lemma_one_turn(*given_up.handle(), *final(given_up).handle());
    lemma_one_turn(*publisher, *final(publisher));
    lemma_three_turns(
        final(wait).handle().last(),
        final(given_up).handle().last(),
        final(publisher).last(),
    );
}

/// Waits are numbered one after the other.
pub proof fn law_next_waits_are_numbered_in_order<T: Clone>(
    one: &mut Observable<T>,
    first: AwaitObservableUpdate<'_, T>,
    two: &mut Observable<T>,
    second: AwaitObservableUpdate<'_, T>,
)
    requires
        call_ensures(Observable::<T>::next, (one,), first),
        call_ensures(Observable::<T>::next, (two,), second),
        undisturbed(new_turns(*one, *first.handle()) + new_turns(*two, *second.handle())),
    ensures
        first.id() < u128::MAX ==> second.id() == first.id() + 1,
{
    lemma_one_turn(*one, *first.handle());
    lemma_one_turn(*two, *second.handle());
    lemma_two_turns(first.handle().last(), second.handle().last());
}

/// A handle that was reset has an update at once, whoever came in between: a wait of it gives
/// something when it is polled.
pub proof fn law_reset_handle_gets_an_update<T: Clone>(
    handle: &Observable<T>,
    fork: Observable<T>,
    wait: &mut AwaitObservableUpdate<'_, T>,
    waker: Waker,
    update: Option<T>,
)
    requires
        call_ensures(Observable::<T>::clone_and_reset, (handle,), fork),
        call_ensures(AwaitObservableUpdate::<T>::poll, (wait, waker), update),
        wait.handle().seen() == fork.seen(),
    ensures
        update is Some,
{
}

/// A new observable holds its value, and nobody has an update: what is read first is a clone of the
/// value, and the handle has seen it already.
pub proof fn law_new_observable_holds_its_value<T: Clone>(
    value: T,
    observable: Observable<T>,
    reader: &mut Observable<T>,
    read: T,
)
    requires
        call_ensures(Observable::<T>::new, (value,), observable),
        call_ensures(Observable::<T>::synchronize, (reader,), read),
        undisturbed(observable.turns() + new_turns(*reader, *final(reader))),
    ensures
        call_ensures(T::clone, (&value,), read),
        final(reader).seen() == observable.seen(),
{
    lemma_one_turn(*reader, *final(reader));
    assert(observable.turns() =~= seq![observable.last()]);
    lemma_two_turns(observable.last(), final(reader).last());
}

} // verus!
