//! What holds of an observable and all its forks together.
//!
//! The critical sections of the forks follow one another, each on what the one before has left. So
//! the life of the shared state is a sequence of steps, one for each section.
use crate::observable::Observable;
use crate::state::{Section, State};
use crate::wake;
use std::task::Waker;
use vstd::prelude::*;
use vstd::std_specs::cmp::PartialEqSpec;

verus! {

/// What one critical section does to the shared state.
#[verifier::reject_recursive_types(T)]
pub enum Step<T> {
    /// A change to `value` that wakes `woken`.
    Change { value: T, woken: Seq<Waker> },
    /// A look at the state, or a change that was not made.
    Read,
    /// A new wait gets its number.
    Register,
    /// The wait `id` of a handle that has seen the version `seen` is polled.
    Poll { id: u128, seen: Option<u128>, waker: Waker },
    /// The wait `id` is given up.
    Cancel { id: u128 },
}

impl<T> State<T> {
    /// The state after a step.
    pub open spec fn after(self, step: Step<T>) -> State<T> {
        match step {
            Step::Change { value, woken } => self.changed_to(value, woken),
            Step::Read => self,
            Step::Register => self.registered(),
            Step::Poll { id, seen, waker } => self.polled(id, seen, waker),
            Step::Cancel { id } => self.without_waker(id),
        }
    }

    /// The state after some steps.
    pub open spec fn run(self, steps: Seq<Step<T>>) -> State<T>
        decreases steps.len(),
    {
        if steps.len() == 0 {
            self
        } else {
            self.run(steps.drop_last()).after(steps.last())
        }
    }
}

impl<T> Section<T> {
    /// The section takes the step. If that is a change, it wakes everybody who waits.
    pub open spec fn takes(self, step: Step<T>) -> bool {
        &&& self.after == self.before.after(step)
        &&& step matches Step::Change { value: _, woken } ==> wake::wakes_all(
            self.before.waiting,
            woken,
        )
    }
}

/// The values that the steps change the state to, in their order.
pub open spec fn changes<T>(steps: Seq<Step<T>>) -> Seq<T>
    decreases steps.len(),
{
    if steps.len() == 0 {
        Seq::empty()
    } else {
        match steps.last() {
            Step::Change { value, woken: _ } => changes(steps.drop_last()).push(value),
            _ => changes(steps.drop_last()),
        }
    }
}

/// The wakers that the steps wake, in their order.
pub open spec fn wakeups<T>(steps: Seq<Step<T>>) -> Seq<Waker>
    decreases steps.len(),
{
    if steps.len() == 0 {
        Seq::empty()
    } else {
        match steps.last() {
            Step::Change { value: _, woken } => wakeups(steps.drop_last()) + woken,
            _ => wakeups(steps.drop_last()),
        }
    }
}

/// How many of the steps number a wait.
pub open spec fn registrations<T>(steps: Seq<Step<T>>) -> nat
    decreases steps.len(),
{
    if steps.len() == 0 {
        0
    } else {
        registrations(steps.drop_last()) + if steps.last() is Register {
            1nat
        } else {
            0
        }
    }
}

/// The version counts the changes, modulo 2^128, and the value is that of the last one.
pub proof fn law_version_counts_changes<T>(state: State<T>, steps: Seq<Step<T>>)
    ensures
        state.run(steps).version == (state.version + changes(steps).len()) % (u128::MAX + 1),
        state.run(steps).value == if changes(steps).len() == 0 {
            state.value
        } else {
            changes(steps).last()
        },
    decreases steps.len(),
{
    if steps.len() > 0 {
        law_version_counts_changes(state, steps.drop_last());
    }
}

/// The library's promise. Take a handle that is up to date, and any steps that follow. It has an
/// update if and only if there was a change among them, and what it will read is what the last
/// change published: the versions in between are skipped.
///
/// Versions are numbers in `u128`, so this is for fewer than 2^128 changes.
pub proof fn law_update_iff_changed<T>(state: State<T>, steps: Seq<Step<T>>)
    requires
        changes(steps).len() <= u128::MAX,
    ensures
        state.run(steps).has_update(Some(state.version)) <==> changes(steps).len() > 0,
        changes(steps).len() > 0 ==> state.run(steps).value == changes(steps).last(),
        changes(steps).len() == 0 ==> state.run(steps).value == state.value,
{
    law_version_counts_changes(state, steps);
}

/// Only changes wake anybody: all wake-ups are those of the changes, one after the other. Where
/// nothing changes, nobody is woken.
pub proof fn law_only_changes_wake<T>(state: State<T>, steps: Seq<Step<T>>)
    ensures
        state.run(steps).woken == state.woken + wakeups(steps),
        changes(steps).len() == 0 ==> wakeups(steps) == Seq::<Waker>::empty(),
    decreases steps.len(),
{
    if steps.len() > 0 {
        law_only_changes_wake(state, steps.drop_last());
    }
}

/// What the contracts of the handles say of their critical sections is that they take these steps.
pub proof fn law_sections_take_steps<T>(section: Section<T>, step: Step<T>)
    ensures
        section.takes(step) <==> match step {
            Step::Change { value, woken } => section.changes_to(value) && section.woken() == woken,
            Step::Read => section.only_reads(),
            Step::Register => section.after == section.before.registered(),
            Step::Poll { id, seen, waker } => section.after == section.before.polled(
                id,
                seen,
                waker,
            ),
            Step::Cancel { id } => section.after == section.before.without_waker(id),
        },
{
    if let Step::Change { value: _, woken } = step {
        assert((section.before.woken + woken).skip(section.before.woken.len() as int) =~= woken);
    }
}

/// Until the numbers wrap around, the version goes up by one with each change, and never down.
pub proof fn law_version_never_goes_down<T>(state: State<T>, steps: Seq<Step<T>>)
    requires
        state.version + changes(steps).len() <= u128::MAX,
    ensures
        state.run(steps).version == state.version + changes(steps).len(),
        state.version <= state.run(steps).version,
{
    law_version_counts_changes(state, steps);
}

/// A fork that was up to date when a value was published through another one, or behind, and asks
/// before anybody else takes the lock, has an update, and it is that value.
///
/// `publisher` is the publishing handle after its call, `fork` and `receiver` are the asking one
/// before and after its own. Where the numbers wrap around, the new version may be one that a fork
/// that is far behind has seen, so there only forks that are up to date are spoken of.
pub proof fn law_fork_receives_what_is_published<T: Clone>(
    publisher: Observable<T>,
    fork: Observable<T>,
    receiver: Observable<T>,
    value: T,
)
    requires
        fork.shares(publisher),
        receiver.shares(fork),
        publisher.last().changes_to(value),
        fork.seen() matches Some(seen) ==> {
            ||| seen == publisher.last().before.version
            ||| seen < publisher.last().before.version < u128::MAX
        },
        receiver.last().before == publisher.last().after,
    ensures
        receiver.shares(publisher),
        receiver.last().before.has_update(fork.seen()),
        receiver.last().before.value == value,
{
    crate::observable::law_sharing(receiver, fork, publisher);
}

/// The handles, each as it is after a call, are forks of one another that went through the lock one
/// after the other, and took these steps.
pub open spec fn take_turns<T: Clone>(handles: Seq<Observable<T>>, steps: Seq<Step<T>>) -> bool {
    &&& handles.len() == steps.len()
    &&& forall|i: int, j: int|
        0 <= i < handles.len() && 0 <= j < handles.len() ==> (#[trigger] handles[i]).shares(
            #[trigger] handles[j],
        )
    &&& forall|i: int| 0 <= i < handles.len() ==> (#[trigger] handles[i]).last().takes(steps[i])
    &&& forall|i: int, j: int|
        0 <= i && j == i + 1 && j < handles.len() ==> (#[trigger] handles[i]).last().after == (
        #[trigger] handles[j]).last().before
}

/// Handles that take turns bring the shared state through their steps.
pub proof fn law_turns_run<T: Clone>(handles: Seq<Observable<T>>, steps: Seq<Step<T>>, i: int)
    requires
        take_turns(handles, steps),
        0 <= i < handles.len(),
    ensures
        handles[i].last().before == handles[0].last().before.run(steps.take(i)),
        handles[i].last().after == handles[0].last().before.run(steps.take(i + 1)),
    decreases i,
{
    let state = handles[0].last().before;
    if i > 0 {
        law_turns_run(handles, steps, i - 1);
        assert(handles[i - 1].last().after == handles[i].last().before);
    }
    assert(handles[i].last().takes(steps[i]));
    assert(steps.take(i + 1).drop_last() =~= steps.take(i));
    assert(state.run(steps.take(0)) == state);
}

/// The library's promise, of the handles. Take a fork that is up to date, any calls through other
/// forks, one after the other, and then ask. There is an update if and only if one of the calls
/// changed the value, and it is what the last change published.
///
/// `fork` and `receiver` are the asking handle before and after its call.
pub proof fn law_fork_receives_the_latest<T: Clone>(
    handles: Seq<Observable<T>>,
    steps: Seq<Step<T>>,
    fork: Observable<T>,
    receiver: Observable<T>,
)
    requires
        handles.len() > 0,
        take_turns(handles, steps),
        fork.shares(handles[0]),
        receiver.shares(fork),
        changes(steps).len() <= u128::MAX,
        fork.seen() == Some(handles[0].last().before.version),
        receiver.last().before == handles.last().last().after,
    ensures
        receiver.last().before.has_update(fork.seen()) <==> changes(steps).len() > 0,
        changes(steps).len() > 0 ==> receiver.last().before.value == changes(steps).last(),
{
    law_turns_run(handles, steps, handles.len() - 1);
    assert(steps.take(handles.len() as int) =~= steps);
    law_update_iff_changed(handles[0].last().before, steps);
}

/// A wait that is given up misses nothing. Take a fork that is up to date, any calls through it and
/// other forks, one after the other, among them the one by which it gives up a wait without having
/// consumed anything, and then ask. There is an update if and only if one of the calls changed the
/// value, and it is what the last change published.
///
/// `fork`, `handles[given_up]` and `receiver` are the same handle: before, after it gave up the
/// wait, and after it asked.
pub proof fn law_abandoned_wait_misses_nothing<T: Clone>(
    handles: Seq<Observable<T>>,
    steps: Seq<Step<T>>,
    fork: Observable<T>,
    given_up: int,
    id: u128,
    receiver: Observable<T>,
)
    requires
        take_turns(handles, steps),
        0 <= given_up < handles.len(),
        steps[given_up] == (Step::<T>::Cancel { id }),
        fork.shares(handles[0]),
        receiver.shares(fork),
        changes(steps).len() <= u128::MAX,
        fork.seen() == Some(handles[0].last().before.version),
        handles[given_up].seen() == fork.seen(),
        receiver.last().before == handles.last().last().after,
    ensures
        !handles[given_up].last().after.waiting.contains_key(id),
        receiver.last().before.has_update(handles[given_up].seen()) <==> changes(steps).len() > 0,
        changes(steps).len() > 0 ==> receiver.last().before.value == changes(steps).last(),
{
    assert(handles[given_up].last().takes(steps[given_up]));
    law_fork_receives_the_latest(handles, steps, fork, receiver);
}

/// What the handles that take turns have seen, they have seen in their turns, or before the first
/// of them: each has consumed the version that it found, or has what an earlier one had.
pub open spec fn saw_in_turn<T: Clone>(handles: Seq<Observable<T>>) -> bool {
    forall|i: int|
        0 <= i < handles.len() ==> ((#[trigger] handles[i]).seen() matches Some(seen) ==> {
            ||| seen <= handles[0].last().before.version
            ||| seen == handles[i].last().before.version
            ||| exists|j: int| 0 <= j < i && (#[trigger] handles[j]).seen() == Some(seen)
        })
}

/// No handle is ahead of the shared state, until the numbers wrap around.
pub proof fn law_no_handle_is_ahead<T: Clone>(
    handles: Seq<Observable<T>>,
    steps: Seq<Step<T>>,
    i: int,
)
    requires
        take_turns(handles, steps),
        saw_in_turn(handles),
        0 <= i < handles.len(),
        handles[0].last().before.version + changes(steps).len() <= u128::MAX,
    ensures
        handles[i].seen() matches Some(seen) ==> seen <= handles[i].last().before.version,
        handles[i].last().before.version <= handles.last().last().after.version,
    decreases i,
{
    let state = handles[0].last().before;
    lemma_version_in_turn(handles, steps, i);
    lemma_version_in_turn(handles, steps, handles.len() - 1);
    assert(steps.take(handles.len() as int) =~= steps);
    lemma_changes_of_prefix(steps, i);
    law_turns_run(handles, steps, handles.len() - 1);
    law_version_never_goes_down(state, steps);
    if let Some(seen) = handles[i].seen() {
        if seen > state.version && seen != handles[i].last().before.version {
            let j = choose|j: int| 0 <= j < i && (#[trigger] handles[j]).seen() == Some(seen);
            law_no_handle_is_ahead(handles, steps, j);
            lemma_version_in_turn(handles, steps, j);
            lemma_changes_of_prefix(steps.take(i), j);
            assert(steps.take(i).take(j) =~= steps.take(j));
        }
    }
}

/// The version that a handle finds in its turn counts the changes before it.
proof fn lemma_version_in_turn<T: Clone>(
    handles: Seq<Observable<T>>,
    steps: Seq<Step<T>>,
    i: int,
)
    requires
        take_turns(handles, steps),
        0 <= i < handles.len(),
        handles[0].last().before.version + changes(steps).len() <= u128::MAX,
    ensures
        handles[i].last().before.version == handles[0].last().before.version + changes(
            steps.take(i),
        ).len(),
{
    law_turns_run(handles, steps, i);
    lemma_changes_of_prefix(steps, i);
    law_version_never_goes_down(handles[0].last().before, steps.take(i));
}

/// The changes among the first steps come first.
proof fn lemma_changes_of_prefix<T>(steps: Seq<Step<T>>, n: int)
    requires
        0 <= n <= steps.len(),
    ensures
        changes(steps.take(n)).is_prefix_of(changes(steps)),
    decreases steps.len(),
{
    if n == steps.len() {
        assert(steps.take(n) =~= steps);
    } else {
        lemma_changes_of_prefix(steps.drop_last(), n);
        assert(steps.drop_last().take(n) =~= steps.take(n));
    }
}

/// A fork consumes an update each time it asks: first after `asks[0]` of the steps, then after
/// `asks[1]`, and so on.
pub open spec fn consumes_at<T>(state: State<T>, steps: Seq<Step<T>>, asks: Seq<int>) -> bool {
    &&& forall|i: int| 0 <= i < asks.len() ==> 0 <= #[trigger] asks[i] <= steps.len()
    &&& forall|i: int, j: int|
        #![trigger asks[i], asks[j]]
        0 <= i && j == i + 1 && j < asks.len() ==> {
            &&& asks[i] <= asks[j]
            &&& state.run(steps.take(asks[j])).has_update(
                Some(state.run(steps.take(asks[i])).version),
            )
        }
}

/// What a fork receives comes in the order in which it was published: of any two updates that it
/// consumes, the later one was published after the earlier one.
pub proof fn law_updates_come_in_order<T>(
    state: State<T>,
    steps: Seq<Step<T>>,
    asks: Seq<int>,
    earlier: int,
    later: int,
)
    requires
        changes(steps).len() <= u128::MAX,
        consumes_at(state, steps, asks),
        0 <= earlier < later < asks.len(),
    ensures
        ({
            let first = changes(steps.take(asks[earlier])).len();
            let second = changes(steps.take(asks[later])).len();
            &&& first < second <= changes(steps).len()
            &&& first > 0 ==> state.run(steps.take(asks[earlier])).value == changes(steps)[first
                - 1]
            &&& state.run(steps.take(asks[later])).value == changes(steps)[second - 1]
        }),
    decreases later - earlier,
{
    let before = later - 1;
    assert(asks[before] <= asks[later]);
    let a = steps.take(asks[before]);
    let b = steps.take(asks[later]);
    lemma_changes_of_prefix(steps, asks[earlier]);
    lemma_changes_of_prefix(steps, asks[before]);
    lemma_changes_of_prefix(steps, asks[later]);
    lemma_changes_of_prefix(b, asks[before]);
    assert(b.take(asks[before]) =~= a);
    law_version_counts_changes(state, a);
    law_version_counts_changes(state, b);
    law_version_counts_changes(state, steps.take(asks[earlier]));
    if earlier < before {
        law_updates_come_in_order(state, steps, asks, earlier, before);
    }
}

/// One handle consumes an update by polling in each of the turns `asks`, and receives `values`: each
/// poll is of a handle that has seen what the poll before has consumed.
pub open spec fn receives<T: Clone>(
    handles: Seq<Observable<T>>,
    steps: Seq<Step<T>>,
    asks: Seq<int>,
    values: Seq<T>,
) -> bool {
    &&& asks.len() == values.len()
    &&& forall|k: int|
        0 <= k < asks.len() ==> {
            &&& 0 <= #[trigger] asks[k] < handles.len()
            &&& steps[asks[k]] is Poll
            &&& handles[asks[k]].last().before.has_update(steps[asks[k]]->Poll_seen)
            &&& call_ensures(T::clone, (&handles[asks[k]].last().before.value,), values[k])
        }
    &&& forall|k: int, l: int|
        #![trigger asks[k], asks[l]]
        0 <= k && l == k + 1 && l < asks.len() ==> {
            &&& asks[k] < asks[l]
            &&& steps[asks[l]]->Poll_seen == Some(handles[asks[k]].last().before.version)
        }
}

/// What the polls of a handle return comes in the order in which it was published: each is a clone
/// of the value of a change, and of any two the later one is that of a later change. The first may
/// also be a clone of the value that there was before any change.
pub proof fn law_polls_return_in_order<T: Clone>(
    handles: Seq<Observable<T>>,
    steps: Seq<Step<T>>,
    asks: Seq<int>,
    values: Seq<T>,
    earlier: int,
    later: int,
)
    requires
        take_turns(handles, steps),
        receives(handles, steps, asks, values),
        changes(steps).len() <= u128::MAX,
        0 <= earlier < later < asks.len(),
    ensures
        ({
            let first = changes(steps.take(asks[earlier])).len();
            let second = changes(steps.take(asks[later])).len();
            let initial = handles[0].last().before.value;
            &&& first < second <= changes(steps).len()
            &&& if first > 0 {
                call_ensures(T::clone, (&changes(steps)[first - 1],), values[earlier])
            } else {
                call_ensures(T::clone, (&initial,), values[earlier])
            }
            &&& call_ensures(T::clone, (&changes(steps)[second - 1],), values[later])
        }),
{
    let state = handles[0].last().before;
    assert forall|k: int, l: int|
        #![trigger asks[k], asks[l]]
        0 <= k && l == k + 1 && l < asks.len() implies {
        &&& asks[k] <= asks[l]
        &&& state.run(steps.take(asks[l])).has_update(Some(state.run(steps.take(asks[k])).version))
    } by {
        law_turns_run(handles, steps, asks[k]);
        law_turns_run(handles, steps, asks[l]);
    }
    law_updates_come_in_order(state, steps, asks, earlier, later);
    law_turns_run(handles, steps, asks[earlier]);
    law_turns_run(handles, steps, asks[later]);
    law_version_counts_changes(state, steps.take(asks[earlier]));
}

/// An update is delivered once. A handle that has consumed the version of `state`, by a poll or by
/// synchronizing, has no update after any steps that make no change, and polling it then leaves
/// its waker behind.
pub proof fn law_update_is_delivered_once<T>(
    state: State<T>,
    steps: Seq<Step<T>>,
    id: u128,
    waker: Waker,
)
    requires
        changes(steps).len() == 0,
    ensures
        !state.run(steps).has_update(Some(state.version)),
        state.run(steps).polled(id, Some(state.version), waker).waiting.contains_pair(id, waker),
{
    law_version_counts_changes(state, steps);
}

/// A handle that was reset has an update at once, whatever the state is.
pub proof fn law_reset_has_update<T: Clone>(fork: Observable<T>, state: State<T>)
    requires
        fork.seen() is None,
    ensures
        state.has_update(fork.seen()),
{
}

/// Where `==` is an equivalence, to publish a value if it has changed, and then an equal one before
/// anybody else takes the lock, makes no second change, whether or not the first call made one.
pub proof fn law_same_value_is_no_change<T: Clone + Eq>(
    first: Observable<T>,
    second: Observable<T>,
    value: T,
    equal: T,
    first_changed: bool,
    second_changed: bool,
)
    requires
        vstd::laws_eq::obeys_eq::<T>(),
        value.eq_spec(&equal),
        second.shares(first),
        call_ensures(T::ne, (&first.last().before.value, &value), first_changed),
        first_changed ==> first.last().changes_to(value),
        !first_changed ==> first.last().only_reads(),
        second.last().before == first.last().after,
        call_ensures(T::ne, (&second.last().before.value, &equal), second_changed),
    ensures
        !second_changed,
{
    reveal(vstd::laws_eq::obeys_eq_spec_properties);
    if !first_changed {
        assert(first.last().before.value.eq_spec(&value));
        assert(first.last().before.value.eq_spec(&equal));
    }
}

/// As long as no more than 2^128 - 1 changes lie between them, two states with the same version
/// have the same value.
pub proof fn law_version_fixes_value<T>(state: State<T>, steps: Seq<Step<T>>)
    requires
        changes(steps).len() <= u128::MAX,
        state.run(steps).version == state.version,
    ensures
        state.run(steps).value == state.value,
{
    law_version_counts_changes(state, steps);
}

/// The waits that `waker` stands for, among `ids`.
pub open spec fn waits_of(
    waiting: Map<u128, Waker>,
    ids: Set<u128>,
    waker: Waker,
) -> Set<u128> {
    ids.filter(|id: u128| waiting[id] == waker)
}

/// In a list of the wakers of distinct waits, each waker stands once for each of its waits.
proof fn lemma_wakers_of_distinct_waits(waiting: Map<u128, Waker>, ids: Seq<u128>, waker: Waker)
    requires
        ids.no_duplicates(),
    ensures
        ids.map_values(|id: u128| waiting[id]).to_multiset().count(waker) == waits_of(
            waiting,
            ids.to_set(),
            waker,
        ).len(),
    decreases ids.len(),
{
    broadcast use vstd::seq_lib::group_to_multiset_ensures;

    let woken = ids.map_values(|id: u128| waiting[id]);
    let waits = waits_of(waiting, ids.to_set(), waker);
    if ids.len() == 0 {
        assert(waits =~= Set::empty());
    } else {
        let rest = ids.drop_last();
        let last = ids.last();
        lemma_wakers_of_distinct_waits(waiting, rest, waker);
        let rest_woken = rest.map_values(|id: u128| waiting[id]);
        let rest_waits = waits_of(waiting, rest.to_set(), waker);
        assert(woken =~= rest_woken.push(waiting[last]));
        assert(!rest.to_set().contains(last));
        assert(ids =~= rest.push(last));
        assert(ids.to_set() =~= rest.to_set().insert(last)) by {
            assert(ids[ids.len() - 1] == last);
            assert forall|id: u128| rest.to_set().contains(id) implies ids.to_set().contains(id) by {
                let i = rest.index_of(id);
                assert(ids[i] == id);
            }
        }
        if waiting[last] == waker {
            assert(waits =~= rest_waits.insert(last));
        } else {
            assert(waits =~= rest_waits);
        }
    }
}

/// A change wakes each waker as often as there are pending waits that it stands for, and nobody
/// else.
pub proof fn law_each_wait_is_woken_once(waiting: Map<u128, Waker>, woken: Seq<Waker>)
    requires
        wake::wakes_all(waiting, woken),
    ensures
        woken.len() == waiting.len(),
        forall|waker: Waker|
            #![trigger woken.to_multiset().count(waker)]
            woken.to_multiset().count(waker) == waits_of(waiting, waiting.dom(), waker).len(),
        forall|waker: Waker| #[trigger]
            woken.contains(waker) ==> exists|id: u128| #[trigger]
                waiting.contains_pair(id, waker),
{
    let ids = choose|ids: Seq<u128>| wake::wakes_in_order(waiting, ids, woken);
    ids.unique_seq_to_set();
    assert forall|waker: Waker|
        #![trigger woken.to_multiset().count(waker)]
        woken.to_multiset().count(waker) == waits_of(waiting, waiting.dom(), waker).len() by {
        lemma_wakers_of_distinct_waits(waiting, ids, waker);
    }
    assert forall|waker: Waker| #[trigger] woken.contains(waker) implies exists|id: u128| #[trigger]
        waiting.contains_pair(id, waker) by {
        let i = woken.index_of(waker);
        assert(ids.to_set().contains(ids[i]));
        assert(waiting.contains_pair(ids[i], waker));
    }
}

/// The step polls or gives up the wait `id`.
pub open spec fn concerns<T>(step: Step<T>, id: u128) -> bool {
    match step {
        Step::Poll { id: other, seen: _, waker: _ } => other == id,
        Step::Cancel { id: other } => other == id,
        _ => false,
    }
}

/// The step neither changes the value nor touches the wait `id`.
pub open spec fn spares<T>(step: Step<T>, id: u128) -> bool {
    !(step is Change) && !concerns(step, id)
}

/// A waker stays where it is until there is a change or its own wait is polled or given up.
proof fn lemma_waker_stays<T>(state: State<T>, steps: Seq<Step<T>>, id: u128)
    requires
        state.waiting.contains_key(id),
        forall|i: int| 0 <= i < steps.len() ==> spares(#[trigger] steps[i], id),
    ensures
        state.run(steps).waiting.contains_pair(id, state.waiting[id]),
        state.run(steps).version == state.version,
    decreases steps.len(),
{
    if steps.len() > 0 {
        assert(spares(steps.last(), id));
        let rest = steps.drop_last();
        assert forall|i: int| 0 <= i < rest.len() implies spares(#[trigger] rest[i], id) by {
            assert(rest[i] == steps[i]);
        }
        lemma_waker_stays(state, rest, id);
    }
}

/// No wake-up is lost. Take a poll that finds no update, any steps that follow without a change
/// and without touching that wait, and then a change. The change wakes the waker of the poll, once
/// if it stands for no other wait, and the wait, when it is polled again, finds the update.
pub proof fn law_no_wakeup_is_lost<T>(
    state: State<T>,
    id: u128,
    seen: Option<u128>,
    waker: Waker,
    steps: Seq<Step<T>>,
    change: Section<T>,
    value: T,
)
    requires
        !state.has_update(seen),
        forall|i: int| 0 <= i < steps.len() ==> spares(#[trigger] steps[i], id),
        change.before == state.after(Step::Poll { id, seen, waker }).run(steps),
        change.changes_to(value),
    ensures
        change.woken().contains(waker),
        (forall|other: u128| #[trigger]
            change.before.waiting.contains_pair(other, waker) ==> other == id)
            ==> change.woken().to_multiset().count(waker) == 1,
        change.after.has_update(seen),
        change.after.value == value,
        change.after.waiting == Map::<u128, Waker>::empty(),
{
    lemma_waker_stays(state.after(Step::Poll { id, seen, waker }), steps, id);
    let waiting = change.before.waiting;
    let ids = choose|ids: Seq<u128>| wake::wakes_in_order(waiting, ids, change.woken());
    assert(ids.to_set().contains(id));
    assert(change.woken()[ids.index_of(id)] == waker);
    law_each_wait_is_woken_once(waiting, change.woken());
    if forall|other: u128| #[trigger] waiting.contains_pair(other, waker) ==> other == id {
        let waits = waits_of(waiting, waiting.dom(), waker);
        assert forall|other: u128| waits.contains(other) implies other == id by {
            assert(waiting.contains_pair(other, waker));
        }
        assert(waits =~= Set::empty().insert(id));
    }
}

/// What each wait with a waker had seen when it was last polled.
pub open spec fn parked<T>(state: State<T>, steps: Seq<Step<T>>) -> Map<u128, Option<u128>>
    decreases steps.len(),
{
    if steps.len() == 0 {
        Map::empty()
    } else {
        let before = parked(state, steps.drop_last());
        match steps.last() {
            Step::Change { value: _, woken: _ } => Map::empty(),
            Step::Read => before,
            Step::Register => before,
            Step::Poll { id, seen, waker: _ } => if state.run(steps.drop_last()).has_update(seen) {
                before.remove(id)
            } else {
                before.insert(id, seen)
            },
            Step::Cancel { id } => before.remove(id),
        }
    }
}

/// Nobody is left to wait while there is an update to be had: at any time in the life of an
/// observable, each wait with a waker has seen the current version.
pub proof fn law_waits_are_up_to_date<T>(value: T, steps: Seq<Step<T>>)
    ensures
        ({
            let state = State::initial(value).run(steps);
            let seen = parked(State::initial(value), steps);
            &&& seen.dom() == state.waiting.dom()
            &&& forall|id: u128| #[trigger]
                state.waiting.contains_key(id) ==> !state.has_update(seen[id])
        }),
    decreases steps.len(),
{
    if steps.len() > 0 {
        law_waits_are_up_to_date(value, steps.drop_last());
    }
    assert(parked(State::initial(value), steps).dom() =~= State::initial(value).run(
        steps,
    ).waiting.dom());
}

/// Each poll among the steps is of a wait that had been numbered before.
pub open spec fn polls_numbered_waits<T>(state: State<T>, steps: Seq<Step<T>>) -> bool {
    forall|i: int|
        0 <= i < steps.len() ==> (#[trigger] steps[i] matches Step::Poll { id, seen: _, waker: _ }
            ==> 0 < id <= state.run(steps.take(i)).future_count)
}

/// The numbers of waits are not used twice: at any time in the life of an observable, the waits
/// with a waker have numbers that were given out before, so a new wait takes no other's place.
///
/// Waits are numbered in `u128`, so this is for fewer than 2^128 of them.
pub proof fn law_wait_numbers_are_fresh<T>(value: T, steps: Seq<Step<T>>)
    requires
        registrations(steps) < u128::MAX,
        polls_numbered_waits(State::initial(value), steps),
    ensures
        ({
            let state = State::initial(value).run(steps);
            &&& state.future_count == registrations(steps)
            &&& forall|id: u128| #[trigger]
                state.waiting.contains_key(id) ==> 0 < id <= state.future_count
            &&& !state.waiting.contains_key(state.registered().future_count)
        }),
    decreases steps.len(),
{
    if steps.len() > 0 {
        let rest = steps.drop_last();
        assert forall|i: int| 0 <= i < rest.len() implies (#[trigger] rest[i] matches Step::Poll {
            id,
            seen: _,
            waker: _,
        } ==> 0 < id <= State::initial(value).run(rest.take(i)).future_count) by {
            assert(rest[i] == steps[i]);
            assert(rest.take(i) =~= steps.take(i));
        }
        law_wait_numbers_are_fresh(value, rest);
        assert(steps.take(steps.len() - 1) =~= rest);
        assert(steps[steps.len() - 1] == steps.last());
    }
}

/// Later waits have larger numbers. `state` is the state in which an earlier wait got its number,
/// which is its `future_count`.
///
/// Waits are numbered in `u128`, so this is for fewer than 2^128 of them.
pub proof fn law_later_waits_have_larger_numbers<T>(state: State<T>, steps: Seq<Step<T>>)
    requires
        state.future_count + registrations(steps) < u128::MAX,
    ensures
        state.run(steps).registered().future_count > state.future_count,
        state.run(steps).registered().future_count == state.future_count + registrations(steps) + 1,
    decreases steps.len(),
{
    if steps.len() > 0 {
        law_later_waits_have_larger_numbers(state, steps.drop_last());
    }
}

/// The steps without those that concern the wait `id`.
pub open spec fn without<T>(steps: Seq<Step<T>>, id: u128) -> Seq<Step<T>>
    decreases steps.len(),
{
    if steps.len() == 0 {
        steps
    } else if concerns(steps.last(), id) {
        without(steps.drop_last(), id)
    } else {
        without(steps.drop_last(), id).push(steps.last())
    }
}

/// Two states that differ at most in the wait `id` still do so after a step that does not concern
/// it, and also if only one of them takes a step that does.
proof fn lemma_differ_in_one_wait<T>(one: State<T>, other: State<T>, step: Step<T>, id: u128)
    requires
        one.without_waker(id) == other.without_waker(id),
    ensures
        concerns(step, id) ==> one.after(step).without_waker(id) == other.without_waker(id),
        !concerns(step, id) ==> one.after(step).without_waker(id) == other.after(
            step,
        ).without_waker(id),
{
    let waits = one.without_waker(id).waiting;
    assert(waits == other.without_waker(id).waiting);
    match step {
        Step::Poll { id: polled, seen, waker } => {
            if polled == id {
                assert(one.after(step).without_waker(id).waiting =~= waits);
            } else if one.has_update(seen) {
                assert(one.after(step).without_waker(id).waiting =~= waits.remove(polled));
                assert(other.after(step).without_waker(id).waiting =~= waits.remove(polled));
            } else {
                assert(one.after(step).without_waker(id).waiting =~= waits.insert(polled, waker));
                assert(other.after(step).without_waker(id).waiting =~= waits.insert(polled, waker));
            }
        },
        Step::Cancel { id: cancelled } => {
            if cancelled == id {
                assert(one.after(step).without_waker(id).waiting =~= waits);
            } else {
                assert(one.after(step).without_waker(id).waiting =~= waits.remove(cancelled));
                assert(other.after(step).without_waker(id).waiting =~= waits.remove(cancelled));
            }
        },
        _ => {},
    }
}

/// What the steps that concern the wait `id` do is undone when it is cancelled.
proof fn lemma_cancel_undoes<T>(state: State<T>, steps: Seq<Step<T>>, id: u128)
    requires
        !state.waiting.contains_key(id),
    ensures
        state.run(steps).without_waker(id) == state.run(without(steps, id)).without_waker(id),
        !state.run(without(steps, id)).waiting.contains_key(id),
    decreases steps.len(),
{
    if steps.len() > 0 {
        let rest = steps.drop_last();
        let kept = without(rest, id);
        lemma_cancel_undoes(state, rest, id);
        lemma_differ_in_one_wait(state.run(rest), state.run(kept), steps.last(), id);
        assert(kept.push(steps.last()).drop_last() =~= kept);
    }
}

/// A wait that is given up leaves no trace: whatever polls of it and other steps there were since
/// it was numbered, once it is cancelled the shared state is what it would be had the wait never
/// been polled.
pub proof fn law_cancelled_wait_leaves_no_trace<T>(state: State<T>, steps: Seq<Step<T>>, id: u128)
    requires
        !state.waiting.contains_key(id),
    ensures
        state.run(steps).after(Step::Cancel { id }) == state.run(without(steps, id)),
{
    lemma_cancel_undoes(state, steps, id);
    let unpolled = state.run(without(steps, id));
    assert(unpolled.waiting.remove(id) =~= unpolled.waiting);
}

} // verus!
