//! Waking tasks.
use std::collections::HashMap;
use std::task::Waker;
use vstd::prelude::*;

verus! {

broadcast use vstd::std_specs::hash::group_hash_axioms;

/// `std::task::Waker`, the handle by which a waiting task is woken. Nothing is known of what is
/// inside: the library stores wakers, hands them on and wakes them.
#[verifier::external_type_specification]
#[verifier::external_body]
pub struct ExWaker(std::task::Waker);

/// The log of the wake-ups in the life of a shared state: each is written down as it takes place.
///
/// A task is woken only against a log, by [`wake`], and each shared state has one. It takes no room.
pub struct WakeLog {
    woken: Ghost<Seq<Waker>>,
}

impl View for WakeLog {
    type V = Seq<Waker>;

    closed spec fn view(&self) -> Seq<Waker> {
        self.woken@
    }
}

impl WakeLog {
    /// The log of a new shared state, for which nobody was woken yet.
    fn new() -> (log: Self)
        ensures
            log@ == Seq::<Waker>::empty(),
    {
        WakeLog { woken: Ghost(Seq::empty()) }
    }
}

/// `woken` lists the wakers of the waits in `waiting`, once for each wait, in some order.
pub open spec fn wakes_all(waiting: Map<u128, Waker>, woken: Seq<Waker>) -> bool {
    exists|ids: Seq<u128>| #[trigger] wakes_in_order(waiting, ids, woken)
}

/// `ids` holds each wait in `waiting` once, and `woken` lists their wakers in the order of `ids`.
pub open spec fn wakes_in_order(
    waiting: Map<u128, Waker>,
    ids: Seq<u128>,
    woken: Seq<Waker>,
) -> bool {
    &&& ids.no_duplicates()
    &&& ids.to_set() == waiting.dom()
    &&& woken == ids.map_values(|id: u128| waiting[id])
}

/// Wakes the task behind `waker` by `std::task::Waker::wake_by_ref`, and writes that down.
///
/// The contract claims that one wake-up took place, that of `waker`. What the waker does to its
/// task is up to the executor that made it.
#[verifier::external_body]
pub(crate) fn wake(waker: &Waker, log: &mut WakeLog)
    ensures
        final(log)@ == old(log)@.push(*waker),
{
    waker.wake_by_ref();
    log.woken = Ghost(log.woken@.push(*waker));
}

/// The wakers of the waits that are pending, by the wait's number, with the log of the wake-ups so
/// far.
///
/// A waker that was put in comes out only to be woken: nobody else can be woken through here.
pub struct Waiters {
    wakers: HashMap<u128, Waker>,
    log: WakeLog,
}

impl Waiters {
    /// The wakers of the waits that are pending.
    pub closed spec fn waiting(self) -> Map<u128, Waker> {
        self.wakers@
    }

    /// The wakers that were woken so far.
    pub closed spec fn woken(self) -> Seq<Waker> {
        self.log@
    }

    /// Nobody waits, and nobody was woken.
    pub(crate) fn new() -> (waiters: Self)
        ensures
            waiters.waiting() == Map::<u128, Waker>::empty(),
            waiters.woken() == Seq::<Waker>::empty(),
    {
        Waiters { wakers: HashMap::new(), log: WakeLog::new() }
    }

    /// Stores the waker of the wait `id`, in place of an earlier one.
    pub(crate) fn add_waker(&mut self, id: u128, waker: Waker)
        ensures
            final(self).waiting() == old(self).waiting().insert(id, waker),
            final(self).woken() == old(self).woken(),
    {
        self.wakers.insert(id, waker);
    }

    /// Forgets the waker of the wait `id`, if there is one.
    pub(crate) fn remove_waker(&mut self, id: u128)
        ensures
            final(self).waiting() == old(self).waiting().remove(id),
            final(self).woken() == old(self).woken(),
    {
        self.wakers.remove(&id);
    }

    /// Counts the wakers that are stored.
    pub(crate) fn len(&self) -> (count: usize)
        ensures
            count == self.waiting().len(),
    {
        self.wakers.len()
    }

    /// Wakes every task that waits, and forgets the wakers. Returns which wakers were woken.
    pub(crate) fn wake_all(&mut self) -> (woken: Ghost<Seq<Waker>>)
        ensures
            final(self).waiting() == Map::<u128, Waker>::empty(),
            final(self).woken() == old(self).woken() + woken@,
            wakes_all(old(self).waiting(), woken@),
    {
        let iter = self.wakers.iter();
        let ghost entries = vstd::std_specs::iter::IteratorSpec::remaining(&iter);
        let ghost mut woken: Seq<Waker> = Seq::empty();
        for (_, waker) in it: iter
            invariant
                it.seq() == entries,
                self.wakers == old(self).wakers,
                self.log@ == old(self).log@ + woken,
                woken.len() == it.index(),
                forall|i: int| 0 <= i < woken.len() ==> woken[i] == *entries[i].1,
        {
            wake(waker, &mut self.log);
            proof {
                woken = woken.push(*waker);
            }
        }
        proof {
            let waiting = self.wakers@;
            let ids = entries.map_values(|entry: (&u128, &Waker)| *entry.0);
            assert forall|i: int, j: int| 0 <= i < j < ids.len() implies ids[i] != ids[j] by {
                assert(waiting[*entries[i].0] == *entries[i].1);
                assert(waiting[*entries[j].0] == *entries[j].1);
            }
            assert forall|id: u128| waiting.dom().contains(id) implies ids.to_set().contains(id) by {
                assert(waiting.contains_key(id));
                let i = choose|i: int| 0 <= i < entries.len() && entries[i] == (&id, &waiting[id]);
                assert(ids[i] == id);
            }
            assert(ids.to_set() =~= waiting.dom());
            assert forall|i: int| 0 <= i < woken.len() implies woken[i] == waiting[ids[i]] by {
                assert(waiting[*entries[i].0] == *entries[i].1);
            }
            assert(woken =~= ids.map_values(|id: u128| waiting[id]));
            assert(wakes_in_order(waiting, ids, woken));
        }
        self.wakers.clear();
        Ghost(woken)
    }
}

} // verus!
