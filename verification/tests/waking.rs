use async_observable::inner::Inner;
use async_observable::Observable;
use std::sync::atomic::{AtomicUsize, Ordering};
use std::sync::Arc;
use std::task::{Wake, Waker};

#[derive(Clone, Debug)]
struct Labelled {
    key: u32,
    label: &'static str,
}

impl PartialEq for Labelled {
    fn eq(&self, other: &Self) -> bool {
        self.key == other.key
    }
}

impl Eq for Labelled {}

struct Counter(AtomicUsize);

impl Wake for Counter {
    fn wake(self: Arc<Self>) {
        self.0.fetch_add(1, Ordering::SeqCst);
    }
}

fn counter() -> (Arc<Counter>, Waker) {
    let counter = Arc::new(Counter(AtomicUsize::new(0)));
    let waker = Waker::from(counter.clone());
    (counter, waker)
}

fn count(counter: &Arc<Counter>) -> usize {
    counter.0.load(Ordering::SeqCst)
}

#[test]
fn inner_starts_at_version_zero() {
    let mut inner = Inner::new("a");
    assert_eq!(inner.snapshot(), ("a", 0));
    assert_eq!(inner.waker_count(), 0);
    assert_eq!(inner.register(), 1);
    assert_eq!(inner.register(), 2);
}

#[test]
fn inner_apply_counts_versions() {
    let mut inner = Inner::new(1);
    let changed = inner.apply(|v| {
        *v = 5;
        true
    });
    assert!(changed);
    assert_eq!(inner.snapshot(), (5, 1));

    assert!(!inner.apply(|_| false));
    assert_eq!(inner.snapshot(), (5, 1));

    let changed = inner.apply(|v| {
        *v = 6;
        false
    });
    assert!(!changed);
    assert_eq!(inner.snapshot(), (6, 1));
}

#[test]
fn inner_apply_wakes_each_wait_once() {
    let (one, one_waker) = counter();
    let (two, two_waker) = counter();
    let mut inner = Inner::new(1);
    inner.add_waker(1, one_waker.clone());
    inner.add_waker(2, one_waker);
    inner.add_waker(3, two_waker);
    assert_eq!(inner.waker_count(), 3);

    assert!(inner.apply(|_| true));
    assert_eq!(count(&one), 2);
    assert_eq!(count(&two), 1);
    assert_eq!(inner.waker_count(), 0);

    inner.apply(|_| true);
    assert_eq!(count(&one), 2);
    assert_eq!(count(&two), 1);
}

#[test]
fn inner_no_change_wakes_nobody() {
    let (one, waker) = counter();
    let mut inner = Inner::new(1);
    inner.add_waker(1, waker);
    inner.apply(|_| false);
    assert_eq!(count(&one), 0);
    assert_eq!(inner.waker_count(), 1);
}

#[test]
fn inner_replaces_and_removes_wakers() {
    let (one, one_waker) = counter();
    let (two, two_waker) = counter();
    let mut inner = Inner::new(1);
    inner.add_waker(1, one_waker);
    inner.add_waker(1, two_waker);
    assert_eq!(inner.waker_count(), 1);
    inner.apply(|_| true);
    assert_eq!(count(&one), 0);
    assert_eq!(count(&two), 1);

    let (three, three_waker) = counter();
    inner.add_waker(4, three_waker);
    inner.remove_waker(5);
    assert_eq!(inner.waker_count(), 1);
    inner.remove_waker(4);
    assert_eq!(inner.waker_count(), 0);
    inner.apply(|_| true);
    assert_eq!(count(&three), 0);
}

#[test]
fn inner_poll_decides_by_version() {
    let (one, waker) = counter();
    let mut inner = Inner::new('x');

    assert_eq!(inner.poll(1, Some(0), waker.clone()), None);
    assert_eq!(inner.waker_count(), 1);
    assert_eq!(inner.poll(1, None, waker.clone()), Some(('x', 0)));
    assert_eq!(inner.waker_count(), 0);

    assert_eq!(inner.poll(1, Some(0), waker.clone()), None);
    inner.apply(|v| {
        *v = 'y';
        true
    });
    assert_eq!(count(&one), 1);
    assert_eq!(inner.poll(1, Some(0), waker.clone()), Some(('y', 1)));
    assert_eq!(inner.poll(1, Some(1), waker), None);
}

#[test]
fn pending_wait_is_woken_by_the_next_publish() {
    let (one, waker) = counter();
    let mut int = Observable::new(1);
    let mut fork = int.clone();

    let mut update = fork.next();
    assert_eq!(update.poll(waker.clone()), None);
    assert_eq!(int.waker_count(), 1);
    assert_eq!(count(&one), 0);

    int.publish(7);
    assert_eq!(count(&one), 1);
    assert_eq!(int.waker_count(), 0);
    assert_eq!(update.poll(waker.clone()), Some(7));
    assert_eq!(update.poll(waker), None);
    update.cancel();
    assert_eq!(int.waker_count(), 0);
}

#[test]
fn cancelled_wait_is_not_woken() {
    let (one, one_waker) = counter();
    let (two, two_waker) = counter();
    let mut int = Observable::new(1);
    let mut first = int.clone();
    let mut second = int.clone();

    let mut gone = first.next();
    let mut stays = second.next();
    assert_eq!(gone.poll(one_waker), None);
    assert_eq!(stays.poll(two_waker), None);
    assert_eq!(int.waker_count(), 2);
    gone.cancel();
    assert_eq!(int.waker_count(), 1);

    int.publish(2);
    assert_eq!(count(&one), 0);
    assert_eq!(count(&two), 1);
}

#[test]
fn unchanged_publish_wakes_nobody() {
    let (one, waker) = counter();
    let mut int = Observable::new(1);
    let mut fork = int.clone();
    let mut update = fork.next();
    assert_eq!(update.poll(waker), None);

    assert!(!int.publish_if_changed(1));
    assert_eq!(count(&one), 0);
    assert_eq!(int.waker_count(), 1);

    assert!(int.publish_if_changed(2));
    assert_eq!(count(&one), 1);
    assert_eq!(int.waker_count(), 0);
}

#[test]
fn forks_see_what_they_saw_when_they_were_cloned() {
    let (_, waker) = counter();
    let mut int = Observable::new(1);
    let mut stale = int.clone();
    int.publish(2);
    let mut stale_fork = stale.clone();
    assert_eq!(stale.synchronize(), 2);
    let mut fresh_fork = stale.clone();

    assert_eq!(stale_fork.next().poll(waker.clone()), Some(2));
    assert_eq!(fresh_fork.next().poll(waker), None);
}

#[test]
fn separate_observables_share_nothing() {
    let (_, waker) = counter();
    let mut one = Observable::new(1);
    let mut other = Observable::new(1);
    one.publish(2);
    assert_eq!(other.latest(), 1);
    assert_eq!(other.next().poll(waker), None);
}

#[test]
fn equal_value_is_no_change_though_it_is_not_identical() {
    let first = Labelled { key: 1, label: "first" };
    let second = Labelled { key: 1, label: "second" };
    let third = Labelled { key: 1, label: "third" };
    let mut observable = Observable::new(first);
    assert!(!observable.publish_if_changed(second));
    assert!(!observable.publish_if_changed(third));
    assert_eq!(observable.latest().label, "first");

    assert!(observable.publish_if_changed(Labelled { key: 2, label: "fourth" }));
    assert!(!observable.publish_if_changed(Labelled { key: 2, label: "fifth" }));
    assert_eq!(observable.latest().label, "fourth");
}

#[test]
fn updates_come_in_the_order_of_their_publication() {
    let (_, waker) = counter();
    let mut int = Observable::new(0);
    let mut fork = int.clone();
    let mut received = vec![];
    for i in 1..=9 {
        int.publish(i);
        if i % 3 == 0 {
            received.extend(fork.next().poll(waker.clone()));
            received.extend(fork.next().poll(waker.clone()));
        }
    }
    assert_eq!(received, vec![3, 6, 9]);
}

#[test]
fn second_poll_replaces_the_waker() {
    let (one, one_waker) = counter();
    let (two, two_waker) = counter();
    let mut int = Observable::new(1);
    let mut fork = int.clone();
    let mut update = fork.next();
    assert_eq!(update.poll(one_waker), None);
    assert_eq!(update.poll(two_waker), None);
    assert_eq!(int.waker_count(), 1);
    int.publish(2);
    assert_eq!(count(&one), 0);
    assert_eq!(count(&two), 1);
}

#[test]
fn only_changes_wake_anybody() {
    let (one, one_waker) = counter();
    let (two, two_waker) = counter();
    let mut int = Observable::new(1);
    let mut first = int.clone();
    let mut second = int.clone();
    let mut update = first.next();
    assert_eq!(update.poll(one_waker.clone()), None);
    assert_eq!(update.poll(one_waker), None);

    int.latest();
    int.synchronize();
    int.publish_if_changed(1);
    int.modify_conditional(|_| false, |i| *i = 5);
    let mut other = second.next();
    assert_eq!(other.poll(two_waker), None);
    other.cancel();
    let mut reset = int.clone_and_reset();
    assert_eq!(reset.synchronize(), 1);
    assert_eq!(count(&one), 0);
    assert_eq!(count(&two), 0);

    int.modify(|_| ());
    assert_eq!(count(&one), 1);
    assert_eq!(count(&two), 0);
}

#[test]
fn abandoned_wait_misses_nothing() {
    let (one, waker) = counter();
    let mut int = Observable::new(1);
    let mut fork = int.clone();
    let mut update = fork.next();
    assert_eq!(update.poll(waker.clone()), None);
    int.publish(2);
    update.cancel();
    int.publish(3);
    assert_eq!(count(&one), 1);
    assert_eq!(fork.next().poll(waker), Some(3));
}

#[test]
fn fork_that_is_behind_receives_what_is_published() {
    let (_, waker) = counter();
    let mut int = Observable::new(1);
    let mut behind = int.clone();
    int.publish(2);
    int.synchronize();
    int.publish(3);
    assert_eq!(behind.version(), Some(0));
    assert_eq!(behind.next().poll(waker), Some(3));
    assert_eq!(behind.version(), Some(2));
}
