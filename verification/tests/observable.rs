use async_observable::update::AwaitObservableUpdate;
use async_observable::Observable;
use async_std::future::timeout;
use async_std::task::{block_on, sleep, spawn};
use std::future::Future;
use std::pin::Pin;
use std::task::{Context, Poll};
use std::time::Duration;

const SLEEP_DURATION: Duration = Duration::from_millis(25);
const TIMEOUT_DURATION: Duration = Duration::from_millis(500);

struct Next<'a, T: Clone>(AwaitObservableUpdate<'a, T>);

impl<'a, T: Clone> Future for Next<'a, T> {
    type Output = T;

    fn poll(mut self: Pin<&mut Self>, cx: &mut Context<'_>) -> Poll<T> {
        match self.0.poll(cx.waker().clone()) {
            Some(value) => Poll::Ready(value),
            None => Poll::Pending,
        }
    }
}

impl<'a, T: Clone> Drop for Next<'a, T> {
    fn drop(&mut self) {
        self.0.cancel();
    }
}

fn next<T: Clone>(observable: &mut Observable<T>) -> Next<'_, T> {
    Next(observable.next())
}

#[test]
fn should_get_notified_sync() {
    block_on(async {
        let mut int = Observable::new(1);
        let mut other = int.clone();

        int.publish(2);
        assert_eq!(next(&mut other).await, 2);
        int.publish(3);
        assert_eq!(next(&mut other).await, 3);
        int.publish(0);
        assert_eq!(next(&mut other).await, 0);
    });
}

#[test]
fn should_get_notified_sync_multiple() {
    block_on(async {
        let mut int = Observable::new(1);
        let mut fork_one = int.clone();
        let mut fork_two = int.clone();

        int.publish(2);
        assert_eq!(next(&mut fork_one).await, 2);
        assert_eq!(next(&mut fork_two).await, 2);

        int.publish(3);
        assert_eq!(next(&mut fork_one).await, 3);
        assert_eq!(next(&mut fork_two).await, 3);

        int.publish(0);
        assert_eq!(next(&mut fork_one).await, 0);
        assert_eq!(next(&mut fork_two).await, 0);
    });
}

#[test]
fn should_publish_after_modify() {
    block_on(async {
        let mut int = Observable::new(1);
        let mut fork = int.clone();

        int.modify(|i| *i += 1);
        assert_eq!(next(&mut fork).await, 2);

        int.modify(|i| *i += 1);
        assert_eq!(next(&mut fork).await, 3);

        int.modify(|i| *i -= 2);
        assert_eq!(next(&mut fork).await, 1);

        int.modify(|i| *i -= 2);
        assert_eq!(next(&mut fork).await, -1);
    });
}

#[test]
fn should_conditionally_modify() {
    let mut int = Observable::new(1);

    let modified = int.modify_conditional(|i| i % 2 == 0, |i| *i *= 2);
    assert!(!modified);
    assert_eq!(int.latest(), 1);

    let modified = int.modify_conditional(|i| i % 2 == 1, |i| *i *= 2);
    assert!(modified);
    assert_eq!(int.latest(), 2);

    let modified = int.modify_conditional(|i| i % 2 == 0, |i| *i = 1000);
    assert!(modified);
    assert_eq!(int.latest(), 1000);
}

#[test]
fn shouldnt_publish_same_change() {
    block_on(async {
        let mut int = Observable::new(1);
        let published = int.publish_if_changed(1);
        assert!(!published);
        assert!(timeout(TIMEOUT_DURATION, next(&mut int)).await.is_err());
    });
}

#[test]
fn should_publish_changed() {
    block_on(async {
        let mut int = Observable::new(1);

        let published = int.publish_if_changed(2);
        assert!(published);
        assert_eq!(int.synchronize(), 2);

        let published = int.publish_if_changed(2);
        assert!(!published);
        assert!(timeout(TIMEOUT_DURATION, next(&mut int)).await.is_err());
    });
}

#[test]
fn should_skip_versions() {
    block_on(async {
        let mut int = Observable::new(1);
        let mut fork = int.clone();

        int.publish(2);
        int.publish(3);
        int.publish(0);

        assert_eq!(next(&mut fork).await, 0);
    });
}

#[test]
fn should_wait_after_skiped_versions() {
    block_on(async {
        let mut int = Observable::new(1);
        let mut fork = int.clone();

        int.publish(2);
        int.publish(3);
        int.publish(0);

        assert_eq!(next(&mut fork).await, 0);
        assert!(timeout(TIMEOUT_DURATION, next(&mut fork)).await.is_err());
    });
}

#[test]
fn should_skip_unchecked_updates() {
    block_on(async {
        let mut int = Observable::new(1);
        let mut fork = int.clone();

        int.publish(2);
        assert_eq!(next(&mut fork).await, 2);
        int.publish(3);
        int.publish(0);
        assert_eq!(next(&mut fork).await, 0);
    });
}

#[test]
fn should_wait_for_publisher_task() {
    block_on(async {
        let mut int = Observable::new(1);
        let mut fork = int.clone();

        spawn(async move {
            sleep(SLEEP_DURATION).await;
            int.publish(2);
            sleep(SLEEP_DURATION).await;
            int.publish(3);
            sleep(SLEEP_DURATION).await;
            int.publish(0);
        });

        assert_eq!(next(&mut fork).await, 2);
        assert_eq!(next(&mut fork).await, 3);
        assert_eq!(next(&mut fork).await, 0);
    });
}

#[test]
fn should_get_latest_without_loosing_updates() {
    block_on(async {
        let mut int = Observable::new(1);
        let mut fork = int.clone();

        int.publish(2);

        assert_eq!(fork.latest(), 2);
        assert_eq!(fork.latest(), 2);

        assert_eq!(next(&mut fork).await, 2);
    });
}

#[test]
fn should_skip_updates_while_synchronizing() {
    block_on(async {
        let mut int = Observable::new(1);
        let mut fork = int.clone();

        int.publish(2);
        int.publish(3);

        assert_eq!(fork.synchronize(), 3);

        assert!(timeout(TIMEOUT_DURATION, next(&mut fork)).await.is_err());
    });
}

#[test]
fn should_synchronize_multiple_times() {
    block_on(async {
        let mut int = Observable::new(1);
        let mut fork = int.clone();

        int.publish(2);
        int.publish(3);

        assert_eq!(fork.synchronize(), 3);
        assert_eq!(fork.synchronize(), 3);

        int.publish(4);

        assert_eq!(fork.synchronize(), 4);

        assert!(timeout(TIMEOUT_DURATION, next(&mut fork)).await.is_err());
    });
}

#[test]
fn should_remove_waker_on_future_drop() {
    block_on(async {
        let int = Observable::new(1);
        let mut fork = int.clone();

        for _ in 0..100 {
            timeout(Duration::from_millis(10), next(&mut fork)).await.ok();

            assert_eq!(int.waker_count(), 0);
        }
    });
}

#[test]
fn should_wait_forever() {
    block_on(async {
        let int = Observable::new(1);
        let mut fork = int.clone();

        assert!(timeout(TIMEOUT_DURATION, next(&mut fork)).await.is_err());
        assert_eq!(int.latest(), 1);
    });
}

#[test]
fn should_have_a_change_after_reset() {
    block_on(async {
        let mut observable = Observable::new(0);
        let mut fork = observable.clone_and_reset();
        assert_eq!(next(&mut fork).await, 0);
        assert!(timeout(TIMEOUT_DURATION, next(&mut fork)).await.is_err());

        observable.publish(1);
        assert_eq!(next(&mut fork).await, 1);
        let mut again = fork.clone_and_reset();
        assert_eq!(next(&mut again).await, 1);
    });
}

#[test]
fn should_get_latest_of_reset_fork() {
    block_on(async {
        let mut observable = Observable::new(0);
        let mut fork = observable.clone_and_reset();

        observable.publish(1);
        assert_eq!(fork.latest(), 1);
        assert_eq!(next(&mut fork).await, 1);

        observable.publish(2);
        assert_eq!(next(&mut fork).await, 2);
        assert!(timeout(TIMEOUT_DURATION, next(&mut fork)).await.is_err());
    });
}

#[test]
fn should_split_into_two_handles() {
    block_on(async {
        let (mut main, mut task) = Observable::new(0).split();

        spawn(async move {
            task.publish(1);
        });

        assert_eq!(next(&mut main).await, 1);
    });
}

#[test]
fn should_notify_the_publisher_itself() {
    block_on(async {
        let mut int = Observable::new(1);
        int.publish(2);
        assert_eq!(next(&mut int).await, 2);
    });
}

#[test]
fn should_create_from_value() {
    block_on(async {
        let mut from = Observable::from(4);
        let mut into: Observable<u8> = 5.into();

        assert_eq!(from.latest(), 4);
        assert_eq!(into.latest(), 5);
        assert!(timeout(SLEEP_DURATION, next(&mut from)).await.is_err());
        assert!(timeout(SLEEP_DURATION, next(&mut into)).await.is_err());
    });
}

#[test]
fn should_not_wake_on_unmet_condition() {
    block_on(async {
        let mut observable = Observable::new(0);
        let mut fork = observable.clone();

        assert!(observable.modify_conditional(|i| *i == 0, |i| *i = 1));
        assert_eq!(next(&mut fork).await, 1);

        assert!(!observable.modify_conditional(|i| *i == 0, |i| *i = 2));
        assert!(timeout(TIMEOUT_DURATION, next(&mut fork)).await.is_err());
        assert_eq!(observable.latest(), 1);
    });
}

#[test]
fn should_share_counter_between_tasks() {
    block_on(async {
        let mut observable = Observable::new(0);
        let mut tasks = vec![];

        for _ in 0..10 {
            let mut fork = observable.clone();
            tasks.push(spawn(async move { next(&mut fork).await }));
        }

        observable.publish(1);

        for task in tasks {
            assert_eq!(task.await, 1);
        }
    });
}

#[test]
fn should_notify_a_task_until_done() {
    block_on(async {
        let mut observable = Observable::new(0);
        let mut fork = observable.clone();

        let task = spawn(async move {
            let mut updates = vec![];
            loop {
                let update = next(&mut fork).await;
                updates.push(update);
                if update >= 3 {
                    return updates;
                }
            }
        });

        observable.publish(1);
        sleep(Duration::from_millis(100)).await;
        observable.publish(2);
        sleep(Duration::from_millis(100)).await;
        observable.publish(3);

        assert_eq!(task.await, vec![1, 2, 3]);
    });
}

#[test]
fn should_survive_a_panicking_modification() {
    block_on(async {
        let mut int = Observable::new(1);
        let mut fork = int.clone();

        let mut doomed = int.clone();
        spawn(async move {
            doomed.modify(|_| panic!("gives up while it holds the lock"));
        });
        sleep(Duration::from_millis(200)).await;

        assert_eq!(int.latest(), 1);
        int.publish(2);
        assert_eq!(next(&mut fork).await, 2);
    });
}
