use std::future::Future;
use std::sync::atomic::{AtomicBool, Ordering};
use std::sync::Arc;
use std::time::Duration;

use futures::future::{select, Either};
use ntx_builder::tasks::{
    Completion, JoinError, Supervision, SupervisionEvent, SupervisionStep, TaskError, TaskId, Tasks,
};
use tokio::task::{Id, JoinSet};
use tokio_util::sync::CancellationToken;

type Output = Result<(), String>;

/// A task set over the runtime, driven by the library.
struct Supervised {
    handles: JoinSet<Output>,
    tags: Tasks<String>,
    reports: Vec<String>,
}

fn number(id: Id) -> TaskId {
    id.to_string().parse().unwrap()
}

impl Supervised {
    fn new() -> Self {
        Supervised { handles: JoinSet::new(), tags: Tasks::new(), reports: Vec::new() }
    }

    fn spawn(&mut self, name: &str, task: impl Future<Output = Output> + Send + 'static) {
        let id = self.handles.spawn(task).id();
        self.tags.spawn(number(id), name.to_string());
    }

    async fn join(&mut self) -> Option<(TaskId, Completion<String, String>)> {
        match self.handles.join_next_with_id().await? {
            Ok((id, output)) => Some((number(id), Ok(output))),
            Err(error) => Some((
                number(error.id()),
                Err(JoinError { cancelled: error.is_cancelled(), cause: error.to_string() }),
            )),
        }
    }

    async fn join_next_or_cancelled(
        &mut self,
        token: CancellationToken,
    ) -> Result<(), TaskError<String, String>> {
        let (mut supervision, mut step) = Supervision::start(token.is_cancelled());
        loop {
            let event = match step {
                SupervisionStep::Watch => {
                    let cancelled = Box::pin(token.cancelled());
                    let joined = Box::pin(self.join());
                    match select(cancelled, joined).await {
                        Either::Left(_) => SupervisionEvent::Cancelled,
                        Either::Right((joined, _)) => SupervisionEvent::Joined(joined),
                    }
                },
                SupervisionStep::RequestShutdown => {
                    token.cancel();
                    SupervisionEvent::Joined(self.join().await)
                },
                SupervisionStep::JoinNext => SupervisionEvent::Joined(self.join().await),
                SupervisionStep::Report(error) => {
                    self.reports.push(error.message());
                    SupervisionEvent::Joined(self.join().await)
                },
                SupervisionStep::Finish(result) => return result,
            };
            let next = self.tags.join_next_or_cancelled(supervision, event);
            supervision = next.0;
            step = next.1;
        }
    }

    fn is_empty(&self) -> bool {
        self.handles.is_empty() && self.tags.is_empty()
    }
}

fn run<T>(test: impl Future<Output = T>) -> T {
    tokio::runtime::Builder::new_current_thread().enable_time().build().unwrap().block_on(test)
}

#[test]
fn join_next_or_cancelled_accepts_clean_task_completion_after_cancellation() {
    run(async {
        let token = CancellationToken::new();
        let mut tasks = Supervised::new();
        tasks.spawn("worker", {
            let token = token.clone();
            async move {
                token.cancelled().await;
                Ok(())
            }
        });

        token.cancel();

        tasks
            .join_next_or_cancelled(token)
            .await
            .expect("clean shutdown should not be treated as an error");
    });
}

#[test]
fn join_next_or_cancelled_treats_task_completion_before_cancellation_as_error() {
    run(async {
        let token = CancellationToken::new();
        let mut tasks = Supervised::new();
        tasks.spawn("worker", async { Ok(()) });

        let err = tasks
            .join_next_or_cancelled(token)
            .await
            .expect_err("unexpected task completion should fail before shutdown");

        assert_eq!(err.message(), "task worker completed unexpectedly");
    });
}

#[test]
fn join_next_or_cancelled_drains_remaining_tasks_after_a_failure() {
    run(async {
        let token = CancellationToken::new();
        let mut tasks = Supervised::new();
        let survivor_finished = Arc::new(AtomicBool::new(false));

        tasks.spawn("failing", async { Err("boom".to_string()) });
        tasks.spawn("survivor", {
            let token = token.clone();
            let finished = Arc::clone(&survivor_finished);
            async move {
                token.cancelled().await;
                // Work past the cancellation point: an aborted task would never get here.
                tokio::time::sleep(Duration::from_millis(10)).await;
                finished.store(true, Ordering::Relaxed);
                Ok(())
            }
        });

        let err = tasks
            .join_next_or_cancelled(token.clone())
            .await
            .expect_err("the failing task's error should be returned");

        assert_eq!(err.message(), "task failing failed");
        assert!(token.is_cancelled(), "a task failure should trigger shutdown");
        assert!(tasks.is_empty(), "all tasks should be drained before returning");
        assert!(
            survivor_finished.load(Ordering::Relaxed),
            "surviving tasks should shut down gracefully, not be aborted",
        );
    });
}

#[test]
fn join_next_or_cancelled_drains_past_failures_during_shutdown() {
    run(async {
        let token = CancellationToken::new();
        let mut tasks = Supervised::new();
        let survivor_finished = Arc::new(AtomicBool::new(false));

        tasks.spawn("failing", {
            let token = token.clone();
            async move {
                token.cancelled().await;
                Err("boom".to_string())
            }
        });
        tasks.spawn("survivor", {
            let token = token.clone();
            let finished = Arc::clone(&survivor_finished);
            async move {
                token.cancelled().await;
                tokio::time::sleep(Duration::from_millis(10)).await;
                finished.store(true, Ordering::Relaxed);
                Ok(())
            }
        });

        token.cancel();

        let err = tasks
            .join_next_or_cancelled(token)
            .await
            .expect_err("a failure during shutdown should be reported");

        assert_eq!(err.message(), "task failing failed during shutdown");
        assert!(tasks.is_empty(), "draining should continue past the failed task");
        assert!(
            survivor_finished.load(Ordering::Relaxed),
            "surviving tasks should shut down gracefully, not be aborted",
        );
    });
}

#[test]
fn join_next_or_cancelled_waits_for_all_tasks_to_complete_after_cancellation() {
    run(async {
        let token = CancellationToken::new();
        let mut tasks = Supervised::new();
        tasks.spawn("worker-a", {
            let token = token.clone();
            async move {
                token.cancelled().await;
                Ok(())
            }
        });
        tasks.spawn("worker-b", {
            let token = token.clone();
            async move {
                token.cancelled().await;
                tokio::time::sleep(Duration::from_millis(10)).await;
                Ok(())
            }
        });

        token.cancel();

        tasks
            .join_next_or_cancelled(token)
            .await
            .expect("shutdown should wait for all clean task exits");
        assert!(tasks.is_empty());
    });
}

#[test]
fn later_failures_are_reported_and_do_not_hide_the_first() {
    run(async {
        let token = CancellationToken::new();
        let mut tasks = Supervised::new();
        for (name, delay) in [("first", 1_u64), ("second", 20), ("third", 40)] {
            let token = token.clone();
            tasks.spawn(name, async move {
                token.cancelled().await;
                tokio::time::sleep(Duration::from_millis(delay)).await;
                Err(name.to_string())
            });
        }
        token.cancel();

        let err = tasks.join_next_or_cancelled(token).await.unwrap_err();
        assert_eq!(err.message(), "task first failed during shutdown");
        assert_eq!(
            tasks.reports,
            vec!["task second failed during shutdown", "task third failed during shutdown"]
        );
    });
}

#[test]
fn panicking_task_fails_to_join() {
    run(async {
        let token = CancellationToken::new();
        let mut tasks = Supervised::new();
        tasks.spawn("worker", async { panic!("boom") });
        let err = tasks.join_next_or_cancelled(token.clone()).await.unwrap_err();
        assert_eq!(err.message(), "task worker failed to join");

        tasks.spawn("worker", async { panic!("boom") });
        let err = tasks.join_next_or_cancelled(token).await.unwrap_err();
        assert_eq!(err.message(), "task worker failed to join");
    });
}

#[test]
fn aborted_task_is_fine_during_shutdown_only() {
    run(async {
        let mut tasks = Supervised::new();
        tasks.spawn("worker", async {
            tokio::time::sleep(Duration::from_secs(60)).await;
            Ok(())
        });
        tasks.handles.abort_all();
        let token = CancellationToken::new();
        token.cancel();
        assert!(tasks.join_next_or_cancelled(token).await.is_ok());

        tasks.spawn("worker", async {
            tokio::time::sleep(Duration::from_secs(60)).await;
            Ok(())
        });
        tasks.handles.abort_all();
        let err = tasks.join_next_or_cancelled(CancellationToken::new()).await.unwrap_err();
        assert_eq!(err.message(), "task worker failed to join");
    });
}

#[test]
fn empty_set_is_an_error_before_shutdown_only() {
    run(async {
        let mut tasks = Supervised::new();
        let err = tasks.join_next_or_cancelled(CancellationToken::new()).await.unwrap_err();
        assert_eq!(err.message(), "task set is empty");

        let token = CancellationToken::new();
        token.cancel();
        assert!(tasks.join_next_or_cancelled(token).await.is_ok());
    });
}

#[test]
fn shutdown_request_while_watching_drains_the_set() {
    let mut tasks: Tasks<String> = Tasks::new();
    tasks.spawn(1, "worker".to_string());
    let (supervision, step) = Supervision::<String, String>::start(false);
    assert!(matches!(step, SupervisionStep::Watch));

    let (supervision, step) =
        tasks.join_next_or_cancelled(supervision, SupervisionEvent::Cancelled);
    assert!(matches!(step, SupervisionStep::JoinNext));
    assert!(supervision.draining);

    let event = SupervisionEvent::Joined(Some((1, Ok(Ok(())))));
    let (supervision, step) = tasks.join_next_or_cancelled(supervision, event);
    assert!(matches!(step, SupervisionStep::JoinNext));
    assert!(tasks.is_empty());

    let (_, step) = tasks.join_next_or_cancelled(supervision, SupervisionEvent::Joined(None));
    assert!(matches!(step, SupervisionStep::Finish(Ok(()))));
}

#[test]
fn every_completion_of_an_endless_task_is_an_error() {
    let mut tasks: Tasks<String> = Tasks::default();
    tasks.spawn_infallible(7, "a".to_string());
    tasks.spawn(8, "b".to_string());
    tasks.spawn(9, "c".to_string());
    assert_eq!(tasks.len(), 3);

    let error = tasks.join_next_as_error::<String, String>(Some((7, Ok(Ok(())))));
    assert_eq!(error.message(), "task a completed unexpectedly");
    let error = tasks.join_next_as_error::<String, String>(Some((8, Ok(Err("boom".to_string())))));
    assert_eq!(error.message(), "task b failed");
    assert!(matches!(error, TaskError::Failed { cause, .. } if cause == "boom"));
    let aborted = JoinError { cancelled: true, cause: "aborted".to_string() };
    let error = tasks.join_next_as_error::<String, String>(Some((9, Err(aborted))));
    assert_eq!(error.message(), "task c failed to join");
    assert_eq!(tasks.len(), 0);
    let error = tasks.join_next_as_error::<String, String>(None);
    assert_eq!(error.message(), "task set is empty");
}

#[test]
fn tags_follow_their_tasks() {
    let mut tasks: Tasks<u32> = Tasks::new();
    assert!(tasks.is_empty());
    tasks.spawn(1, 10);
    tasks.spawn(2, 20);
    tasks.spawn(3, 10);
    let mut tags = tasks.tags();
    tags.sort();
    assert_eq!(tags, vec![&10, &10, &20]);

    assert_eq!(tasks.join_next(Some((2, "done"))), Some((20, "done")));
    assert_eq!(tasks.len(), 2);
    assert_eq!(tasks.tags(), vec![&10, &10]);

    tasks.shutdown();
    assert!(tasks.is_empty());
    assert_eq!(tasks.join_next::<&str>(None), None);
}

#[test]
fn named_tasks_have_tags_too() {
    let mut tasks: Tasks<String> = Tasks::new();
    tasks.spawn(1, "event-loop".to_string());
    assert_eq!(tasks.tags(), vec!["event-loop"]);
}
