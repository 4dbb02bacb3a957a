//! Bookkeeping and supervision of concurrently running tasks.
//!
//! The runtime runs the tasks. This module keeps the tag of each of them and decides what a
//! completion means, so that the code around the runtime only has to perform what it is told.

use std::collections::HashMap;

use vstd::prelude::*;

verus! {

/// Identifier that the runtime gives a spawned task.
pub type TaskId = u64;

/// Why a task has no output: it was aborted, or it panicked.
#[derive(Debug)]
pub struct JoinError<J> {
    pub cancelled: bool,
    pub cause: J,
}

/// Why a set of supervised tasks failed.
#[derive(Debug)]
pub enum TaskError<E, J> {
    /// There is no task to supervise.
    SetIsEmpty,
    /// A task that should have kept running ended cleanly.
    CompletedUnexpectedly { task: String },
    /// A task returned an error.
    Failed { task: String, cause: E },
    /// A task returned an error once shutdown had been requested.
    FailedDuringShutdown { task: String, cause: E },
    /// A task panicked or was aborted.
    FailedToJoin { task: String, join_error: JoinError<J> },
}

/// What a supervised task left behind.
pub type Completion<E, J> = Result<Result<(), E>, JoinError<J>>;

impl<E, J> TaskError<E, J> {
    /// The text of the error.
    pub open spec fn text(self) -> Seq<char> {
        match self {
            TaskError::SetIsEmpty => "task set is empty"@,
            TaskError::CompletedUnexpectedly { task } => "task "@ + task@
                + " completed unexpectedly"@,
            TaskError::Failed { task, .. } => "task "@ + task@ + " failed"@,
            TaskError::FailedDuringShutdown { task, .. } => "task "@ + task@
                + " failed during shutdown"@,
            TaskError::FailedToJoin { task, .. } => "task "@ + task@ + " failed to join"@,
        }
    }

    /// Returns the text of the error.
    pub fn message(&self) -> (message: String)
        ensures
            message@ == self.text(),
    {
        match self {
            TaskError::SetIsEmpty => "task set is empty".to_owned(),
            TaskError::CompletedUnexpectedly { task } => task_message(
                task,
                " completed unexpectedly",
            ),
            TaskError::Failed { task, .. } => task_message(task, " failed"),
            TaskError::FailedDuringShutdown { task, .. } => task_message(
                task,
                " failed during shutdown",
            ),
            TaskError::FailedToJoin { task, .. } => task_message(task, " failed to join"),
        }
    }
}

/// Returns a sentence about a task.
fn task_message(task: &String, rest: &str) -> (message: String)
    ensures
        message@ == "task "@ + task@ + rest@,
{
    let mut message = "task ".to_owned();
    message.append(task.as_str());
    message.append(rest);
    message
}

// TASK SET
// ================================================================================================

/// The tags of the tasks in a set.
///
/// Every task gets its tag when it is spawned and loses it when it is joined, so the set holds a
/// tag for exactly the tasks that run or wait to be joined.
pub struct Tasks<M> {
    tags: HashMap<TaskId, M>,
}

impl<M> View for Tasks<M> {
    type V = Map<TaskId, M>;

    closed spec fn view(&self) -> Map<TaskId, M> {
        self.tags@
    }
}

/// `values` lists the values of `map`, one for each key, in some order of the keys.
pub open spec fn lists_values<K, V>(map: Map<K, V>, values: Seq<V>) -> bool {
    exists|keys: Seq<K>| #[trigger] lists_values_by(map, keys, values)
}

/// `values` lists the values of `map` in the order of `keys`, which lists every key once.
pub open spec fn lists_values_by<K, V>(map: Map<K, V>, keys: Seq<K>, values: Seq<V>) -> bool {
    &&& keys.no_duplicates()
    &&& keys.to_set() == map.dom()
    &&& values == keys.map_values(|key: K| map[key])
}

/// What the runtime can report of a set of tasks: the output of one of them, or that there is
/// none left.
pub open spec fn can_join<M, T>(tasks: Map<TaskId, M>, joined: Option<(TaskId, T)>) -> bool {
    match joined {
        Some((id, _)) => tasks.contains_key(id),
        None => tasks.dom().is_empty(),
    }
}

impl<M> Default for Tasks<M> {
    fn default() -> (tasks: Self)
        ensures
            tasks@ == Map::<TaskId, M>::empty(),
    {
        Tasks { tags: HashMap::new() }
    }
}

impl<M> Tasks<M> {
    /// Creates an empty task set.
    pub fn new() -> (tasks: Self)
        ensures
            tasks@ == Map::<TaskId, M>::empty(),
    {
        Tasks { tags: HashMap::new() }
    }

    /// Records the tag of a spawned task.
    pub fn spawn(&mut self, id: TaskId, tag: M)
        ensures
            final(self)@ == old(self)@.insert(id, tag),
    {
        broadcast use vstd::std_specs::hash::group_hash_axioms;

        let _ = self.tags.insert(id, tag);
    }

    /// Takes what the runtime reported of the next task to complete, and returns it with the tag
    /// of the task.
    pub fn join_next<T>(&mut self, joined: Option<(TaskId, T)>) -> (completion: Option<(M, T)>)
        requires
            can_join(old(self)@, joined),
        ensures
            match joined {
                Some((id, output)) => {
                    &&& completion == Some((old(self)@[id], output))
                    &&& final(self)@ == old(self)@.remove(id)
                },
                None => completion is None && final(self)@ == old(self)@,
            },
    {
        broadcast use vstd::std_specs::hash::group_hash_axioms;

        match joined {
            Some((id, output)) => match self.tags.remove(&id) {
                Some(tag) => Some((tag, output)),
                None => None,
            },
            None => None,
        }
    }

    /// Returns `true` if no tasks are currently in the set.
    pub fn is_empty(&self) -> (empty: bool)
        ensures
            empty <==> self@.dom().is_empty(),
    {
        self.tags.is_empty()
    }

    /// Returns the number of tasks currently in the set.
    pub fn len(&self) -> (len: usize)
        ensures
            len == self@.dom().len(),
            self@.dom().finite(),
    {
        broadcast use vstd::std_specs::hash::group_hash_axioms;

        self.tags.len()
    }

    /// Forgets every task of the set.
    pub fn shutdown(&mut self)
        ensures
            final(self)@ == Map::<TaskId, M>::empty(),
    {
        self.tags.clear();
    }

    /// Returns the tag of every task in the set, in no particular order.
    pub fn tags(&self) -> (tags: Vec<&M>)
        ensures
            lists_values(self@, tags@.unref()),
    {
        broadcast use vstd::std_specs::hash::group_hash_axioms;

        let mut tags: Vec<&M> = Vec::new();
        let ghost mut keys: Seq<TaskId> = Seq::empty();
        for id in ids: self.tags.keys()
            invariant
                keys =~= ids.seq().unref().take(ids.index() as int),
                tags@.unref() =~= keys.map_values(|key: TaskId| self.tags@[key]),
                ids.seq().unref().to_set() == self.tags@.dom(),
                ids.seq().no_duplicates(),
                keys.no_duplicates(),
                ids.index() == ids.seq().len() ==> keys.to_set() == self.tags@.dom(),
        {
            assert(ids.seq().unref()[ids.index() as int] == *id);
            assert(ids.seq().unref().to_set().contains(*id));
            if let Some(tag) = self.tags.get(id) {
                let ghost before = tags@.unref();
                tags.push(tag);
                assert(tags@.unref() =~= before.push(self.tags@[*id]));
                proof {
                    keys = keys.push(*id);
                }
                assert(keys =~= ids.seq().unref().take(ids.index() + 1));
                assert(ids.index() + 1 == ids.seq().len() ==> keys =~= ids.seq().unref());
            }
        }
        assert(lists_values_by(self@, keys, tags@.unref()));
        tags
    }
}

// SUPERVISION
// ================================================================================================

/// What a completion means before shutdown was requested. Supervised tasks run until then, so
/// every completion is an error, even a clean one.
pub open spec fn unexpected<E, J>(task: String, completion: Completion<E, J>) -> TaskError<E, J> {
    match completion {
        Ok(Ok(())) => TaskError::CompletedUnexpectedly { task },
        Ok(Err(cause)) => TaskError::Failed { task, cause },
        Err(join_error) => TaskError::FailedToJoin { task, join_error },
    }
}

/// What a completion means after shutdown was requested. A clean exit is what is asked for, and an
/// aborted task is fine too.
pub open spec fn shutdown_result<E, J>(task: String, completion: Completion<E, J>) -> Result<
    (),
    TaskError<E, J>,
> {
    match completion {
        Ok(Ok(())) => Ok(()),
        Ok(Err(cause)) => Err(TaskError::FailedDuringShutdown { task, cause }),
        Err(join_error) => if join_error.cancelled {
            Ok(())
        } else {
            Err(TaskError::FailedToJoin { task, join_error })
        },
    }
}

/// The outcome of a shutdown once one more task was joined: the first failure stands.
pub open spec fn settled<E, J>(
    outcome: Result<(), TaskError<E, J>>,
    task: String,
    completion: Completion<E, J>,
) -> Result<(), TaskError<E, J>> {
    if outcome is Err {
        outcome
    } else {
        shutdown_result(task, completion)
    }
}

/// The outcome of a shutdown once all of the given tasks were joined in turn.
pub open spec fn drained<E, J>(
    outcome: Result<(), TaskError<E, J>>,
    completions: Seq<(String, Completion<E, J>)>,
) -> Result<(), TaskError<E, J>>
    decreases completions.len(),
{
    if completions.len() == 0 {
        outcome
    } else {
        let (task, completion) = completions.last();
        settled(drained(outcome, completions.drop_last()), task, completion)
    }
}

/// Progress of the supervision of a task set.
#[derive(Debug)]
pub struct Supervision<E, J> {
    /// Whether shutdown was requested, so that the remaining tasks are joined one after another.
    pub draining: bool,
    /// What is returned when no task is left.
    pub outcome: Result<(), TaskError<E, J>>,
}

/// What happened to a supervised task set.
#[derive(Debug)]
pub enum SupervisionEvent<E, J> {
    /// Shutdown was requested.
    Cancelled,
    /// The next task was joined, or none is left.
    Joined(Option<(TaskId, Completion<E, J>)>),
}

/// What to do next for a supervised task set.
#[derive(Debug)]
pub enum SupervisionStep<E, J> {
    /// Wait for a shutdown request or for the next completion. A request goes first.
    Watch,
    /// Request shutdown, then join the next task.
    RequestShutdown,
    /// Join the next task.
    JoinNext,
    /// Report a failure that came after the first one, then join the next task.
    Report(TaskError<E, J>),
    /// Return the result.
    Finish(Result<(), TaskError<E, J>>),
}

impl<E, J> Supervision<E, J> {
    /// What an event does to the supervision and to its set, and the step that follows it.
    pub open spec fn moves(
        self,
        tasks: Map<TaskId, String>,
        event: SupervisionEvent<E, J>,
        after: Supervision<E, J>,
        left: Map<TaskId, String>,
        step: SupervisionStep<E, J>,
    ) -> bool {
        match event {
            SupervisionEvent::Cancelled => {
                &&& left == tasks
                &&& after == (Supervision { draining: true, outcome: self.outcome })
                &&& step is JoinNext
            },
            SupervisionEvent::Joined(Some((id, completion))) => {
                &&& left == tasks.remove(id)
                &&& after.draining
                &&& if self.draining {
                    let result = shutdown_result(tasks[id], completion);
                    &&& after.outcome == settled(self.outcome, tasks[id], completion)
                    &&& if self.outcome is Err && result is Err {
                        step == SupervisionStep::Report(result->Err_0)
                    } else {
                        step is JoinNext
                    }
                } else {
                    &&& after.outcome == Err::<(), TaskError<E, J>>(
                        unexpected(tasks[id], completion),
                    )
                    &&& step is RequestShutdown
                }
            },
            SupervisionEvent::Joined(None) => {
                &&& left == tasks
                &&& left.dom().is_empty()
                &&& step == if self.draining {
                    SupervisionStep::Finish(self.outcome)
                } else {
                    SupervisionStep::Finish(Err(TaskError::SetIsEmpty))
                }
            },
        }
    }

    /// Starts the supervision. `cancelled` says whether shutdown was requested already.
    pub fn start(cancelled: bool) -> (started: (Supervision<E, J>, SupervisionStep<E, J>))
        ensures
            started.0 == (Supervision::<E, J> { draining: cancelled, outcome: Ok(()) }),
            started.1 == if cancelled {
                SupervisionStep::<E, J>::JoinNext
            } else {
                SupervisionStep::<E, J>::Watch
            },
    {
        let step = if cancelled {
            SupervisionStep::JoinNext
        } else {
            SupervisionStep::Watch
        };
        (Supervision { draining: cancelled, outcome: Ok(()) }, step)
    }
}

impl Tasks<String> {
    /// Records a named task that does not return an error. A completion of such a task counts as
    /// a clean one.
    pub fn spawn_infallible(&mut self, id: TaskId, name: String)
        ensures
            final(self)@ == old(self)@.insert(id, name),
    {
        self.spawn(id, name);
    }

    /// Treats the next completion as an error.
    ///
    /// For a set whose tasks should all run forever.
    pub fn join_next_as_error<E, J>(
        &mut self,
        joined: Option<(TaskId, Completion<E, J>)>,
    ) -> (error: TaskError<E, J>)
        requires
            can_join(old(self)@, joined),
        ensures
            match joined {
                Some((id, completion)) => {
                    &&& error == unexpected(old(self)@[id], completion)
                    &&& final(self)@ == old(self)@.remove(id)
                },
                None => error is SetIsEmpty && final(self)@ == old(self)@,
            },
    {
        match self.join_next(joined) {
            Some((task, completion)) => Self::unexpected_completion(task, completion),
            None => TaskError::SetIsEmpty,
        }
    }

    /// Decides what follows an event in a supervised task set.
    ///
    /// Before shutdown any completion is fatal, and requests the shutdown itself: the remaining
    /// tasks are joined before the error is returned, so none of them is aborted in the middle of
    /// its work. Once shutdown is requested clean exits are accepted and every task is joined. The
    /// first failure is the one returned. Later ones often follow from it and are only reported.
    pub fn join_next_or_cancelled<E, J>(
        &mut self,
        supervision: Supervision<E, J>,
        event: SupervisionEvent<E, J>,
    ) -> (next: (Supervision<E, J>, SupervisionStep<E, J>))
        requires
            event is Cancelled ==> !supervision.draining,
            event matches SupervisionEvent::Joined(joined) ==> can_join(old(self)@, joined),
        ensures
            event is Cancelled ==> {
                &&& final(self)@ == old(self)@
                &&& next.0 == (Supervision { draining: true, outcome: supervision.outcome })
                &&& next.1 is JoinNext
            },
            event matches SupervisionEvent::Joined(Some((id, completion))) ==> {
                &&& final(self)@ == old(self)@.remove(id)
                &&& next.0.draining
                &&& !supervision.draining ==> {
                    &&& next.0.outcome == Err::<(), _>(unexpected(old(self)@[id], completion))
                    &&& next.1 is RequestShutdown
                }
                &&& supervision.draining ==> {
                    let result = shutdown_result(old(self)@[id], completion);
                    &&& next.0.outcome == settled(supervision.outcome, old(self)@[id], completion)
                    &&& if supervision.outcome is Err && result is Err {
                        next.1 == SupervisionStep::Report(result->Err_0)
                    } else {
                        next.1 is JoinNext
                    }
                }
            },
            event matches SupervisionEvent::Joined(None) ==> {
                &&& final(self)@ == old(self)@
                &&& next.0 == (Supervision::<E, J> {
                    draining: supervision.draining,
                    outcome: Ok(()),
                })
                &&& next.1 == if supervision.draining {
                    SupervisionStep::Finish(supervision.outcome)
                } else {
                    SupervisionStep::Finish(Err(TaskError::SetIsEmpty))
                }
            },
            next.1 is Finish ==> final(self)@.dom().is_empty(),
            supervision.moves(old(self)@, event, next.0, final(self)@, next.1),
    {
        let Supervision { draining, outcome } = supervision;
        match event {
            SupervisionEvent::Cancelled => (
                Supervision { draining: true, outcome },
                SupervisionStep::JoinNext,
            ),
            SupervisionEvent::Joined(joined) => {
                match self.join_next(joined) {
                    None => {
                        let result = if draining {
                            outcome
                        } else {
                            Err(TaskError::SetIsEmpty)
                        };
                        (Supervision { draining, outcome: Ok(()) }, SupervisionStep::Finish(result))
                    },
                    Some((task, completion)) => if draining {
                        match (outcome, Self::shutdown_completion(task, completion)) {
                            // No failure so far: this result becomes the outcome.
                            (Ok(()), result) => (
                                Supervision { draining, outcome: result },
                                SupervisionStep::JoinNext,
                            ),
                            // The first failure stands as the root cause.
                            (Err(first), Err(later)) => (
                                Supervision { draining, outcome: Err(first) },
                                SupervisionStep::Report(later),
                            ),
                            (Err(first), Ok(())) => (
                                Supervision { draining, outcome: Err(first) },
                                SupervisionStep::JoinNext,
                            ),
                        }
                    } else {
                        let error = Self::unexpected_completion(task, completion);
                        (
                            Supervision { draining: true, outcome: Err(error) },
                            SupervisionStep::RequestShutdown,
                        )
                    },
                }
            },
        }
    }

    /// Interprets a completion that came before shutdown was requested.
    pub fn unexpected_completion<E, J>(task: String, completion: Completion<E, J>) -> (error:
        TaskError<E, J>)
        ensures
            error == unexpected(task, completion),
    {
        match completion {
            Ok(Ok(())) => TaskError::CompletedUnexpectedly { task },
            Ok(Err(cause)) => TaskError::Failed { task, cause },
            Err(join_error) => TaskError::FailedToJoin { task, join_error },
        }
    }

    /// Interprets a completion that came after shutdown was requested.
    pub fn shutdown_completion<E, J>(task: String, completion: Completion<E, J>) -> (result: Result<
        (),
        TaskError<E, J>,
    >)
        ensures
            result == shutdown_result(task, completion),
    {
        match completion {
            Ok(Ok(())) => Ok(()),
            Ok(Err(cause)) => Err(TaskError::FailedDuringShutdown { task, cause }),
            Err(join_error) => if join_error.cancelled {
                Ok(())
            } else {
                Err(TaskError::FailedToJoin { task, join_error })
            },
        }
    }
}

// LAWS
// ================================================================================================

/// Joining one more task settles the outcome of joining those before it.
pub proof fn law_joining_one_more_settles<E, J>(
    outcome: Result<(), TaskError<E, J>>,
    completions: Seq<(String, Completion<E, J>)>,
    task: String,
    completion: Completion<E, J>,
)
    ensures
        drained(outcome, completions.push((task, completion))) == settled(
            drained(outcome, completions),
            task,
            completion,
        ),
{
    assert(completions.push((task, completion)).drop_last() =~= completions);
}

/// A failure that was recorded before the remaining tasks are joined is what comes out, whatever
/// those tasks leave behind.
pub proof fn law_recorded_failure_stands<E, J>(
    outcome: Result<(), TaskError<E, J>>,
    completions: Seq<(String, Completion<E, J>)>,
)
    requires
        outcome is Err,
    ensures
        drained(outcome, completions) == outcome,
    decreases completions.len(),
{
    if completions.len() > 0 {
        law_recorded_failure_stands(outcome, completions.drop_last());
    }
}

/// Where no failure was recorded before, the first task that fails during shutdown decides what
/// comes out. Later failures do not hide it.
pub proof fn law_first_failure_is_the_root_cause<E, J>(
    completions: Seq<(String, Completion<E, J>)>,
    first: int,
)
    requires
        0 <= first < completions.len(),
        shutdown_result(completions[first].0, completions[first].1) is Err,
        forall|i: int|
            0 <= i < first ==> shutdown_result(
                (#[trigger] completions[i]).0,
                completions[i].1,
            ) is Ok,
    ensures
        drained(Ok(()), completions) == shutdown_result(completions[first].0, completions[first].1),
    decreases completions.len(),
{
    let before = completions.drop_last();
    if first == completions.len() - 1 {
        assert forall|i: int| 0 <= i < before.len() implies shutdown_result(
            (#[trigger] before[i]).0,
            before[i].1,
        ) is Ok by {
            assert(before[i] == completions[i]);
        }
        law_clean_shutdown_is_no_error(before);
    } else {
        assert forall|i: int| 0 <= i < first implies shutdown_result(
            (#[trigger] before[i]).0,
            before[i].1,
        ) is Ok by {
            assert(before[i] == completions[i]);
        }
        assert(before[first] == completions[first]);
        law_first_failure_is_the_root_cause(before, first);
    }
}

/// A shutdown in which every task exits cleanly or is aborted is no error.
pub proof fn law_clean_shutdown_is_no_error<E, J>(completions: Seq<(String, Completion<E, J>)>)
    requires
        forall|i: int|
            0 <= i < completions.len() ==> shutdown_result(
                (#[trigger] completions[i]).0,
                completions[i].1,
            ) is Ok,
    ensures
        drained(Ok(()), completions) == Ok::<(), TaskError<E, J>>(()),
    decreases completions.len(),
{
    if completions.len() > 0 {
        let before = completions.drop_last();
        assert forall|i: int| 0 <= i < before.len() implies shutdown_result(
            (#[trigger] before[i]).0,
            before[i].1,
        ) is Ok by {
            assert(before[i] == completions[i]);
        }
        law_clean_shutdown_is_no_error(before);
        assert(completions.last() == completions[completions.len() - 1]);
    }
}

/// A list of the values of a map holds one value for each key: its keys can be listed, each once
/// and no others, so that every value stands where its key does.
pub proof fn law_listed_values_have_one_key_each<K, V>(map: Map<K, V>, values: Seq<V>)
    requires
        lists_values(map, values),
    ensures
        map.dom().finite(),
        values.len() == map.dom().len(),
        exists|keys: Seq<K>| #[trigger]
            keys.no_duplicates() && keys.len() == values.len() && (forall|key: K|
                keys.contains(key) <==> map.contains_key(key)) && (forall|i: int|
                0 <= i < values.len() ==> values[i] == map[#[trigger] keys[i]]),
{
    let keys = choose|keys: Seq<K>| #[trigger] lists_values_by(map, keys, values);
    keys.unique_seq_to_set();
    assert forall|key: K| keys.contains(key) <==> map.contains_key(key) by {
        assert(keys.to_set().contains(key) <==> map.dom().contains(key));
    }
    assert(keys.no_duplicates());
}

/// The runtime can report any task of the set, and that there is none left where the set is empty.
pub proof fn law_any_task_can_be_joined<M, T>(tasks: Map<TaskId, M>, id: TaskId, output: T)
    ensures
        can_join(tasks, Some((id, output))) <==> tasks.contains_key(id),
        can_join::<M, T>(tasks, None) <==> forall|other: TaskId|
            !(#[trigger] tasks.contains_key(other)),
{
    if can_join::<M, T>(tasks, None) {
        assert forall|other: TaskId| !(#[trigger] tasks.contains_key(other)) by {
            assert(!tasks.dom().contains(other));
        }
    } else {
        let other = choose|other: TaskId| tasks.dom().contains(other);
        assert(tasks.contains_key(other));
    }
}

/// Before shutdown every completion is an error, a clean one too, and the error carries the task
/// and the cause.
pub proof fn law_every_completion_before_shutdown_is_an_error<E, J>(
    task: String,
    cause: E,
    join_error: JoinError<J>,
)
    ensures
        unexpected::<E, J>(task, Ok(Ok(()))) == (TaskError::<E, J>::CompletedUnexpectedly { task }),
        unexpected::<E, J>(task, Ok(Err(cause))) == (TaskError::<E, J>::Failed { task, cause }),
        unexpected::<E, J>(task, Err(join_error)) == (TaskError::<E, J>::FailedToJoin {
            task,
            join_error,
        }),
{
}

/// During shutdown a clean exit and an abort are fine. A task that fails or panics is an error that
/// carries the task and the cause.
pub proof fn law_shutdown_accepts_clean_exits_and_aborts_only<E, J>(
    task: String,
    cause: E,
    join_error: JoinError<J>,
)
    ensures
        shutdown_result::<E, J>(task, Ok(Ok(()))) is Ok,
        shutdown_result::<E, J>(task, Ok(Err(cause))) == Err::<(), TaskError<E, J>>(
            TaskError::FailedDuringShutdown { task, cause },
        ),
        shutdown_result::<E, J>(task, Err(join_error)) is Ok <==> join_error.cancelled,
        !join_error.cancelled ==> shutdown_result::<E, J>(task, Err(join_error)) == Err::<
            (),
            TaskError<E, J>,
        >(TaskError::FailedToJoin { task, join_error }),
{
}

/// Joining a task keeps a failure that was recorded, and records the task's own result where none
/// was.
pub proof fn law_joining_keeps_the_first_failure<E, J>(
    first: TaskError<E, J>,
    task: String,
    completion: Completion<E, J>,
)
    ensures
        settled(Err(first), task, completion) == Err::<(), TaskError<E, J>>(first),
        settled(Ok(()), task, completion) == shutdown_result(task, completion),
{
}

/// An error names its task and says what became of it.
pub proof fn law_error_names_its_task<E, J>(task: String, cause: E, join_error: JoinError<J>)
    ensures
        TaskError::<E, J>::SetIsEmpty.text() == "task set is empty"@,
        (TaskError::<E, J>::CompletedUnexpectedly { task }).text() == "task "@ + task@
            + " completed unexpectedly"@,
        (TaskError::<E, J>::Failed { task, cause }).text() == "task "@ + task@ + " failed"@,
        (TaskError::<E, J>::FailedDuringShutdown { task, cause }).text() == "task "@ + task@
            + " failed during shutdown"@,
        (TaskError::<E, J>::FailedToJoin { task, join_error }).text() == "task "@ + task@
            + " failed to join"@,
{
}

/// A completion before shutdown requests the shutdown and is kept as the outcome: a clean one as
/// unexpected, and any other with its cause. The task leaves the set, and the others stay to be
/// joined.
pub proof fn law_first_completion_requests_shutdown<E, J>(
    supervision: Supervision<E, J>,
    tasks: Map<TaskId, String>,
    id: TaskId,
    completion: Completion<E, J>,
    after: Supervision<E, J>,
    left: Map<TaskId, String>,
    step: SupervisionStep<E, J>,
)
    requires
        !supervision.draining,
        supervision.moves(
            tasks,
            SupervisionEvent::Joined(Some((id, completion))),
            after,
            left,
            step,
        ),
    ensures
        step is RequestShutdown,
        after.draining,
        left == tasks.remove(id),
        completion == Ok::<Result<(), E>, JoinError<J>>(Ok(())) ==> after.outcome == Err::<
            (),
            TaskError<E, J>,
        >(TaskError::CompletedUnexpectedly { task: tasks[id] }),
        completion matches Ok(Err(cause)) ==> after.outcome == Err::<(), TaskError<E, J>>(
            TaskError::Failed { task: tasks[id], cause },
        ),
        completion matches Err(join_error) ==> after.outcome == Err::<(), TaskError<E, J>>(
            TaskError::FailedToJoin { task: tasks[id], join_error },
        ),
{
}

/// A shutdown request joins the tasks that are left and keeps what was recorded. When no task is
/// left, what was recorded is returned; without a shutdown an empty set is an error. The result is
/// returned only then.
pub proof fn law_result_is_returned_when_no_task_is_left<E, J>(
    supervision: Supervision<E, J>,
    tasks: Map<TaskId, String>,
    event: SupervisionEvent<E, J>,
    after: Supervision<E, J>,
    left: Map<TaskId, String>,
    step: SupervisionStep<E, J>,
)
    requires
        supervision.moves(tasks, event, after, left, step),
    ensures
        event is Cancelled ==> step is JoinNext && after.draining && after.outcome
            == supervision.outcome && left == tasks,
        step is Finish <==> event == SupervisionEvent::<E, J>::Joined(None),
        step is Finish && supervision.draining ==> step == SupervisionStep::Finish(
            supervision.outcome,
        ),
        step is Finish && !supervision.draining ==> step == SupervisionStep::<E, J>::Finish(
            Err(TaskError::SetIsEmpty),
        ),
        step is Finish ==> forall|id: TaskId| !(#[trigger] left.contains_key(id)),
{
    if step is Finish {
        assert forall|id: TaskId| !(#[trigger] left.contains_key(id)) by {
            assert(!left.dom().contains(id));
        }
    }
}

/// While the tasks are joined a clean exit or an abort changes nothing. A failure is kept where it
/// is the first, and only reported where it is not, and the joining goes on in every case.
pub proof fn law_later_failures_are_only_reported<E, J>(
    supervision: Supervision<E, J>,
    tasks: Map<TaskId, String>,
    id: TaskId,
    completion: Completion<E, J>,
    after: Supervision<E, J>,
    left: Map<TaskId, String>,
    step: SupervisionStep<E, J>,
)
    requires
        supervision.draining,
        supervision.moves(
            tasks,
            SupervisionEvent::Joined(Some((id, completion))),
            after,
            left,
            step,
        ),
    ensures
        left == tasks.remove(id),
        after.draining,
        supervision.outcome is Err ==> after.outcome == supervision.outcome,
        match completion {
            Ok(Ok(())) => (after.outcome is Ok <==> supervision.outcome is Ok) && step is JoinNext,
            Ok(Err(cause)) => {
                let failure = TaskError::FailedDuringShutdown { task: tasks[id], cause };
                if supervision.outcome is Ok {
                    after.outcome == Err::<(), TaskError<E, J>>(failure) && step is JoinNext
                } else {
                    step == SupervisionStep::Report(failure)
                }
            },
            Err(join_error) => {
                let failure = TaskError::FailedToJoin { task: tasks[id], join_error };
                if join_error.cancelled {
                    (after.outcome is Ok <==> supervision.outcome is Ok) && step is JoinNext
                } else if supervision.outcome is Ok {
                    after.outcome == Err::<(), TaskError<E, J>>(failure) && step is JoinNext
                } else {
                    step == SupervisionStep::Report(failure)
                }
            },
        },
{
}

/// However many tasks are joined during a shutdown, what is recorded at the end is what joining
/// them in turn comes to.
pub proof fn law_joined_tasks_are_settled_in_turn<E, J>(
    states: Seq<Supervision<E, J>>,
    sets: Seq<Map<TaskId, String>>,
    joined: Seq<(TaskId, Completion<E, J>)>,
    steps: Seq<SupervisionStep<E, J>>,
)
    requires
        states.len() == joined.len() + 1,
        sets.len() == states.len(),
        steps.len() == joined.len(),
        states[0].draining,
        forall|i: int|
            0 <= i < joined.len() ==> (#[trigger] states[i]).moves(
                sets[i],
                SupervisionEvent::Joined(Some(joined[i])),
                states[i + 1],
                sets[i + 1],
                steps[i],
            ),
    ensures
        states.last().draining,
        states.last().outcome == drained(
            states[0].outcome,
            Seq::new(joined.len(), |i: int| (sets[i][joined[i].0], joined[i].1)),
        ),
    decreases joined.len(),
{
    let completions = Seq::new(joined.len(), |i: int| (sets[i][joined[i].0], joined[i].1));
    if joined.len() > 0 {
        let n = joined.len() - 1;
        assert forall|i: int| 0 <= i < n implies (#[trigger] states.drop_last()[i]).moves(
            sets.drop_last()[i],
            SupervisionEvent::Joined(Some(joined.drop_last()[i])),
            states.drop_last()[i + 1],
            sets.drop_last()[i + 1],
            steps.drop_last()[i],
        ) by {
            assert(states.drop_last()[i] == states[i]);
        }
        law_joined_tasks_are_settled_in_turn(
            states.drop_last(),
            sets.drop_last(),
            joined.drop_last(),
            steps.drop_last(),
        );
        assert(completions.drop_last() =~= Seq::new(
            n as nat,
            |i: int| (sets.drop_last()[i][joined.drop_last()[i].0], joined.drop_last()[i].1),
        ));
        assert(states[n].moves(
            sets[n],
            SupervisionEvent::Joined(Some(joined[n])),
            states[n + 1],
            sets[n + 1],
            steps[n],
        ));
        assert(completions.last() == (sets[n][joined[n].0], joined[n].1));
    }
}

} // verus!
