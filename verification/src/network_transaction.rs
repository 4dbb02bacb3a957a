//! One network transaction built for one network account.
//!
//! Loading the account, selecting its notes, and executing, proving and submitting a candidate
//! happen outside. This module decides what follows each of these steps, and what a build reports
//! at the end.

use std::sync::Arc;
use std::time::Duration;

use vstd::prelude::*;

use crate::candidate::{
    attribute_failed_notes, candidate_note_ids, charge_all, charges, charges_to_all,
    feature_nullifiers, features_among, law_oversized_notes_are_charged_or_discarded,
    nullifiers_of, oversized_nullifiers,
    partition_sponsorships, sponsored_features, sponsorships_among, FailedNote, NoteError,
    NtxError, NtxExecutionResult, Selection, TransactionCandidate,
};
use crate::chain_state::ChainState;
use crate::pairs::WordMap;
use crate::word::{AccountId, BlockNumber, NoteId, Nullifier, TransactionId, Word};

verus! {

// NETWORK TRANSACTION CONTEXT
// ================================================================================================

/// The types of what surrounds the library. It carries values of them and never looks into them.
pub trait Services {
    /// Client that loads account state.
    type Rpc;

    /// Client that proves transactions remotely.
    type Prover;

    /// Handle to read the database.
    type Db;

    /// Cache of note scripts.
    type ScriptCache;

    /// Arguments of a transaction.
    type TxArgs;

    /// A note script.
    type Script;

    /// A note in the effects of a block.
    type Note;

    /// An account update in the effects of a block.
    type AccountUpdate;

    /// Why an operation failed.
    type Error;

    /// Why a task has no output.
    type JoinError;
}

/// Clients with which a build reaches the services of the node.
pub struct GrpcClients<X: Services> {
    /// Client that loads account state.
    pub rpc: X::Rpc,
    /// Client that proves transactions remotely.
    pub prover: X::Prover,
}

/// Configuration of one network transaction.
#[derive(Clone, Copy, Debug)]
pub struct NetworkTransactionConfig {
    /// Most notes in a transaction, at least one. Sponsorship notes count too.
    pub max_notes_per_tx: usize,
    /// Most attempts to execute a note before it is dropped.
    pub max_note_attempts: usize,
    /// Most cycles that the execution of a network transaction may take.
    pub max_cycles: u32,
    /// First sleep between retries of a request. It doubles with each retry.
    pub request_backoff_initial: Duration,
    /// Longest sleep between retries of a request.
    pub request_backoff_max: Duration,
}

impl NetworkTransactionConfig {
    /// A transaction holds at least one note.
    pub open spec fn valid(&self) -> bool {
        self.max_notes_per_tx > 0
    }

    /// Whether a transaction holds at least one note.
    pub fn is_valid(&self) -> (valid: bool)
        ensures
            valid == self.valid(),
    {
        self.max_notes_per_tx > 0
    }
}

/// Resources that every build shares.
pub struct NetworkTransactionContext<X: Services> {
    /// Clients of the services of the node.
    pub clients: GrpcClients<X>,
    /// Handle to read the database. A build performs no writes.
    pub db: X::Db,
    /// Cache of note scripts.
    pub script_cache: X::ScriptCache,
    /// Arguments of every network transaction.
    pub tx_args: X::TxArgs,
    /// Configuration of one network transaction.
    pub config: NetworkTransactionConfig,
}

// NETWORK TRANSACTION OUTCOME
// ================================================================================================

/// What a build found out about notes. All of it is persisted, however the build ended.
#[derive(Debug)]
pub struct NoteUpdates<E, S> {
    /// Notes that lose an attempt, each under the nullifier that the failure is recorded under.
    pub failed: Vec<(Nullifier, NoteError<E>)>,
    /// Notes that can never be consumed.
    pub discarded: Vec<Nullifier>,
    /// Blocks from which notes are eligible, where the stored block is too early.
    pub eligibility: Vec<(Nullifier, BlockNumber)>,
    /// Note scripts to keep in the local cache.
    pub scripts: Vec<(Word, S)>,
}

/// The contents of [`NoteUpdates`].
#[verifier::ext_equal]
pub struct NoteUpdatesView<E, S> {
    pub failed: Seq<(Nullifier, NoteError<E>)>,
    pub discarded: Seq<Nullifier>,
    pub eligibility: Seq<(Nullifier, BlockNumber)>,
    pub scripts: Seq<(Word, S)>,
}

impl<E, S> View for NoteUpdates<E, S> {
    type V = NoteUpdatesView<E, S>;

    open spec fn view(&self) -> NoteUpdatesView<E, S> {
        NoteUpdatesView {
            failed: self.failed@,
            discarded: self.discarded@,
            eligibility: self.eligibility@,
            scripts: self.scripts@,
        }
    }
}

impl<E, S> NoteUpdatesView<E, S> {
    /// Nothing to persist.
    pub open spec fn none() -> NoteUpdatesView<E, S> {
        NoteUpdatesView {
            failed: Seq::empty(),
            discarded: Seq::empty(),
            eligibility: Seq::empty(),
            scripts: Seq::empty(),
        }
    }
}

impl<E, S> Default for NoteUpdates<E, S> {
    fn default() -> (notes: Self)
        ensures
            notes@ == NoteUpdatesView::<E, S>::none(),
    {
        NoteUpdates {
            failed: Vec::new(),
            discarded: Vec::new(),
            eligibility: Vec::new(),
            scripts: Vec::new(),
        }
    }
}

/// How a build ended.
#[derive(Debug)]
pub enum NetworkTransactionResult<E> {
    /// A transaction was proven and submitted. The account is in flight until the transaction
    /// commits or expires.
    Submitted { tx_id: TransactionId },
    /// There was nothing to execute.
    NoWork,
    /// The candidate failed for a reason that is charged to its notes.
    Failed,
    /// The account or its notes could not be read. No note is charged.
    Aborted(BuildError<E>),
}

/// Why a build could not run.
#[derive(Debug)]
pub enum BuildError<E> {
    /// The committed state of the account could not be loaded.
    AccountNotLoaded(E),
    /// No notes could be selected.
    NotSelected(E),
}

impl<E> BuildError<E> {
    /// The text of the error, where it has one beside its cause.
    pub open spec fn text(self) -> Option<Seq<char>> {
        match self {
            BuildError::AccountNotLoaded(_) => Some("failed to load committed account"@),
            BuildError::NotSelected(_) => None,
        }
    }

    /// Returns the text of the error, where it has one beside its cause.
    pub fn message(&self) -> (message: Option<String>)
        ensures
            match message {
                Some(message) => self.text() == Some(message@),
                None => self.text() is None,
            },
    {
        match self {
            BuildError::AccountNotLoaded(_) => Some("failed to load committed account".to_owned()),
            BuildError::NotSelected(_) => None,
        }
    }
}

/// What a build did, and what has to be persisted for it.
#[derive(Debug)]
pub struct NetworkTransactionOutcome<E, S> {
    /// The account that the build ran against.
    pub account_id: AccountId,
    /// Reference block of the build.
    pub block_num: BlockNumber,
    /// What to persist about notes.
    pub notes: NoteUpdates<E, S>,
    /// How the build ended.
    pub result: NetworkTransactionResult<E>,
}

// NETWORK TRANSACTION BUILD
// ================================================================================================

/// A build in progress.
#[derive(Clone, Copy, Debug, PartialEq, Eq, Structural)]
pub struct Build {
    /// The account that the build runs against.
    pub account_id: AccountId,
    /// Reference block of the build.
    pub block_num: BlockNumber,
}

/// What a build has to wait for before it executes a candidate.
#[derive(Debug)]
pub enum BuildEvent<N, T, E> {
    /// The committed state of the account was looked up.
    AccountLoaded(Result<Option<N>, E>),
    /// Notes of the account were selected.
    Selected(Result<Selection<E, T>, E>),
}

/// What a build does next.
pub enum BuildStep<N, T, E, S> {
    /// Select notes of the account.
    Select { account: N, max_notes_per_tx: usize, max_note_attempts: usize },
    /// Execute, prove and submit the candidate. `note_ids` names its notes for the record.
    Execute { execution: Execution<E, S>, candidate: TransactionCandidate<T>, note_ids: Vec<NoteId> },
    /// Report the outcome.
    Finish(NetworkTransactionOutcome<E, S>),
}

/// What a build keeps while its candidate is executed.
pub struct Execution<E, S> {
    pub build: Build,
    /// What selection found out about notes.
    pub notes: NoteUpdates<E, S>,
    /// The feature that each sponsorship note of the candidate pays for.
    pub sponsor_to_feature: WordMap,
    /// The nullifiers of the features of the candidate.
    pub feature_nullifiers: Vec<Nullifier>,
}

impl<E, S> Execution<E, S> {
    /// The bookkeeping belongs to the given build and candidate.
    pub open spec fn tracks<T>(
        self,
        build: Build,
        selection: Selection<E, T>,
        candidate: TransactionCandidate<T>,
    ) -> bool {
        &&& self.build == build
        &&& self.notes@ == selected_notes::<E, S, T>(selection)
        &&& self.sponsor_to_feature@ == sponsored_features(candidate.notes@)
        &&& self.feature_nullifiers@ == feature_nullifiers(candidate.notes@)
    }

    /// What a build has to persist once its candidate was executed.
    ///
    /// Notes that failed are charged, and so are sponsorship notes that are too large, whose
    /// failure goes to the feature. A feature that is too large can never be consumed. Where the
    /// transaction as a whole failed all features are charged. Deferred notes are not charged.
    pub open spec fn updates_after(
        self,
        executed: Result<NtxExecutionResult<E, S>, NtxError<E>>,
    ) -> NoteUpdatesView<E, S> {
        let features = self.sponsor_to_feature@;
        match executed {
            Ok(executed) => NoteUpdatesView {
                failed: self.notes@.failed + charges(
                    executed.failed_notes@ + sponsorships_among(executed.oversized_notes@, features),
                    features,
                ),
                discarded: nullifiers_of(features_among(executed.oversized_notes@, features)),
                eligibility: self.notes@.eligibility,
                scripts: executed.fetched_scripts@,
            },
            Err(NtxError::AllNotesFailed(per_note)) => NoteUpdatesView {
                failed: self.notes@.failed + charges(per_note@, features),
                ..self.notes@
            },
            Err(NtxError::Other(error)) => NoteUpdatesView {
                failed: self.notes@.failed + charges_to_all(
                    self.feature_nullifiers@,
                    Arc::new(error),
                ),
                ..self.notes@
            },
        }
    }
}

impl<E, S> Execution<E, S> {
    /// How a build ends once its candidate was executed.
    pub open spec fn ends(
        self,
        executed: Result<NtxExecutionResult<E, S>, NtxError<E>>,
        outcome: NetworkTransactionOutcome<E, S>,
    ) -> bool {
        &&& outcome.belongs_to(self.build)
        &&& outcome.notes@ == self.updates_after(executed)
        &&& outcome.result == match executed {
            Ok(executed) => NetworkTransactionResult::<E>::Submitted { tx_id: executed.tx_id },
            Err(_) => NetworkTransactionResult::<E>::Failed,
        }
    }
}

/// What a build has to persist after selection.
pub open spec fn selected_notes<E, S, T>(selection: Selection<E, T>) -> NoteUpdatesView<E, S> {
    NoteUpdatesView {
        failed: selection.rejected@,
        discarded: Seq::empty(),
        eligibility: selection.stale_eligibility@,
        scripts: Seq::empty(),
    }
}

impl<E, S> NetworkTransactionOutcome<E, S> {
    /// The outcome belongs to the given build.
    pub open spec fn belongs_to(self, build: Build) -> bool {
        &&& self.account_id == build.account_id
        &&& self.block_num == build.block_num
    }
}

impl<X: Services> NetworkTransactionContext<X> {
    /// The step that follows an event of a build.
    pub open spec fn moves<N, T, E, S>(
        &self,
        build: Build,
        event: BuildEvent<N, T, E>,
        step: BuildStep<N, T, E, S>,
    ) -> bool {
        match event {
            BuildEvent::AccountLoaded(Ok(Some(loaded))) => {
                &&& step matches BuildStep::Select { account, max_notes_per_tx, max_note_attempts }
                &&& account == loaded
                &&& max_notes_per_tx == self.config.max_notes_per_tx
                &&& max_note_attempts == self.config.max_note_attempts
            },
            BuildEvent::AccountLoaded(Ok(None)) => {
                &&& step matches BuildStep::Finish(outcome)
                &&& outcome.belongs_to(build)
                &&& outcome.notes@ == NoteUpdatesView::<E, S>::none()
                &&& outcome.result is NoWork
            },
            BuildEvent::AccountLoaded(Err(error)) => aborted_with(
                step,
                build,
                BuildError::AccountNotLoaded(error),
            ),
            BuildEvent::Selected(Ok(selection)) => match selection.candidate {
                Some(selected) => {
                    &&& step matches BuildStep::Execute { execution, candidate, note_ids }
                    &&& execution.tracks(build, selection, selected)
                    &&& candidate == selected
                    &&& note_ids@ == candidate_note_ids(selected.notes@)
                },
                None => {
                    &&& step matches BuildStep::Finish(outcome)
                    &&& outcome.belongs_to(build)
                    &&& outcome.notes@ == selected_notes::<E, S, T>(selection)
                    &&& outcome.result is NoWork
                },
            },
            BuildEvent::Selected(Err(error)) => aborted_with(
                step,
                build,
                BuildError::NotSelected(error),
            ),
        }
    }

    /// Starts to build one network transaction for an account, on top of the tip of `chain`. The
    /// first thing to do is to load the account.
    pub fn build(&self, account_id: AccountId, chain: &ChainState) -> (build: Build)
        ensures
            build == (Build { account_id, block_num: chain@.tip.block_num }),
    {
        Build { account_id, block_num: chain.chain_tip_header.block_num() }
    }

    /// Decides what follows an event of a build.
    ///
    /// An error here cannot be charged to a note, so it aborts the build and leaves the notes
    /// alone. An account without committed state, or without notes to execute, is no work.
    pub fn try_build<N, T, E, S>(&self, build: Build, event: BuildEvent<N, T, E>) -> (step:
        BuildStep<N, T, E, S>)
        ensures
            event matches BuildEvent::AccountLoaded(Ok(Some(loaded))) ==> step == (
            BuildStep::<N, T, E, S>::Select {
                account: loaded,
                max_notes_per_tx: self.config.max_notes_per_tx,
                max_note_attempts: self.config.max_note_attempts,
            }),
            event matches BuildEvent::AccountLoaded(Ok(None)) ==> {
                &&& step matches BuildStep::Finish(outcome)
                &&& outcome.belongs_to(build)
                &&& outcome.notes@ == NoteUpdatesView::<E, S>::none()
                &&& outcome.result is NoWork
            },
            event matches BuildEvent::Selected(Ok(selection)) ==> match selection.candidate {
                Some(selected) => {
                    &&& step matches BuildStep::Execute { execution, candidate, note_ids }
                    &&& execution.tracks(build, selection, selected)
                    &&& candidate == selected
                    &&& note_ids@ == candidate_note_ids(selected.notes@)
                },
                None => {
                    &&& step matches BuildStep::Finish(outcome)
                    &&& outcome.belongs_to(build)
                    &&& outcome.notes@ == selected_notes::<E, S, T>(selection)
                    &&& outcome.result is NoWork
                },
            },
            (event matches BuildEvent::AccountLoaded(Err(error)) ==> aborted_with(
                step,
                build,
                BuildError::AccountNotLoaded(error),
            )),
            (event matches BuildEvent::Selected(Err(error)) ==> aborted_with(
                step,
                build,
                BuildError::NotSelected(error),
            )),
            self.moves(build, event, step),
    {
        match event {
            BuildEvent::AccountLoaded(Ok(Some(account))) => BuildStep::Select {
                account,
                max_notes_per_tx: self.config.max_notes_per_tx,
                max_note_attempts: self.config.max_note_attempts,
            },
            BuildEvent::AccountLoaded(Ok(None)) => BuildStep::Finish(
                NetworkTransactionOutcome {
                    account_id: build.account_id,
                    block_num: build.block_num,
                    notes: NoteUpdates::default(),
                    result: NetworkTransactionResult::NoWork,
                },
            ),
            BuildEvent::Selected(Ok(selection)) => {
                let Selection { candidate, rejected, stale_eligibility } = selection;
                let notes = NoteUpdates {
                    failed: rejected,
                    discarded: Vec::new(),
                    eligibility: stale_eligibility,
                    scripts: Vec::new(),
                };
                match candidate {
                    Some(candidate) => {
                        let execution = Execution {
                            build,
                            notes,
                            sponsor_to_feature: candidate.sponsor_to_feature_nullifier(),
                            feature_nullifiers: candidate.feature_nullifiers(),
                        };
                        let note_ids = candidate.note_ids();
                        BuildStep::Execute { execution, candidate, note_ids }
                    },
                    None => BuildStep::Finish(
                        NetworkTransactionOutcome {
                            account_id: build.account_id,
                            block_num: build.block_num,
                            notes,
                            result: NetworkTransactionResult::NoWork,
                        },
                    ),
                }
            },
            BuildEvent::AccountLoaded(Err(error)) => abort(
                build,
                BuildError::AccountNotLoaded(error),
            ),
            BuildEvent::Selected(Err(error)) => abort(build, BuildError::NotSelected(error)),
        }
    }
}

/// The build ends without having touched a note.
pub open spec fn aborted_with<N, T, E, S>(
    step: BuildStep<N, T, E, S>,
    build: Build,
    error: BuildError<E>,
) -> bool {
    &&& step matches BuildStep::Finish(outcome)
    &&& outcome.belongs_to(build)
    &&& outcome.notes@ == NoteUpdatesView::<E, S>::none()
    &&& outcome.result == NetworkTransactionResult::Aborted(error)
}

/// Ends a build without touching a note.
fn abort<N, T, E, S>(build: Build, error: BuildError<E>) -> (step: BuildStep<N, T, E, S>)
    ensures
        aborted_with(step, build, error),
{
    BuildStep::Finish(
        NetworkTransactionOutcome {
            account_id: build.account_id,
            block_num: build.block_num,
            notes: NoteUpdates::default(),
            result: NetworkTransactionResult::Aborted(error),
        },
    )
}

impl<E, S> Execution<E, S> {
    /// Records what the execution of the candidate left behind, and ends the build.
    pub fn execute_candidate(
        self,
        executed: Result<NtxExecutionResult<E, S>, NtxError<E>>,
    ) -> (outcome: NetworkTransactionOutcome<E, S>)
        ensures
            outcome.belongs_to(self.build),
            outcome.notes@ == self.updates_after(executed),
            outcome.result == match executed {
                Ok(executed) => NetworkTransactionResult::<E>::Submitted { tx_id: executed.tx_id },
                Err(_) => NetworkTransactionResult::<E>::Failed,
            },
            self.ends(executed, outcome),
    {
        let Execution { build, mut notes, sponsor_to_feature, feature_nullifiers } = self;
        let result = match executed {
            Ok(executed) => {
                let (mut oversized_sponsorships, oversized_features) = partition_sponsorships(
                    executed.oversized_notes,
                    &sponsor_to_feature,
                );
                let mut to_penalize = executed.failed_notes;
                to_penalize.append(&mut oversized_sponsorships);
                let mut failed = attribute_failed_notes(to_penalize, &sponsor_to_feature);
                notes.failed.append(&mut failed);
                notes.discarded = oversized_nullifiers(&oversized_features);
                notes.scripts = executed.fetched_scripts;
                NetworkTransactionResult::Submitted { tx_id: executed.tx_id }
            },
            Err(NtxError::AllNotesFailed(per_note)) => {
                let mut failed = attribute_failed_notes(per_note, &sponsor_to_feature);
                notes.failed.append(&mut failed);
                NetworkTransactionResult::Failed
            },
            Err(NtxError::Other(error)) => {
                let mut failed = charge_all(&feature_nullifiers, Arc::new(error));
                notes.failed.append(&mut failed);
                NetworkTransactionResult::Failed
            },
        };
        NetworkTransactionOutcome {
            account_id: build.account_id,
            block_num: build.block_num,
            notes,
            result,
        }
    }
}

// LAWS
// ================================================================================================

/// What selection found out about notes is persisted however the execution ends: the failures it
/// reported come first, and the eligibility corrections stay as they are.
pub proof fn law_selection_findings_survive_execution<E, S>(
    execution: Execution<E, S>,
    executed: Result<NtxExecutionResult<E, S>, NtxError<E>>,
)
    ensures
        execution.notes@.failed.is_prefix_of(execution.updates_after(executed).failed),
        execution.updates_after(executed).eligibility == execution.notes@.eligibility,
{
}

/// A note that was deferred is not charged for it: the deferred notes do not change what is
/// persisted.
pub proof fn law_deferred_notes_are_not_charged<E, S>(
    execution: Execution<E, S>,
    executed: NtxExecutionResult<E, S>,
    deferred: Vec<FailedNote<E>>,
)
    ensures
        execution.updates_after(Ok(executed)) == execution.updates_after(
            Ok(NtxExecutionResult { deferred_notes: deferred, ..executed }),
        ),
{
}

/// Where the transaction as a whole fails, every feature of the candidate is charged once, in
/// order, and nothing else is.
pub proof fn law_failed_transaction_charges_every_feature<E, S, T>(
    execution: Execution<E, S>,
    build: Build,
    selection: Selection<E, T>,
    candidate: TransactionCandidate<T>,
    error: E,
)
    requires
        execution.tracks(build, selection, candidate),
    ensures
        ({
            let failed = execution.updates_after(Err(NtxError::Other(error))).failed;
            &&& failed.len() == selection.rejected@.len() + candidate.notes@.len()
            &&& forall|i: int|
                0 <= i < candidate.notes@.len() ==> failed[selection.rejected@.len() + i] == (
                    (#[trigger] candidate.notes@[i]).feature.nullifier,
                    Arc::new(error),
                )
        }),
{
}

/// After a submitted transaction, every note that is too large is dealt with, whatever else failed:
/// one that sponsors nothing is discarded, and one that sponsors a feature is charged to it.
/// Nothing is discarded but such notes.
pub proof fn law_submitted_transaction_deals_with_every_oversized_note<E, S>(
    execution: Execution<E, S>,
    executed: NtxExecutionResult<E, S>,
    note: FailedNote<E>,
    nullifier: Nullifier,
)
    ensures
        ({
            let features = execution.sponsor_to_feature@;
            let updates = execution.updates_after(Ok(executed));
            &&& executed.oversized_notes@.contains(note) && !features.contains_key(note.id)
                ==> updates.discarded.contains(note.nullifier)
            &&& executed.oversized_notes@.contains(note) && features.contains_key(note.id)
                ==> updates.failed.contains((features[note.id], note.error))
            &&& updates.discarded.contains(nullifier) ==> exists|i: int|
                0 <= i < executed.oversized_notes@.len() && (
                #[trigger] executed.oversized_notes@[i]).nullifier == nullifier
                    && !features.contains_key(executed.oversized_notes@[i].id)
        }),
{
    let features = execution.sponsor_to_feature@;
    let updates = execution.updates_after(Ok(executed));
    let oversized = executed.oversized_notes@;
    let sponsors = sponsorships_among(oversized, features);
    let others = features_among(oversized, features);
    law_oversized_notes_are_charged_or_discarded(oversized, features, note);
    if oversized.contains(note) && !features.contains_key(note.id) {
        let i = choose|i: int| 0 <= i < others.len() && others[i] == note;
        assert(updates.discarded[i] == note.nullifier);
    }
    if oversized.contains(note) && features.contains_key(note.id) {
        let i = choose|i: int| 0 <= i < sponsors.len() && sponsors[i] == note;
        let place = execution.notes@.failed.len() + executed.failed_notes@.len() + i;
        assert((executed.failed_notes@ + sponsors)[executed.failed_notes@.len() + i] == note);
        assert(updates.failed[place] == (features[note.id], note.error));
    }
    if updates.discarded.contains(nullifier) {
        let i = choose|i: int| 0 <= i < updates.discarded.len() && updates.discarded[i]
            == nullifier;
        let found = others[i];
        assert(others.contains(found));
        law_oversized_notes_are_charged_or_discarded(oversized, features, found);
        let j = choose|j: int| 0 <= j < oversized.len() && oversized[j] == found;
        assert(oversized[j].nullifier == nullifier);
    }
}

/// One oversized note more is one discard or one charge more, at the end of the list, and changes
/// nothing else.
pub proof fn law_one_oversized_note_more<E, S>(
    execution: Execution<E, S>,
    executed: NtxExecutionResult<E, S>,
    more: NtxExecutionResult<E, S>,
    note: FailedNote<E>,
)
    requires
        more.failed_notes == executed.failed_notes,
        more.fetched_scripts == executed.fetched_scripts,
        more.oversized_notes@ == executed.oversized_notes@.push(note),
    ensures
        ({
            let features = execution.sponsor_to_feature@;
            let before = execution.updates_after(Ok(executed));
            let after = execution.updates_after(Ok(more));
            &&& features.contains_key(note.id) ==> after.failed == before.failed.push(
                (features[note.id], note.error),
            ) && after.discarded == before.discarded
            &&& !features.contains_key(note.id) ==> after.failed == before.failed
                && after.discarded == before.discarded.push(note.nullifier)
            &&& after.eligibility == before.eligibility
            &&& after.scripts == before.scripts
        }),
{
    reveal(Seq::filter);
    let features = execution.sponsor_to_feature@;
    let before = execution.updates_after(Ok(executed));
    let after = execution.updates_after(Ok(more));
    assert(more.oversized_notes@.drop_last() =~= executed.oversized_notes@);
    if features.contains_key(note.id) {
        assert(after.failed =~= before.failed.push((features[note.id], note.error)));
    } else {
        assert(after.discarded =~= before.discarded.push(note.nullifier));
    }
}

/// A submitted transaction without oversized notes discards nothing, charges every note that
/// failed, after what selection found, and keeps the scripts it fetched.
pub proof fn law_submitted_transaction_charges_what_failed<E, S>(
    execution: Execution<E, S>,
    executed: NtxExecutionResult<E, S>,
    i: int,
)
    ensures
        ({
            let features = execution.sponsor_to_feature@;
            let found = execution.notes@.failed;
            let updates = execution.updates_after(Ok(executed));
            &&& updates.scripts == executed.fetched_scripts@
            &&& updates.eligibility == execution.notes@.eligibility
            &&& 0 <= i < found.len() ==> updates.failed[i] == found[i]
            &&& 0 <= i < executed.failed_notes@.len() ==> {
                let note = executed.failed_notes@[i];
                &&& updates.failed[found.len() + i].1 == note.error
                &&& features.contains_key(note.id) ==> updates.failed[found.len() + i].0
                    == features[note.id]
                &&& !features.contains_key(note.id) ==> updates.failed[found.len() + i].0
                    == note.nullifier
            }
            &&& executed.oversized_notes@.len() == 0 ==> {
                &&& updates.discarded.len() == 0
                &&& updates.failed.len() == found.len() + executed.failed_notes@.len()
            }
        }),
{
    let features = execution.sponsor_to_feature@;
    reveal(Seq::filter);
    if 0 <= i < executed.failed_notes@.len() {
        let charged = executed.failed_notes@ + sponsorships_among(
            executed.oversized_notes@,
            features,
        );
        assert(charged[i] == executed.failed_notes@[i]);
    }
}

/// Where every note failed, each is charged once for its own reason, after what selection found,
/// and nothing is discarded or kept.
pub proof fn law_notes_that_all_failed_are_charged<E, S>(
    execution: Execution<E, S>,
    per_note: Vec<FailedNote<E>>,
    i: int,
)
    ensures
        ({
            let features = execution.sponsor_to_feature@;
            let found = execution.notes@.failed;
            let updates = execution.updates_after(Err(NtxError::AllNotesFailed(per_note)));
            &&& updates.failed.len() == found.len() + per_note@.len()
            &&& 0 <= i < found.len() ==> updates.failed[i] == found[i]
            &&& 0 <= i < per_note@.len() ==> {
                let note = per_note@[i];
                &&& updates.failed[found.len() + i].1 == note.error
                &&& features.contains_key(note.id) ==> updates.failed[found.len() + i].0
                    == features[note.id]
                &&& !features.contains_key(note.id) ==> updates.failed[found.len() + i].0
                    == note.nullifier
            }
            &&& updates.discarded == execution.notes@.discarded
            &&& updates.eligibility == execution.notes@.eligibility
            &&& updates.scripts == execution.notes@.scripts
        }),
{
}

/// Where the transaction as a whole failed, each of the nullifiers kept for it is charged once for
/// that reason, after what selection found, and nothing is discarded or kept.
pub proof fn law_failed_transaction_charges_the_kept_nullifiers<E, S>(
    execution: Execution<E, S>,
    error: E,
    i: int,
)
    ensures
        ({
            let found = execution.notes@.failed;
            let updates = execution.updates_after(Err(NtxError::Other(error)));
            &&& updates.failed.len() == found.len() + execution.feature_nullifiers@.len()
            &&& 0 <= i < found.len() ==> updates.failed[i] == found[i]
            &&& 0 <= i < execution.feature_nullifiers@.len() ==> updates.failed[found.len() + i]
                == (execution.feature_nullifiers@[i], Arc::new(error))
            &&& updates.discarded == execution.notes@.discarded
            &&& updates.eligibility == execution.notes@.eligibility
            &&& updates.scripts == execution.notes@.scripts
        }),
{
}

/// An execution starts from what selection found, with nothing discarded and no script kept, under
/// the account and the block of its build, and with the sponsors and the features of its candidate.
pub proof fn law_execution_starts_from_selection<E, S, T>(
    execution: Execution<E, S>,
    build: Build,
    selection: Selection<E, T>,
    candidate: TransactionCandidate<T>,
)
    ensures
        execution.tracks(build, selection, candidate) <==> {
            &&& execution.build.account_id == build.account_id
            &&& execution.build.block_num == build.block_num
            &&& execution.notes.failed@ == selection.rejected@
            &&& execution.notes.eligibility@ == selection.stale_eligibility@
            &&& execution.notes.discarded@.len() == 0
            &&& execution.notes.scripts@.len() == 0
            &&& execution.sponsor_to_feature@ == sponsored_features(candidate.notes@)
            &&& execution.feature_nullifiers@ == feature_nullifiers(candidate.notes@)
        },
{
    if execution.notes.discarded@.len() == 0 {
        assert(execution.notes.discarded@ =~= Seq::empty());
    }
    if execution.notes.scripts@.len() == 0 {
        assert(execution.notes.scripts@ =~= Seq::empty());
    }
}

/// An aborted build ends under its account and its block with the error, and with all four lists of
/// notes empty.
pub proof fn law_aborted_build_touches_no_note<N, T, E, S>(
    step: BuildStep<N, T, E, S>,
    build: Build,
    error: BuildError<E>,
)
    ensures
        aborted_with(step, build, error) <==> {
            &&& step matches BuildStep::Finish(outcome)
            &&& outcome.account_id == build.account_id
            &&& outcome.block_num == build.block_num
            &&& outcome.notes.failed@.len() == 0
            &&& outcome.notes.discarded@.len() == 0
            &&& outcome.notes.eligibility@.len() == 0
            &&& outcome.notes.scripts@.len() == 0
            &&& outcome.result matches NetworkTransactionResult::Aborted(cause)
            &&& cause == error
        },
{
    if let BuildStep::Finish(outcome) = step {
        if outcome.notes.failed@.len() == 0 {
            assert(outcome.notes.failed@ =~= Seq::empty());
        }
        if outcome.notes.discarded@.len() == 0 {
            assert(outcome.notes.discarded@ =~= Seq::empty());
        }
        if outcome.notes.eligibility@.len() == 0 {
            assert(outcome.notes.eligibility@ =~= Seq::empty());
        }
        if outcome.notes.scripts@.len() == 0 {
            assert(outcome.notes.scripts@ =~= Seq::empty());
        }
    }
}

/// What there is to persist about notes is what the four lists hold. After selection these are the
/// rejected notes and the corrected ones, and where there is nothing to persist all four are empty.
pub proof fn law_updates_show_their_lists<E, S, T>(
    notes: NoteUpdates<E, S>,
    selection: Selection<E, T>,
)
    ensures
        notes@.failed == notes.failed@,
        notes@.discarded == notes.discarded@,
        notes@.eligibility == notes.eligibility@,
        notes@.scripts == notes.scripts@,
        selected_notes::<E, S, T>(selection).failed == selection.rejected@,
        selected_notes::<E, S, T>(selection).eligibility == selection.stale_eligibility@,
        selected_notes::<E, S, T>(selection).discarded.len() == 0,
        selected_notes::<E, S, T>(selection).scripts.len() == 0,
        NoteUpdatesView::<E, S>::none().failed.len() == 0,
        NoteUpdatesView::<E, S>::none().discarded.len() == 0,
        NoteUpdatesView::<E, S>::none().eligibility.len() == 0,
        NoteUpdatesView::<E, S>::none().scripts.len() == 0,
{
}

/// An outcome belongs to a build exactly where it carries the account and the block of the build.
pub proof fn law_outcome_carries_its_build<E, S>(
    outcome: NetworkTransactionOutcome<E, S>,
    build: Build,
)
    ensures
        outcome.belongs_to(build) <==> outcome.account_id == build.account_id && outcome.block_num
            == build.block_num,
{
}

/// Only an account that could not be loaded adds a text to its cause. A transaction holds at least
/// one note.
pub proof fn law_build_errors_and_limits<E>(cause: E, config: NetworkTransactionConfig)
    ensures
        BuildError::AccountNotLoaded(cause).text() == Some("failed to load committed account"@),
        BuildError::NotSelected(cause).text() is None,
        config.valid() <==> config.max_notes_per_tx >= 1,
{
}

/// A loaded account is selected for within the configured limits, and one without committed state
/// is no work: the build ends with all four lists of notes empty.
pub proof fn law_only_a_loaded_account_is_worked_on<X: Services, N, T, E, S>(
    context: NetworkTransactionContext<X>,
    build: Build,
    account: Option<N>,
    step: BuildStep<N, T, E, S>,
)
    requires
        context.moves(build, BuildEvent::AccountLoaded(Ok(account)), step),
    ensures
        account matches Some(loaded) ==> step == (BuildStep::<N, T, E, S>::Select {
            account: loaded,
            max_notes_per_tx: context.config.max_notes_per_tx,
            max_note_attempts: context.config.max_note_attempts,
        }),
        account is None ==> {
            &&& step matches BuildStep::Finish(outcome)
            &&& outcome.account_id == build.account_id
            &&& outcome.block_num == build.block_num
            &&& outcome.result is NoWork
            &&& outcome.notes.failed@.len() == 0
            &&& outcome.notes.discarded@.len() == 0
            &&& outcome.notes.eligibility@.len() == 0
            &&& outcome.notes.scripts@.len() == 0
        },
{
}

/// A selection with a candidate is executed, with every note of the candidate on record. One
/// without is no work. Either way the notes that it rejected are failures and those it corrected
/// are corrections, and nothing else was found out yet.
pub proof fn law_selected_candidate_is_executed<X: Services, N, T, E, S>(
    context: NetworkTransactionContext<X>,
    build: Build,
    selection: Selection<E, T>,
    step: BuildStep<N, T, E, S>,
)
    requires
        context.moves(build, BuildEvent::Selected(Ok(selection)), step),
    ensures
        selection.candidate is Some ==> {
            let selected = selection.candidate.unwrap();
            &&& step matches BuildStep::Execute { execution, candidate, note_ids }
            &&& candidate == selected
            &&& note_ids@ == candidate_note_ids(selected.notes@)
            &&& execution.build.account_id == build.account_id
            &&& execution.build.block_num == build.block_num
            &&& execution.notes.failed@ == selection.rejected@
            &&& execution.notes.eligibility@ == selection.stale_eligibility@
            &&& execution.notes.discarded@.len() == 0
            &&& execution.notes.scripts@.len() == 0
            &&& execution.sponsor_to_feature@ == sponsored_features(selected.notes@)
            &&& execution.feature_nullifiers@ == feature_nullifiers(selected.notes@)
        },
        selection.candidate is None ==> {
            &&& step matches BuildStep::Finish(outcome)
            &&& outcome.account_id == build.account_id
            &&& outcome.block_num == build.block_num
            &&& outcome.result is NoWork
            &&& outcome.notes.failed@ == selection.rejected@
            &&& outcome.notes.eligibility@ == selection.stale_eligibility@
            &&& outcome.notes.discarded@.len() == 0
            &&& outcome.notes.scripts@.len() == 0
        },
{
}

/// An account or notes that cannot be read abort the build with the cause, and charge nothing.
pub proof fn law_unreadable_account_aborts_the_build<X: Services, N, T, E, S>(
    context: NetworkTransactionContext<X>,
    build: Build,
    event: BuildEvent<N, T, E>,
    step: BuildStep<N, T, E, S>,
)
    requires
        context.moves(build, event, step),
        match event {
            BuildEvent::AccountLoaded(loaded) => loaded is Err,
            BuildEvent::Selected(selected) => selected is Err,
        },
    ensures
        step matches BuildStep::Finish(outcome) && {
            &&& outcome.account_id == build.account_id
            &&& outcome.block_num == build.block_num
            &&& outcome.notes.failed@.len() == 0
            &&& outcome.notes.discarded@.len() == 0
            &&& outcome.notes.eligibility@.len() == 0
            &&& outcome.notes.scripts@.len() == 0
            &&& event matches BuildEvent::AccountLoaded(Err(cause)) ==> outcome.result
                == NetworkTransactionResult::<E>::Aborted(BuildError::AccountNotLoaded(cause))
            &&& event matches BuildEvent::Selected(Err(cause)) ==> outcome.result
                == NetworkTransactionResult::<E>::Aborted(BuildError::NotSelected(cause))
        },
{
}

/// An executed candidate always ends its own build: as submitted, with the id of the transaction,
/// exactly where the transaction was submitted, and otherwise as failed. An executor failure never
/// aborts a build.
pub proof fn law_executed_candidate_ends_its_build<E, S>(
    execution: Execution<E, S>,
    executed: Result<NtxExecutionResult<E, S>, NtxError<E>>,
    outcome: NetworkTransactionOutcome<E, S>,
)
    requires
        execution.ends(executed, outcome),
    ensures
        outcome.account_id == execution.build.account_id,
        outcome.block_num == execution.build.block_num,
        executed is Ok <==> outcome.result is Submitted,
        executed matches Ok(done) ==> outcome.result == (NetworkTransactionResult::<E>::Submitted {
            tx_id: done.tx_id,
        }),
        executed is Err <==> outcome.result is Failed,
        outcome.notes.failed@ == execution.updates_after(executed).failed,
        outcome.notes.discarded@ == execution.updates_after(executed).discarded,
        outcome.notes.eligibility@ == execution.updates_after(executed).eligibility,
        outcome.notes.scripts@ == execution.updates_after(executed).scripts,
{
}

} // verus!
