//! Block-driven scheduler for network transactions.
//!
//! The scheduler knows which builds run and which submitted transactions it has not seen committed
//! yet. Everything else that decides what to work on next is read from the database at every
//! dispatch. The builds run, and the database is read and written, outside: the scheduler says
//! what to ask and what to write, and takes the answers.

use std::collections::HashMap;

use vstd::prelude::*;

use crate::candidate::NoteError;
use crate::chain_state::ChainState;
use crate::committed_block::CommittedBlockEffects;
use crate::network_transaction::{
    NetworkTransactionContext, NetworkTransactionOutcome, NetworkTransactionResult, NoteUpdates,
    NoteUpdatesView, Services,
};
use crate::pairs::{latest, law_last_entry_counts, lemma_latest_push};
use crate::tasks::{can_join, lists_values, lists_values_by, TaskId, Tasks};
use crate::word::{AccountId, BlockNumber, Nullifier, TransactionId, Word};

verus! {

// SCHEDULER STATE
// ================================================================================================

/// A transaction that was submitted and not seen committed yet.
#[derive(Clone, Copy, Debug, PartialEq, Eq, Structural)]
pub struct Inflight {
    /// Id of the submitted transaction.
    pub tx_id: TransactionId,
    /// First block that can no longer include the transaction. It bounds how long the account
    /// stays blocked when the submission never lands.
    pub expires_at: BlockNumber,
}

/// Configuration of the [`Scheduler`].
#[derive(Debug)]
pub struct SchedulerConfig {
    /// Most network transactions that are built at a time.
    pub max_concurrent_txs: usize,
    /// Number of blocks, at least one, after which a submitted transaction expires. It must match
    /// the expiration that the transaction carries.
    pub tx_expiration_delta: u16,
    /// Accounts that are served before every other account.
    pub priority_accounts: Vec<AccountId>,
}

impl SchedulerConfig {
    /// Transactions expire after at least one block.
    pub open spec fn valid(&self) -> bool {
        self.tx_expiration_delta > 0
    }

    /// Whether transactions expire after at least one block.
    pub fn is_valid(&self) -> (valid: bool)
        ensures
            valid == self.valid(),
    {
        self.tx_expiration_delta > 0
    }
}

/// Decides which accounts to build network transactions for.
///
/// It is driven at three moments:
///
/// 1. On every committed block, [`Scheduler::handle_committed_block`] drops the in-flight
///    transactions that landed or expired, and [`Scheduler::dispatch`] fills the free slots.
/// 2. Whenever a build completes, [`Scheduler::handle_completion`] says what to persist, and
///    [`Scheduler::finish_completion`] whether the freed slot should be refilled at once.
/// 3. On shutdown, [`Scheduler::shutdown`] forgets the outstanding builds.
pub struct Scheduler<X: Services> {
    /// Resources of every build.
    ctx: NetworkTransactionContext<X>,
    /// The running builds, each tagged with its account. They occupy the slots.
    tasks: Tasks<AccountId>,
    /// Accounts with a submitted transaction that is not committed yet. They occupy no slot but
    /// are not selected, so an account never has two transactions in flight.
    in_flight: HashMap<AccountId, Inflight>,
    config: SchedulerConfig,
}

/// The state of a [`Scheduler`].
#[verifier::ext_equal]
pub struct SchedulerView {
    /// The account of each running build.
    pub running: Map<TaskId, AccountId>,
    /// The submitted transaction of each account that has one.
    pub in_flight: Map<AccountId, Inflight>,
}

impl<X: Services> View for Scheduler<X> {
    type V = SchedulerView;

    closed spec fn view(&self) -> SchedulerView {
        SchedulerView { running: self.tasks@, in_flight: self.in_flight@ }
    }
}

/// Which accounts to ask the database for.
#[derive(Debug)]
pub struct ReadyQuery {
    /// Notes with this many attempts are left alone.
    pub max_note_attempts: usize,
    /// Block that the builds refer to.
    pub block_num: BlockNumber,
    /// Accounts that must not be selected.
    pub busy: Vec<AccountId>,
    /// Accounts that go first.
    pub priority_accounts: Vec<AccountId>,
    /// Most accounts to select.
    pub limit: usize,
}

/// What came of waiting for a build.
pub enum BuildCompletion<E, S, J> {
    /// No build is running: wait until one is spawned.
    Idle,
    /// A build reported its outcome.
    Finished(NetworkTransactionOutcome<E, S>),
    /// A build ended without an outcome: it panicked, and there is no state to recover to.
    Lost { account_id: AccountId, join_error: J },
}

/// One write of what a build found out about notes.
#[derive(Debug)]
pub enum NoteWrite<E, S> {
    /// Move notes to the block from which they are eligible.
    UpdateEligibility { eligibility: Vec<(Nullifier, BlockNumber)> },
    /// Count an attempt for each of the notes.
    NotesFailed { failed: Vec<(Nullifier, NoteError<E>)>, block_num: BlockNumber },
    /// Mark notes as never consumable, by giving them the largest number of attempts.
    DiscardNotes { discarded: Vec<Nullifier>, block_num: BlockNumber, max_note_attempts: usize },
    /// Keep a note script.
    InsertNoteScript { script_root: Word, script: S },
}

/// The contents of a [`NoteWrite`].
pub enum NoteWriteView<E, S> {
    UpdateEligibility { eligibility: Seq<(Nullifier, BlockNumber)> },
    NotesFailed { failed: Seq<(Nullifier, NoteError<E>)>, block_num: BlockNumber },
    DiscardNotes { discarded: Seq<Nullifier>, block_num: BlockNumber, max_note_attempts: usize },
    InsertNoteScript { script_root: Word, script: S },
}

impl<E, S> View for NoteWrite<E, S> {
    type V = NoteWriteView<E, S>;

    open spec fn view(&self) -> NoteWriteView<E, S> {
        match *self {
            NoteWrite::UpdateEligibility { eligibility } => NoteWriteView::UpdateEligibility {
                eligibility: eligibility@,
            },
            NoteWrite::NotesFailed { failed, block_num } => NoteWriteView::NotesFailed {
                failed: failed@,
                block_num,
            },
            NoteWrite::DiscardNotes { discarded, block_num, max_note_attempts } => {
                NoteWriteView::DiscardNotes { discarded: discarded@, block_num, max_note_attempts }
            },
            NoteWrite::InsertNoteScript { script_root, script } => {
                NoteWriteView::InsertNoteScript { script_root, script }
            },
        }
    }
}

/// The contents of a list of writes.
pub open spec fn contents<E, S>(writes: Seq<NoteWrite<E, S>>) -> Seq<NoteWriteView<E, S>> {
    writes.map_values(|write: NoteWrite<E, S>| write@)
}

/// The writes that persist what a build found out about notes, in order. A correction of the
/// eligibility goes first: until it is written the account is selected on every block. Nothing is
/// written for an empty list.
pub open spec fn note_writes<E, S>(
    notes: NoteUpdatesView<E, S>,
    block_num: BlockNumber,
    max_note_attempts: usize,
) -> Seq<NoteWriteView<E, S>> {
    let eligibility = if notes.eligibility.len() > 0 {
        seq![NoteWriteView::<E, S>::UpdateEligibility { eligibility: notes.eligibility }]
    } else {
        Seq::empty()
    };
    let failed = if notes.failed.len() > 0 {
        seq![NoteWriteView::<E, S>::NotesFailed { failed: notes.failed, block_num }]
    } else {
        Seq::empty()
    };
    let discarded = if notes.discarded.len() > 0 {
        seq![
            NoteWriteView::<E, S>::DiscardNotes {
                discarded: notes.discarded,
                block_num,
                max_note_attempts,
            },
        ]
    } else {
        Seq::empty()
    };
    eligibility + failed + discarded + script_writes(notes.scripts)
}

/// One write for each note script.
pub open spec fn script_writes<E, S>(scripts: Seq<(Word, S)>) -> Seq<NoteWriteView<E, S>> {
    scripts.map_values(
        |entry: (Word, S)|
            NoteWriteView::<E, S>::InsertNoteScript { script_root: entry.0, script: entry.1 },
    )
}

/// What a [`NoteWrite`] is about.
#[derive(Clone, Copy, Debug, PartialEq, Eq, Structural)]
pub enum NoteWriteKind {
    Eligibility,
    Failures,
    Discards,
    Script,
}

/// A write that failed.
#[derive(Debug)]
pub struct NoteWriteError<W> {
    pub kind: NoteWriteKind,
    pub cause: W,
}

impl<W> NoteWriteError<W> {
    /// The text of the error.
    pub open spec fn text(self) -> Seq<char> {
        match self.kind {
            NoteWriteKind::Eligibility => "failed to correct note eligibility"@,
            NoteWriteKind::Failures => "failed to persist note failures"@,
            NoteWriteKind::Discards => "failed to discard notes"@,
            NoteWriteKind::Script => "failed to cache note script"@,
        }
    }

    /// Returns the text of the error.
    pub fn message(&self) -> (message: String)
        ensures
            message@ == self.text(),
    {
        match self.kind {
            NoteWriteKind::Eligibility => "failed to correct note eligibility".to_owned(),
            NoteWriteKind::Failures => "failed to persist note failures".to_owned(),
            NoteWriteKind::Discards => "failed to discard notes".to_owned(),
            NoteWriteKind::Script => "failed to cache note script".to_owned(),
        }
    }
}

impl<E, S> NoteWrite<E, S> {
    /// What the write is about.
    pub open spec fn about(self) -> NoteWriteKind {
        match self {
            NoteWrite::UpdateEligibility { .. } => NoteWriteKind::Eligibility,
            NoteWrite::NotesFailed { .. } => NoteWriteKind::Failures,
            NoteWrite::DiscardNotes { .. } => NoteWriteKind::Discards,
            NoteWrite::InsertNoteScript { .. } => NoteWriteKind::Script,
        }
    }

    /// Returns what the write is about.
    pub fn kind(&self) -> (kind: NoteWriteKind)
        ensures
            kind == self.about(),
    {
        match self {
            NoteWrite::UpdateEligibility { .. } => NoteWriteKind::Eligibility,
            NoteWrite::NotesFailed { .. } => NoteWriteKind::Failures,
            NoteWrite::DiscardNotes { .. } => NoteWriteKind::Discards,
            NoteWrite::InsertNoteScript { .. } => NoteWriteKind::Script,
        }
    }
}

/// A write that is being performed, and the writes that follow it.
#[derive(Debug)]
pub struct NoteWriting<E, S> {
    kind: NoteWriteKind,
    rest: Vec<NoteWrite<E, S>>,
}

/// The contents of [`NoteWriting`].
#[verifier::ext_equal]
pub struct NoteWritingView<E, S> {
    /// What the current write is about.
    pub kind: NoteWriteKind,
    /// The writes that follow it.
    pub rest: Seq<NoteWrite<E, S>>,
}

impl<E, S> View for NoteWriting<E, S> {
    type V = NoteWritingView<E, S>;

    closed spec fn view(&self) -> NoteWritingView<E, S> {
        NoteWritingView { kind: self.kind, rest: self.rest@ }
    }
}

/// How a list of writes goes on.
#[derive(Debug)]
pub enum NoteWriteStep<E, S, W> {
    /// Perform the write.
    Perform { write: NoteWrite<E, S>, writing: NoteWriting<E, S> },
    /// Every write was performed.
    Done,
    /// A write failed. None of those after it is performed, and those before it stand.
    Failed(NoteWriteError<W>),
}

/// The contents of a [`NoteWriteStep`].
pub enum NoteWriteStepView<E, S, W> {
    Perform { write: NoteWrite<E, S>, writing: NoteWritingView<E, S> },
    Done,
    Failed(NoteWriteError<W>),
}

impl<E, S, W> View for NoteWriteStep<E, S, W> {
    type V = NoteWriteStepView<E, S, W>;

    open spec fn view(&self) -> NoteWriteStepView<E, S, W> {
        match *self {
            NoteWriteStep::Perform { write, writing } => {
                NoteWriteStepView::Perform { write, writing: writing@ }
            },
            NoteWriteStep::Done => NoteWriteStepView::Done,
            NoteWriteStep::Failed(error) => NoteWriteStepView::Failed(error),
        }
    }
}

/// The step that a list of writes starts with: its first write, or the end.
pub open spec fn first_step<E, S, W>(writes: Seq<NoteWrite<E, S>>) -> NoteWriteStepView<E, S, W> {
    if writes.len() == 0 {
        NoteWriteStepView::Done
    } else {
        NoteWriteStepView::Perform {
            write: writes[0],
            writing: NoteWritingView { kind: writes[0].about(), rest: writes.skip(1) },
        }
    }
}

impl<E, S> NoteWritingView<E, S> {
    /// The step that follows the current write: the next write, or the end.
    pub open spec fn next_step<W>(self, written: Result<(), W>) -> NoteWriteStepView<E, S, W> {
        match written {
            Ok(()) => first_step(self.rest),
            Err(cause) => NoteWriteStepView::Failed(NoteWriteError { kind: self.kind, cause }),
        }
    }
}

impl<E, S, W> NoteWriteStepView<E, S, W> {
    /// Number of writes that are still to be performed.
    pub open spec fn writes_left(self) -> nat {
        match self {
            NoteWriteStepView::Perform { writing, .. } => writing.rest.len() + 1,
            _ => 0,
        }
    }

    /// How the list of writes ends from here, where `written` says what comes of each write.
    pub open spec fn end(
        self,
        written: spec_fn(NoteWrite<E, S>) -> Result<(), W>,
    ) -> Result<(), NoteWriteError<W>>
        decreases self.writes_left(),
    {
        match self {
            NoteWriteStepView::Perform { write, writing } => writing.next_step(written(write)).end(
                written,
            ),
            NoteWriteStepView::Done => Ok(()),
            NoteWriteStepView::Failed(error) => Err(error),
        }
    }
}

impl<E, S> NoteWriting<E, S> {
    /// Starts with the first of the writes.
    pub fn start<W>(writes: Vec<NoteWrite<E, S>>) -> (step: NoteWriteStep<E, S, W>)
        ensures
            step@ == first_step::<E, S, W>(writes@),
    {
        let mut rest = writes;
        if rest.len() == 0 {
            return NoteWriteStep::Done;
        }
        let write = rest.remove(0);
        let kind = write.kind();
        assert(rest@ =~= writes@.skip(1));
        NoteWriteStep::Perform { write, writing: NoteWriting { kind, rest } }
    }

    /// Takes whether the current write was performed, and goes on with the next one. The first
    /// write that fails is the last one that is tried.
    pub fn next<W>(self, written: Result<(), W>) -> (step: NoteWriteStep<E, S, W>)
        ensures
            step@ == self@.next_step(written),
    {
        match written {
            Ok(()) => NoteWriting::start(self.rest),
            Err(cause) => NoteWriteStep::Failed(NoteWriteError { kind: self.kind, cause }),
        }
    }
}

/// A completed build, without what it found out about notes.
#[derive(Debug)]
pub struct CompletedBuild<E> {
    pub account_id: AccountId,
    pub block_num: BlockNumber,
    pub result: NetworkTransactionResult<E>,
}

impl<E> CompletedBuild<E> {
    /// The block at which a transaction submitted by the build expires is a block number.
    pub open spec fn expiration_fits(self, tx_expiration_delta: u16) -> bool {
        self.result is Submitted ==> self.block_num + tx_expiration_delta <= u32::MAX
    }

    /// Whether the slot that the build freed should be refilled at once. Where the build changed
    /// nothing, the same account would only be selected again.
    pub open spec fn refills(self) -> bool {
        self.result is Submitted || self.result is Failed
    }
}

/// Builds with the given ids, one for each of the given accounts.
pub open spec fn builds_for(ids: Seq<TaskId>, accounts: Seq<AccountId>) -> Seq<
    (TaskId, AccountId),
> {
    Seq::new(ids.len(), |i: int| (ids[i], accounts[i]))
}

impl SchedulerView {
    /// The state once what a build reported was persisted.
    pub open spec fn after_completion<E>(
        self,
        build: CompletedBuild<E>,
        tx_expiration_delta: u16,
    ) -> SchedulerView {
        match build.result {
            NetworkTransactionResult::Submitted { tx_id } => self.with_submission(
                build.account_id,
                tx_id,
                (build.block_num + tx_expiration_delta) as u32,
            ),
            _ => self,
        }
    }

    /// `busy` lists the account of each running build and then each account in flight.
    pub open spec fn lists_busy(self, busy: Seq<AccountId>) -> bool {
        exists|building: Seq<AccountId>, waiting: Seq<AccountId>| #[trigger]
            self.lists_busy_by(busy, building, waiting)
    }

    /// `building` lists the account of each running build, `waiting` each account in flight, and
    /// `busy` one after the other.
    pub open spec fn lists_busy_by(
        self,
        busy: Seq<AccountId>,
        building: Seq<AccountId>,
        waiting: Seq<AccountId>,
    ) -> bool {
        &&& busy == building + waiting
        &&& lists_values(self.running, building)
        &&& waiting.no_duplicates()
        &&& waiting.to_set() == self.in_flight.dom()
    }

    /// The account has a running build.
    pub open spec fn is_building(self, account_id: AccountId) -> bool {
        exists|id: TaskId| #[trigger]
            self.running.contains_key(id) && self.running[id] == account_id
    }

    /// No account has two running builds, or a running build next to a transaction in flight.
    pub open spec fn is_exclusive(self) -> bool {
        &&& forall|a: TaskId, b: TaskId|
            #![trigger self.running[a], self.running[b]]
            self.running.contains_key(a) && self.running.contains_key(b) && self.running[a]
                == self.running[b] ==> a == b
        &&& forall|id: TaskId| #[trigger]
            self.running.contains_key(id) ==> !self.in_flight.contains_key(self.running[id])
    }

    /// Builds were spawned for accounts that are free, each of them once, and each build has an id
    /// of its own.
    pub open spec fn can_spawn(self, spawned: Seq<(TaskId, AccountId)>) -> bool {
        &&& forall|i: int|
            0 <= i < spawned.len() ==> !self.running.contains_key((#[trigger] spawned[i]).0)
                && !self.is_building(spawned[i].1) && !self.in_flight.contains_key(spawned[i].1)
        &&& forall|i: int, j: int|
            #![trigger spawned[i], spawned[j]]
            0 <= i < j < spawned.len() ==> spawned[i].0 != spawned[j].0 && spawned[i].1
                != spawned[j].1
    }

    /// The state once builds were spawned.
    pub open spec fn with_builds(self, spawned: Seq<(TaskId, AccountId)>) -> SchedulerView {
        SchedulerView { running: self.running.union_prefer_right(latest(spawned)), ..self }
    }

    /// The account's transaction is among those that a block commits.
    pub open spec fn landed(
        self,
        account_id: AccountId,
        committed: Seq<(AccountId, TransactionId)>,
    ) -> bool {
        committed.contains((account_id, self.in_flight[account_id].tx_id))
    }

    /// The account's transaction can no longer be included.
    pub open spec fn expired(self, account_id: AccountId, tip: BlockNumber) -> bool {
        tip >= self.in_flight[account_id].expires_at
    }

    /// The state after a committed block: accounts whose transaction landed or expired are free.
    pub open spec fn after_block(
        self,
        tip: BlockNumber,
        committed: Seq<(AccountId, TransactionId)>,
    ) -> SchedulerView {
        SchedulerView {
            in_flight: self.in_flight.restrict(
                Set::new(
                    |account_id: AccountId|
                        !self.landed(account_id, committed) && !self.expired(account_id, tip),
                ),
            ),
            ..self
        }
    }

    /// The state after several committed blocks, each given by its number and the transactions that
    /// it commits, with the account of each.
    pub open spec fn after_blocks(
        self,
        blocks: Seq<(BlockNumber, Seq<(AccountId, TransactionId)>)>,
    ) -> SchedulerView
        decreases blocks.len(),
    {
        if blocks.len() == 0 {
            self
        } else {
            self.after_blocks(blocks.drop_last()).after_block(blocks.last().0, blocks.last().1)
        }
    }

    /// The state once a transaction was submitted for an account.
    pub open spec fn with_submission(
        self,
        account_id: AccountId,
        tx_id: TransactionId,
        expires_at: BlockNumber,
    ) -> SchedulerView {
        SchedulerView {
            in_flight: self.in_flight.insert(account_id, Inflight { tx_id, expires_at }),
            ..self
        }
    }
}

impl<X: Services> Scheduler<X> {
    /// Resources of every build.
    pub closed spec fn context(&self) -> NetworkTransactionContext<X> {
        self.ctx
    }

    /// The configuration.
    pub closed spec fn configuration(&self) -> SchedulerConfig {
        self.config
    }

    /// The limits that must not be zero are not.
    pub open spec fn is_configured(&self) -> bool {
        &&& self.configuration().valid()
        &&& self.context().config.valid()
    }

    /// `query` asks for accounts to fill the free slots with builds that refer to `block_num`, and
    /// is `None` where no slot is free.
    pub open spec fn asks(&self, block_num: BlockNumber, query: Option<ReadyQuery>) -> bool {
        let running = self@.running.dom();
        let slots = self.configuration().max_concurrent_txs;
        &&& running.finite()
        &&& query is None <==> running.len() >= slots
        &&& query matches Some(query) ==> {
            &&& query.max_note_attempts == self.context().config.max_note_attempts
            &&& query.block_num == block_num
            &&& self@.lists_busy(query.busy@)
            &&& query.priority_accounts@ == self.configuration().priority_accounts@
            &&& query.limit + running.len() == slots
        }
    }

    /// Creates a scheduler with nothing to do.
    pub fn new(ctx: NetworkTransactionContext<X>, config: SchedulerConfig) -> (scheduler: Self)
        requires
            ctx.config.valid(),
            config.valid(),
        ensures
            scheduler.is_configured(),
            scheduler.context() == ctx,
            scheduler.configuration() == config,
            scheduler@ == (SchedulerView { running: Map::empty(), in_flight: Map::empty() }),
            scheduler@.is_exclusive(),
    {
        Scheduler { ctx, tasks: Tasks::new(), in_flight: HashMap::new(), config }
    }

    /// Says which accounts to select for the free slots. `None` where no slot is free.
    ///
    /// Accounts with a running build or an in-flight transaction are excluded, so an account never
    /// has two builds or two submitted transactions at once.
    pub fn dispatch(&self, chain: &ChainState) -> (query: Option<ReadyQuery>)
        ensures
            self.asks(chain@.tip.block_num, query),
    {
        let running: usize = self.tasks.len();
        if running >= self.config.max_concurrent_txs {
            return None;
        }
        let mut busy = self.building_accounts();
        let ghost building = busy@;
        let mut waiting = self.in_flight_accounts();
        let ghost waiting_accounts = waiting@;
        busy.append(&mut waiting);
        assert(self@.lists_busy_by(busy@, building, waiting_accounts));
        let mut priority_accounts: Vec<AccountId> = Vec::new();
        priority_accounts.extend_from_slice(self.config.priority_accounts.as_slice());
        assert(priority_accounts@ =~= self.config.priority_accounts@);
        Some(
            ReadyQuery {
                max_note_attempts: self.ctx.config.max_note_attempts,
                block_num: chain.chain_tip_header.block_num(),
                busy,
                priority_accounts,
                limit: self.config.max_concurrent_txs - running,
            },
        )
    }

    /// Returns the account of each running build, in no particular order.
    fn building_accounts(&self) -> (accounts: Vec<AccountId>)
        ensures
            lists_values(self@.running, accounts@),
    {
        let tags = self.tasks.tags();
        let mut accounts: Vec<AccountId> = Vec::new();
        let mut i: usize = 0;
        while i < tags.len()
            invariant
                i <= tags.len(),
                accounts@ =~= tags@.unref().take(i as int),
            decreases tags.len() - i,
        {
            accounts.push(*tags[i]);
            i += 1;
        }
        assert(accounts@ =~= tags@.unref());
        accounts
    }

    /// Returns the accounts with an in-flight transaction, in no particular order.
    pub fn in_flight_accounts(&self) -> (accounts: Vec<AccountId>)
        ensures
            accounts@.no_duplicates(),
            accounts@.to_set() == self@.in_flight.dom(),
    {
        broadcast use vstd::std_specs::hash::group_hash_axioms;

        let mut accounts: Vec<AccountId> = Vec::new();
        for account_id in ids: self.in_flight.keys()
            invariant
                accounts@ =~= ids.seq().unref().take(ids.index() as int),
                ids.seq().unref().to_set() == self.in_flight@.dom(),
                ids.seq().no_duplicates(),
                accounts@.no_duplicates(),
                ids.index() == ids.seq().len() ==> accounts@.to_set() == self.in_flight@.dom(),
        {
            assert(ids.seq().unref()[ids.index() as int] == *account_id);
            accounts.push(*account_id);
            assert(accounts@ =~= ids.seq().unref().take(ids.index() + 1));
            assert(ids.index() + 1 == ids.seq().len() ==> accounts@ =~= ids.seq().unref());
        }
        accounts
    }

    /// Records the builds that were spawned for the accounts that the database selected.
    pub fn builds_spawned(&mut self, spawned: Vec<(TaskId, AccountId)>)
        ensures
            final(self)@ == old(self)@.with_builds(spawned@),
            final(self).context() == old(self).context(),
            final(self).configuration() == old(self).configuration(),
    {
        let ghost before = self@.running;
        let mut i: usize = 0;
        assert(spawned@.take(0) =~= Seq::empty());
        while i < spawned.len()
            invariant
                i <= spawned.len(),
                self@.running =~= before.union_prefer_right(latest(spawned@.take(i as int))),
                self@.in_flight == old(self)@.in_flight,
                self.context() == old(self).context(),
                self.configuration() == old(self).configuration(),
            decreases spawned.len() - i,
        {
            let (id, account_id) = spawned[i];
            self.tasks.spawn(id, account_id);
            proof {
                lemma_latest_push(spawned@.take(i as int), id, account_id);
                assert(spawned@.take(i + 1) =~= spawned@.take(i as int).push((id, account_id)));
            }
            i += 1;
        }
        assert(spawned@.take(i as int) =~= spawned@);
    }

    /// Drops the in-flight transactions that a committed block resolves.
    ///
    /// An account is freed when the block commits its transaction, or when the transaction has
    /// expired and can no longer land.
    pub fn handle_committed_block<N, U>(&mut self, effects: &CommittedBlockEffects<N, U>)
        ensures
            final(self)@ == old(self)@.after_block(
                effects.header@.block_num,
                effects.account_transactions@,
            ),
            final(self).context() == old(self).context(),
            final(self).configuration() == old(self).configuration(),
    {
        broadcast use vstd::std_specs::hash::group_hash_axioms;

        let tip = effects.header.block_num();
        let ghost committed = effects.account_transactions@;
        let accounts = self.in_flight_accounts();
        let ghost before = self@;
        let ghost after = before.after_block(tip, committed);
        let mut i: usize = 0;
        while i < accounts.len()
            invariant
                i <= accounts.len(),
                accounts@.no_duplicates(),
                accounts@.to_set() == before.in_flight.dom(),
                before == old(self)@,
                committed == effects.account_transactions@,
                after == before.after_block(tip, committed),
                self@.running == before.running,
                self.context() == old(self).context(),
                self.configuration() == old(self).configuration(),
                forall|account_id: AccountId|
                    #![trigger self@.in_flight.contains_key(account_id)]
                    self@.in_flight.contains_key(account_id)
                        <==> before.in_flight.contains_key(account_id) && (
                    after.in_flight.contains_key(account_id) || !accounts@.take(
                        i as int,
                    ).contains(account_id)),
                forall|account_id: AccountId| #[trigger]
                    self@.in_flight.contains_key(account_id) ==> self@.in_flight[account_id]
                        == before.in_flight[account_id],
            decreases accounts.len() - i,
        {
            let account_id = accounts[i];
            let ghost waiting = self@.in_flight;
            assert(accounts@.to_set().contains(account_id));
            assert(!accounts@.take(i as int).contains(account_id));
            assert(accounts@.take(i + 1) =~= accounts@.take(i as int).push(account_id));
            assert forall|other: AccountId|
                accounts@.take(i + 1).contains(other) <==> accounts@.take(i as int).contains(other)
                    || other == account_id by {
                let taken = accounts@.take(i as int);
                if taken.contains(other) {
                    let j = choose|j: int| 0 <= j < taken.len() && taken[j] == other;
                    assert(accounts@.take(i + 1)[j] == other);
                }
                assert(accounts@.take(i + 1)[i as int] == account_id);
            }
            if let Some(inflight) = self.in_flight.get(&account_id) {
                let resolved = effects.commits(account_id, inflight.tx_id) || tip
                    >= inflight.expires_at;
                if resolved {
                    let _ = self.in_flight.remove(&account_id);
                    assert(self@.in_flight =~= waiting.remove(account_id));
                }
            }
            i += 1;
        }
        assert(accounts@.take(i as int) =~= accounts@);
        assert forall|account_id: AccountId| before.in_flight.contains_key(
            account_id,
        ) implies accounts@.contains(account_id) by {
            assert(accounts@.to_set().contains(account_id));
        }
        assert(self@.in_flight =~= after.in_flight);
    }

    /// Takes what the runtime reported of the next build to complete.
    pub fn next_completion<E, S, J>(
        &mut self,
        joined: Option<(TaskId, Result<NetworkTransactionOutcome<E, S>, J>)>,
    ) -> (completion: BuildCompletion<E, S, J>)
        requires
            can_join(old(self)@.running, joined),
        ensures
            match joined {
                Some((id, Ok(outcome))) => completion == BuildCompletion::<E, S, J>::Finished(
                    outcome,
                ),
                Some((id, Err(join_error))) => completion == (BuildCompletion::<E, S, J>::Lost {
                    account_id: old(self)@.running[id],
                    join_error,
                }),
                None => completion is Idle,
            },
            final(self)@ == (SchedulerView {
                running: match joined {
                    Some((id, _)) => old(self)@.running.remove(id),
                    None => old(self)@.running,
                },
                ..old(self)@
            }),
            final(self).context() == old(self).context(),
            final(self).configuration() == old(self).configuration(),
    {
        match self.tasks.join_next(joined) {
            Some((_, Ok(outcome))) => BuildCompletion::Finished(outcome),
            Some((account_id, Err(join_error))) => BuildCompletion::Lost { account_id, join_error },
            None => BuildCompletion::Idle,
        }
    }

    /// Says what to persist for a completed build. Once that is done, or has failed,
    /// [`Scheduler::finish_completion`] takes the build.
    pub fn handle_completion<E, S>(&self, outcome: NetworkTransactionOutcome<E, S>) -> (completed: (
        CompletedBuild<E>,
        Vec<NoteWrite<E, S>>,
    ))
        ensures
            completed.0 == (CompletedBuild {
                account_id: outcome.account_id,
                block_num: outcome.block_num,
                result: outcome.result,
            }),
            contents(completed.1@) == note_writes(
                outcome.notes@,
                outcome.block_num,
                self.context().config.max_note_attempts,
            ),
    {
        let NetworkTransactionOutcome { account_id, block_num, notes, result } = outcome;
        let writes = self.persist_note_updates(block_num, notes);
        (CompletedBuild { account_id, block_num, result }, writes)
    }

    /// Takes whether what a build reported was persisted, and returns whether the slot that it
    /// freed should be refilled at once. A submitted transaction puts the account in flight. A
    /// failed write changes nothing.
    pub fn finish_completion<E, W>(
        &mut self,
        build: CompletedBuild<E>,
        persisted: Result<(), W>,
    ) -> (refill: Result<bool, W>)
        requires
            persisted is Ok ==> build.expiration_fits(
                old(self).configuration().tx_expiration_delta,
            ),
        ensures
            refill == match persisted {
                Ok(()) => Ok::<bool, W>(build.refills()),
                Err(error) => Err(error),
            },
            final(self)@ == if persisted is Ok {
                old(self)@.after_completion(build, old(self).configuration().tx_expiration_delta)
            } else {
                old(self)@
            },
            final(self).context() == old(self).context(),
            final(self).configuration() == old(self).configuration(),
    {
        broadcast use vstd::std_specs::hash::group_hash_axioms;

        match persisted {
            Ok(()) => {},
            Err(error) => {
                return Err(error);
            },
        }
        match build.result {
            NetworkTransactionResult::Submitted { tx_id } => {
                let expires_at: BlockNumber = build.block_num
                    + self.config.tx_expiration_delta as u32;
                let _ = self.in_flight.insert(build.account_id, Inflight { tx_id, expires_at });
                Ok(true)
            },
            NetworkTransactionResult::Failed => Ok(true),
            // The state that selected the account did not change.
            NetworkTransactionResult::NoWork => Ok(false),
            NetworkTransactionResult::Aborted(_) => Ok(false),
        }
    }

    /// Lists the writes that persist what a build found out about notes.
    fn persist_note_updates<E, S>(&self, block_num: BlockNumber, notes: NoteUpdates<E, S>) -> (
        writes: Vec<NoteWrite<E, S>>)
        ensures
            contents(writes@) == note_writes(
                notes@,
                block_num,
                self.context().config.max_note_attempts,
            ),
    {
        let ghost all = notes@;
        let max_note_attempts = self.ctx.config.max_note_attempts;
        let NoteUpdates { failed, discarded, eligibility, scripts } = notes;
        let mut writes: Vec<NoteWrite<E, S>> = Vec::new();
        if eligibility.len() > 0 {
            writes.push(NoteWrite::UpdateEligibility { eligibility });
        }
        if failed.len() > 0 {
            writes.push(NoteWrite::NotesFailed { failed, block_num });
        }
        if discarded.len() > 0 {
            writes.push(NoteWrite::DiscardNotes { discarded, block_num, max_note_attempts });
        }
        let ghost first = contents(writes@);
        assert(first + script_writes::<E, S>(all.scripts) =~= note_writes(
            all,
            block_num,
            max_note_attempts,
        ));
        for entry in rest: scripts
            invariant
                rest.seq() == all.scripts,
                contents(writes@) =~= first + script_writes::<E, S>(
                    all.scripts.take(rest.index() as int),
                ),
        {
            let ghost before = writes@;
            let (script_root, script) = entry;
            writes.push(NoteWrite::InsertNoteScript { script_root, script });
            assert(all.scripts.take(rest.index() + 1) =~= all.scripts.take(
                rest.index() as int,
            ).push(entry));
            assert(contents(writes@) =~= contents(before).push(
                NoteWriteView::InsertNoteScript { script_root, script },
            ));
        }
        assert(all.scripts.take(all.scripts.len() as int) =~= all.scripts);
        writes
    }

    /// Forgets the outstanding builds, which are aborted. The scheduler is not driven any further.
    ///
    /// What an aborted build found out about notes is lost. Its notes stay pending, and a
    /// transaction that it submitted lands or expires.
    pub fn shutdown(&mut self)
        ensures
            final(self)@ == (SchedulerView { running: Map::empty(), ..old(self)@ }),
            final(self).context() == old(self).context(),
            final(self).configuration() == old(self).configuration(),
    {
        self.tasks.shutdown();
    }
}

// LAWS
// ================================================================================================

/// An account is busy exactly while a build for it runs or a transaction of it is in flight.
pub proof fn law_busy_accounts_build_or_wait(
    state: SchedulerView,
    busy: Seq<AccountId>,
    account_id: AccountId,
)
    requires
        state.lists_busy(busy),
    ensures
        busy.contains(account_id) <==> state.is_building(account_id)
            || state.in_flight.contains_key(account_id),
{
    let (building, waiting) = choose|building: Seq<AccountId>, waiting: Seq<AccountId>| #[trigger]
        state.lists_busy_by(busy, building, waiting);
    let ids = choose|ids: Seq<TaskId>| #[trigger] lists_values_by(state.running, ids, building);
    if busy.contains(account_id) {
        let i = choose|i: int| 0 <= i < busy.len() && busy[i] == account_id;
        if i < building.len() {
            assert(building[i] == account_id);
            assert(ids.to_set().contains(ids[i]));
            assert(state.running.contains_key(ids[i]));
        } else {
            assert(waiting[i - building.len()] == account_id);
            assert(waiting.to_set().contains(account_id));
        }
    }
    if state.is_building(account_id) {
        let id = choose|id: TaskId| #[trigger]
            state.running.contains_key(id) && state.running[id] == account_id;
        assert(ids.to_set().contains(id));
        let i = choose|i: int| 0 <= i < ids.len() && ids[i] == id;
        assert(building[i] == account_id);
        assert(busy[i] == account_id);
    }
    if state.in_flight.contains_key(account_id) {
        assert(waiting.to_set().contains(account_id));
        let i = choose|i: int| 0 <= i < waiting.len() && waiting[i] == account_id;
        assert(busy[building.len() + i] == account_id);
    }
}

/// Builds with ids of their own, for distinct accounts that are not on the list of busy accounts,
/// are builds for free accounts.
pub proof fn law_accounts_that_are_not_busy_are_free(
    state: SchedulerView,
    busy: Seq<AccountId>,
    spawned: Seq<(TaskId, AccountId)>,
)
    requires
        state.lists_busy(busy),
        forall|i: int|
            0 <= i < spawned.len() ==> !state.running.contains_key((#[trigger] spawned[i]).0)
                && !busy.contains(spawned[i].1),
        forall|i: int, j: int|
            #![trigger spawned[i], spawned[j]]
            0 <= i < j < spawned.len() ==> spawned[i].0 != spawned[j].0 && spawned[i].1
                != spawned[j].1,
    ensures
        state.can_spawn(spawned),
{
    assert forall|i: int| 0 <= i < spawned.len() implies !state.is_building(
        (#[trigger] spawned[i]).1,
    ) && !state.in_flight.contains_key(spawned[i].1) by {
        law_busy_accounts_build_or_wait(state, busy, spawned[i].1);
    }
}

/// Filling the free slots with builds for free accounts never gives an account two builds, nor a
/// build next to a transaction in flight.
pub proof fn law_dispatch_keeps_accounts_exclusive(
    state: SchedulerView,
    spawned: Seq<(TaskId, AccountId)>,
)
    requires
        state.is_exclusive(),
        state.can_spawn(spawned),
    ensures
        state.with_builds(spawned).is_exclusive(),
{
    let after = state.with_builds(spawned);
    assert forall|id: TaskId| #[trigger] after.running.contains_key(id) implies (
    state.running.contains_key(id) && after.running[id] == state.running[id]) || (exists|i: int|
        0 <= i < spawned.len() && (#[trigger] spawned[i]).0 == id && spawned[i].1
            == after.running[id]) by {
        law_last_entry_counts(spawned, id);
        if latest(spawned).contains_key(id) {
            let i = choose|i: int| 0 <= i < spawned.len() && (#[trigger] spawned[i]).0 == id;
            assert forall|j: int| i < j < spawned.len() implies (#[trigger] spawned[j]).0 != id by {
                assert(spawned[i].0 != spawned[j].0);
            }
        }
    }
    assert forall|a: TaskId, b: TaskId|
        #![trigger after.running[a], after.running[b]]
        after.running.contains_key(a) && after.running.contains_key(b) && after.running[a]
            == after.running[b] implies a == b by {
        let in_a = state.running.contains_key(a) && after.running[a] == state.running[a];
        let in_b = state.running.contains_key(b) && after.running[b] == state.running[b];
        if in_a && in_b {
            assert(state.running[a] == state.running[b]);
        } else if in_a {
            let j = choose|j: int|
                0 <= j < spawned.len() && (#[trigger] spawned[j]).0 == b && spawned[j].1
                    == after.running[b];
            assert(state.is_building(spawned[j].1));
        } else if in_b {
            let i = choose|i: int|
                0 <= i < spawned.len() && (#[trigger] spawned[i]).0 == a && spawned[i].1
                    == after.running[a];
            assert(state.is_building(spawned[i].1));
        } else {
            let i = choose|i: int|
                0 <= i < spawned.len() && (#[trigger] spawned[i]).0 == a && spawned[i].1
                    == after.running[a];
            let j = choose|j: int|
                0 <= j < spawned.len() && (#[trigger] spawned[j]).0 == b && spawned[j].1
                    == after.running[b];
            if i < j {
                assert(spawned[i].1 != spawned[j].1);
            } else if j < i {
                assert(spawned[j].1 != spawned[i].1);
            }
        }
    }
}

/// Filling the free slots with the accounts that the database selects, none of them busy and at
/// most as many as were asked for, keeps every limit: no account gets two builds or a build next to
/// a transaction in flight, and no more builds run than there are slots. The builds that ran go on,
/// each selected account gets one build, and the transactions in flight stay. The runtime gives
/// each build an id that no other running build has.
pub proof fn law_dispatch_fills_the_free_slots<X: Services>(
    scheduler: Scheduler<X>,
    block_num: BlockNumber,
    query: ReadyQuery,
    building: Seq<AccountId>,
    ready: Seq<AccountId>,
    ids: Seq<TaskId>,
)
    requires
        scheduler@.is_exclusive(),
        scheduler.asks(block_num, Some(query)),
        lists_values(scheduler@.running, building),
        ready.no_duplicates(),
        ready.len() <= query.limit,
        forall|i: int| 0 <= i < ready.len() ==> !query.busy@.contains(#[trigger] ready[i]),
        ids.len() == ready.len(),
        ids.no_duplicates(),
        forall|i: int|
            0 <= i < ids.len() ==> !scheduler@.running.contains_key(#[trigger] ids[i]),
    ensures
        ({
            let after = scheduler@.with_builds(builds_for(ids, ready));
            &&& after.is_exclusive()
            &&& after.running.dom().finite()
            &&& after.running.dom().len() <= scheduler.configuration().max_concurrent_txs
            &&& scheduler@.running.submap_of(after.running)
            &&& forall|i: int|
                0 <= i < ids.len() ==> after.running.contains_key(#[trigger] ids[i])
                    && after.running[ids[i]] == ready[i]
            &&& lists_values(after.running, building + ready)
            &&& after.in_flight == scheduler@.in_flight
        }),
{
    let state = scheduler@;
    let spawned = builds_for(ids, ready);
    let after = state.with_builds(spawned);
    assert forall|i: int, j: int|
        #![trigger spawned[i], spawned[j]]
        0 <= i < j < spawned.len() implies spawned[i].0 != spawned[j].0 && spawned[i].1
        != spawned[j].1 by {
        assert(ids[i] != ids[j]);
        assert(ready[i] != ready[j]);
    }
    assert forall|i: int| 0 <= i < spawned.len() implies !state.running.contains_key(
        (#[trigger] spawned[i]).0,
    ) && !query.busy@.contains(spawned[i].1) by {
        assert(!state.running.contains_key(ids[i]));
        assert(!query.busy@.contains(ready[i]));
    }
    law_accounts_that_are_not_busy_are_free(state, query.busy@, spawned);
    law_dispatch_keeps_accounts_exclusive(state, spawned);
    law_builds_stay_within_the_slots(
        state,
        spawned,
        scheduler.configuration().max_concurrent_txs as nat,
    );
    assert forall|i: int| 0 <= i < ids.len() implies after.running.contains_key(#[trigger] ids[i])
        && after.running[ids[i]] == ready[i] by {
        law_last_entry_counts(spawned, ids[i]);
        assert(spawned[i].0 == ids[i]);
        assert forall|j: int| i < j < spawned.len() implies (#[trigger] spawned[j]).0 != ids[i] by {
            assert(spawned[i].0 != spawned[j].0);
        }
    }
    assert forall|id: TaskId| latest(spawned).contains_key(id) <==> ids.contains(id) by {
        law_last_entry_counts(spawned, id);
        if ids.contains(id) {
            let i = choose|i: int| 0 <= i < ids.len() && ids[i] == id;
            assert(spawned[i].0 == id);
        }
        if latest(spawned).contains_key(id) {
            let i = choose|i: int| 0 <= i < spawned.len() && (#[trigger] spawned[i]).0 == id;
            assert(ids[i] == id);
        }
    }
    assert forall|id: TaskId| state.running.contains_key(id) implies after.running.contains_key(id)
        && after.running[id] == state.running[id] by {
        if ids.contains(id) {
            let i = choose|i: int| 0 <= i < ids.len() && ids[i] == id;
            assert(!state.running.contains_key(ids[i]));
        }
    }
    let keys = choose|keys: Seq<TaskId>| #[trigger]
        lists_values_by(state.running, keys, building);
    let all = keys + ids;
    assert forall|i: int| 0 <= i < keys.len() implies state.running.contains_key(
        #[trigger] keys[i],
    ) by {
        assert(keys.to_set().contains(keys[i]));
    }
    assert(all.no_duplicates()) by {
        assert forall|i: int, j: int| 0 <= i < all.len() && 0 <= j < all.len() && i != j implies all[i]
            != all[j] by {
            if i < keys.len() && j >= keys.len() {
                assert(state.running.contains_key(keys[i]));
                assert(!state.running.contains_key(ids[j - keys.len()]));
            } else if j < keys.len() && i >= keys.len() {
                assert(state.running.contains_key(keys[j]));
                assert(!state.running.contains_key(ids[i - keys.len()]));
            }
        }
    }
    assert(all.to_set() =~= after.running.dom()) by {
        assert forall|id: TaskId| all.to_set().contains(id) <==> after.running.contains_key(id) by {
            if all.contains(id) {
                let i = choose|i: int| 0 <= i < all.len() && all[i] == id;
                if i < keys.len() {
                    assert(state.running.contains_key(keys[i]));
                } else {
                    assert(ids[i - keys.len()] == id);
                }
            }
            if state.running.contains_key(id) {
                assert(keys.to_set().contains(id));
                let i = choose|i: int| 0 <= i < keys.len() && keys[i] == id;
                assert(all[i] == id);
            }
            if ids.contains(id) {
                let i = choose|i: int| 0 <= i < ids.len() && ids[i] == id;
                assert(all[keys.len() + i] == id);
            }
        }
    }
    assert(building + ready =~= all.map_values(|id: TaskId| after.running[id])) by {
        assert forall|i: int| 0 <= i < all.len() implies (building + ready)[i]
            == after.running[#[trigger] all[i]] by {
            if i < keys.len() {
                assert(state.running.contains_key(keys[i]));
                assert(building[i] == state.running[keys[i]]);
            } else {
                assert(after.running[ids[i - keys.len()]] == ready[i - keys.len()]);
            }
        }
    }
    assert(lists_values_by(after.running, all, building + ready));
}

/// The completion of a build keeps accounts exclusive, and a transaction that it submitted takes
/// the place of no other transaction in flight.
pub proof fn law_completion_keeps_accounts_exclusive<E>(
    state: SchedulerView,
    id: TaskId,
    build: CompletedBuild<E>,
    tx_expiration_delta: u16,
)
    requires
        state.is_exclusive(),
        state.running.contains_key(id),
        build.account_id == state.running[id],
    ensures
        ({
            let joined = SchedulerView { running: state.running.remove(id), ..state };
            &&& !joined.is_building(build.account_id)
            &&& !joined.in_flight.contains_key(build.account_id)
            &&& joined.after_completion(build, tx_expiration_delta).is_exclusive()
        }),
{
    let joined = SchedulerView { running: state.running.remove(id), ..state };
    assert forall|other: TaskId| #[trigger] joined.running.contains_key(other) implies joined.running[other]
        != build.account_id by {
        assert(state.running.contains_key(other));
        assert(state.running[other] != state.running[id]);
    }
}

/// A committed block keeps accounts exclusive.
pub proof fn law_block_keeps_accounts_exclusive(
    state: SchedulerView,
    tip: BlockNumber,
    committed: Seq<(AccountId, TransactionId)>,
)
    requires
        state.is_exclusive(),
    ensures
        state.after_block(tip, committed).is_exclusive(),
{
}

/// Where no more builds are spawned than slots were free, no more builds run than there are slots.
pub proof fn law_builds_stay_within_the_slots(
    state: SchedulerView,
    spawned: Seq<(TaskId, AccountId)>,
    slots: nat,
)
    requires
        state.running.dom().finite(),
        state.running.dom().len() + spawned.len() <= slots,
    ensures
        state.with_builds(spawned).running.dom().finite(),
        state.with_builds(spawned).running.dom().len() <= slots,
    decreases spawned.len(),
{
    if spawned.len() == 0 {
        assert(state.with_builds(spawned).running =~= state.running);
    } else {
        let front = spawned.drop_last();
        law_builds_stay_within_the_slots(state, front, (slots - 1) as nat);
        let before = state.with_builds(front).running;
        assert(state.with_builds(spawned).running =~= before.insert(
            spawned.last().0,
            spawned.last().1,
        ));
        assert(before.insert(spawned.last().0, spawned.last().1).dom() =~= before.dom().insert(
            spawned.last().0,
        ));
    }
}

/// A transaction in flight occupies no slot: whether a slot is free does not depend on the
/// transactions in flight.
pub proof fn law_submission_occupies_no_slot(
    state: SchedulerView,
    account_id: AccountId,
    tx_id: TransactionId,
    expires_at: BlockNumber,
)
    ensures
        state.with_submission(account_id, tx_id, expires_at).running == state.running,
{
}

/// A submitted transaction blocks its account until a block commits that very transaction, or the
/// chain reaches the block at which the transaction expires.
pub proof fn law_submission_blocks_until_landed_or_expired<E>(
    state: SchedulerView,
    build: CompletedBuild<E>,
    tx_id: TransactionId,
    tx_expiration_delta: u16,
    tip: BlockNumber,
    committed: Seq<(AccountId, TransactionId)>,
)
    requires
        build.result == (NetworkTransactionResult::<E>::Submitted { tx_id }),
        build.expiration_fits(tx_expiration_delta),
    ensures
        ({
            let submitted = state.after_completion(build, tx_expiration_delta);
            &&& submitted.in_flight.contains_key(build.account_id)
            &&& submitted.after_block(tip, committed).in_flight.contains_key(build.account_id)
                <==> tip < build.block_num + tx_expiration_delta && !committed.contains(
                (build.account_id, tx_id),
            )
        }),
{
}

/// A block that does not commit an account's transaction leaves its entry alone until it expires,
/// whatever else the block does, other transactions of the account included.
pub proof fn law_block_without_the_transaction_keeps_the_entry(
    state: SchedulerView,
    tip: BlockNumber,
    committed: Seq<(AccountId, TransactionId)>,
    account_id: AccountId,
)
    requires
        state.in_flight.contains_key(account_id),
        !committed.contains((account_id, state.in_flight[account_id].tx_id)),
        tip < state.in_flight[account_id].expires_at,
    ensures
        state.after_block(tip, committed).in_flight.contains_key(account_id),
        state.after_block(tip, committed).in_flight[account_id] == state.in_flight[account_id],
{
}

/// A block only ever frees accounts, running builds go on, and handling it once more changes
/// nothing.
pub proof fn law_block_resolves_once(
    state: SchedulerView,
    tip: BlockNumber,
    committed: Seq<(AccountId, TransactionId)>,
)
    ensures
        state.after_block(tip, committed).in_flight.submap_of(state.in_flight),
        state.after_block(tip, committed).running == state.running,
        state.after_block(tip, committed).after_block(tip, committed) == state.after_block(
            tip,
            committed,
        ),
{
    assert(state.after_block(tip, committed).after_block(tip, committed) =~= state.after_block(
        tip,
        committed,
    ));
}

/// Whether a block commits an account's transaction does not depend on what else it commits, before
/// or after that transaction.
pub proof fn law_landed_transaction_counts_wherever_it_stands(
    state: SchedulerView,
    tip: BlockNumber,
    before: Seq<(AccountId, TransactionId)>,
    after: Seq<(AccountId, TransactionId)>,
    account_id: AccountId,
)
    requires
        state.in_flight.contains_key(account_id),
    ensures
        ({
            let landed = (account_id, state.in_flight[account_id].tx_id);
            !state.after_block(tip, before + seq![landed] + after).in_flight.contains_key(account_id)
        }),
{
    let landed = (account_id, state.in_flight[account_id].tx_id);
    assert((before + seq![landed] + after)[before.len() as int] == landed);
}

/// Over any number of blocks, an account stays in flight exactly while none of them commits its
/// transaction and none has reached the block at which the transaction expires.
pub proof fn law_account_stays_in_flight_until_resolved(
    state: SchedulerView,
    blocks: Seq<(BlockNumber, Seq<(AccountId, TransactionId)>)>,
    account_id: AccountId,
)
    ensures
        state.after_blocks(blocks).in_flight.contains_key(account_id) <==> {
            &&& state.in_flight.contains_key(account_id)
            &&& forall|i: int|
                0 <= i < blocks.len() ==> !state.landed(account_id, (#[trigger] blocks[i]).1)
                    && !state.expired(account_id, blocks[i].0)
        },
        state.after_blocks(blocks).in_flight.contains_key(account_id) ==> state.after_blocks(
            blocks,
        ).in_flight[account_id] == state.in_flight[account_id],
        state.after_blocks(blocks).running == state.running,
    decreases blocks.len(),
{
    if blocks.len() > 0 {
        let front = blocks.drop_last();
        law_account_stays_in_flight_until_resolved(state, front, account_id);
        assert forall|i: int| 0 <= i < front.len() implies #[trigger] front[i] == blocks[i] by {}
        assert(blocks.last() == blocks[blocks.len() - 1]);
        if state.after_blocks(blocks).in_flight.contains_key(account_id) {
            assert forall|i: int| 0 <= i < blocks.len() implies !state.landed(
                account_id,
                (#[trigger] blocks[i]).1,
            ) && !state.expired(account_id, blocks[i].0) by {
                if i < front.len() {
                    assert(front[i] == blocks[i]);
                }
            }
        }
    }
}

/// Where transactions expire after at least one block, a submitted transaction outlives the block
/// that it was built on.
pub proof fn law_submission_outlives_its_reference_block<E>(
    state: SchedulerView,
    build: CompletedBuild<E>,
    tx_expiration_delta: u16,
)
    requires
        build.result is Submitted,
        build.expiration_fits(tx_expiration_delta),
        tx_expiration_delta > 0,
    ensures
        !state.after_completion(build, tx_expiration_delta).expired(
            build.account_id,
            build.block_num,
        ),
{
}

/// The first write that fails ends the list and is the one that the error names, whatever comes
/// after it.
pub proof fn law_first_failed_write_ends_the_list<E, S, W>(
    writes: Seq<NoteWrite<E, S>>,
    written: spec_fn(NoteWrite<E, S>) -> Result<(), W>,
    first: int,
)
    requires
        0 <= first < writes.len(),
        written(writes[first]) is Err,
        forall|i: int| 0 <= i < first ==> written(#[trigger] writes[i]) is Ok,
    ensures
        first_step(writes).end(written) == Err::<(), NoteWriteError<W>>(
            NoteWriteError { kind: writes[first].about(), cause: written(writes[first])->Err_0 },
        ),
    decreases writes.len(),
{
    reveal_with_fuel(NoteWriteStepView::end, 2);
    if first > 0 {
        assert(written(writes[0]) is Ok);
        assert forall|i: int| 0 <= i < first - 1 implies written(
            #[trigger] writes.skip(1)[i],
        ) is Ok by {
            assert(writes.skip(1)[i] == writes[i + 1]);
        }
        law_first_failed_write_ends_the_list(writes.skip(1), written, first - 1);
    }
}

/// Where every write is performed, the list ends without an error.
pub proof fn law_writes_without_failure_are_done<E, S, W>(
    writes: Seq<NoteWrite<E, S>>,
    written: spec_fn(NoteWrite<E, S>) -> Result<(), W>,
)
    requires
        forall|i: int| 0 <= i < writes.len() ==> written(#[trigger] writes[i]) is Ok,
    ensures
        first_step(writes).end(written) == Ok::<(), NoteWriteError<W>>(()),
    decreases writes.len(),
{
    if writes.len() > 0 {
        assert(written(writes[0]) is Ok);
        assert forall|i: int| 0 <= i < writes.len() - 1 implies written(
            #[trigger] writes.skip(1)[i],
        ) is Ok by {
            assert(writes.skip(1)[i] == writes[i + 1]);
        }
        law_writes_without_failure_are_done(writes.skip(1), written);
    }
}

/// A build that found no work or could not run leaves the accounts in flight as they are and does
/// not ask for a refill.
pub proof fn law_idle_build_changes_nothing<E>(
    state: SchedulerView,
    build: CompletedBuild<E>,
    tx_expiration_delta: u16,
)
    requires
        build.result is NoWork || build.result is Aborted,
    ensures
        !build.refills(),
        state.after_completion(build, tx_expiration_delta) == state,
{
}

/// Everything a build found out about notes is written, each list with one write and each script
/// with its own, and nothing is written for what it did not find out.
pub proof fn law_every_finding_is_written<E, S>(
    notes: NoteUpdatesView<E, S>,
    block_num: BlockNumber,
    max_note_attempts: usize,
)
    ensures
        ({
            let writes = note_writes(notes, block_num, max_note_attempts);
            let corrected = NoteWriteView::UpdateEligibility { eligibility: notes.eligibility };
            let failed = NoteWriteView::NotesFailed { failed: notes.failed, block_num };
            let discarded = NoteWriteView::DiscardNotes {
                discarded: notes.discarded,
                block_num,
                max_note_attempts,
            };
            &&& writes.contains(corrected) <==> notes.eligibility.len() > 0
            &&& writes.contains(failed) <==> notes.failed.len() > 0
            &&& writes.contains(discarded) <==> notes.discarded.len() > 0
            &&& forall|root: Word, script: S|
                writes.contains(
                    NoteWriteView::InsertNoteScript { script_root: root, script },
                ) <==> #[trigger] notes.scripts.contains((root, script))
            &&& writes.len() <= 3 + notes.scripts.len()
        }),
{
    let writes = note_writes(notes, block_num, max_note_attempts);
    let scripts = script_writes::<E, S>(notes.scripts);
    let first = writes.take(writes.len() - scripts.len());
    assert(writes =~= first + scripts);
    let corrected = NoteWriteView::<E, S>::UpdateEligibility { eligibility: notes.eligibility };
    let failed = NoteWriteView::<E, S>::NotesFailed { failed: notes.failed, block_num };
    let discarded = NoteWriteView::<E, S>::DiscardNotes {
        discarded: notes.discarded,
        block_num,
        max_note_attempts,
    };
    let n = if notes.eligibility.len() > 0 {
        1int
    } else {
        0int
    };
    let m = if notes.failed.len() > 0 {
        n + 1
    } else {
        n
    };
    if notes.eligibility.len() > 0 {
        assert(writes[0] == corrected);
    }
    if notes.failed.len() > 0 {
        assert(writes[n] == failed);
    }
    if notes.discarded.len() > 0 {
        assert(writes[m] == discarded);
    }
    assert forall|root: Word, script: S|
        writes.contains(
            NoteWriteView::InsertNoteScript { script_root: root, script },
        ) <==> #[trigger] notes.scripts.contains((root, script)) by {
        let write = NoteWriteView::<E, S>::InsertNoteScript { script_root: root, script };
        if writes.contains(write) {
            let i = choose|i: int| 0 <= i < writes.len() && writes[i] == write;
            let j = i - first.len();
            assert(scripts[j] == write);
            assert(notes.scripts[j] == (root, script));
        }
        if notes.scripts.contains((root, script)) {
            let j = choose|j: int|
                0 <= j < notes.scripts.len() && notes.scripts[j] == (root, script);
            assert(writes[first.len() + j] == write);
        }
    }
}

/// Every query names all the configured priority accounts in their order, the block that the builds
/// refer to and the configured number of attempts, whatever builds run and whatever is in flight.
pub proof fn law_query_names_the_priority_accounts<X: Services>(
    scheduler: Scheduler<X>,
    block_num: BlockNumber,
    query: ReadyQuery,
)
    requires
        scheduler.asks(block_num, Some(query)),
    ensures
        query.priority_accounts@ == scheduler.configuration().priority_accounts@,
        query.block_num == block_num,
        query.max_note_attempts == scheduler.context().config.max_note_attempts,
{
}

/// There is a query exactly where fewer builds run than there are slots, and it asks for exactly as
/// many accounts as slots are free.
pub proof fn law_query_asks_for_every_free_slot<X: Services>(
    scheduler: Scheduler<X>,
    block_num: BlockNumber,
    query: Option<ReadyQuery>,
)
    requires
        scheduler.asks(block_num, query),
    ensures
        scheduler@.running.dom().finite(),
        query is Some <==> scheduler@.running.dom().len()
            < scheduler.configuration().max_concurrent_txs,
        query is Some ==> query.unwrap().limit == scheduler.configuration().max_concurrent_txs
            - scheduler@.running.dom().len(),
{
}

/// A query excludes exactly the accounts that a running build is for and those with a transaction
/// in flight: it lists one entry for each of them, the builds first.
pub proof fn law_query_excludes_builds_and_transactions<X: Services>(
    scheduler: Scheduler<X>,
    block_num: BlockNumber,
    query: ReadyQuery,
    account_id: AccountId,
)
    requires
        scheduler.asks(block_num, Some(query)),
    ensures
        scheduler@.in_flight.dom().finite(),
        query.busy@.contains(account_id) <==> (exists|id: TaskId| #[trigger]
            scheduler@.running.contains_key(id) && scheduler@.running[id] == account_id)
            || scheduler@.in_flight.contains_key(account_id),
        query.busy@.len() == scheduler@.running.dom().len() + scheduler@.in_flight.dom().len(),
        forall|i: int|
            scheduler@.running.dom().len() <= i < query.busy@.len()
                ==> scheduler@.in_flight.contains_key(#[trigger] query.busy@[i]),
{
    let state = scheduler@;
    law_busy_accounts_build_or_wait(state, query.busy@, account_id);
    let (building, waiting) = choose|building: Seq<AccountId>, waiting: Seq<AccountId>| #[trigger]
        state.lists_busy_by(query.busy@, building, waiting);
    let ids = choose|ids: Seq<TaskId>| #[trigger] lists_values_by(state.running, ids, building);
    ids.unique_seq_to_set();
    waiting.unique_seq_to_set();
    assert forall|i: int| state.running.dom().len() <= i < query.busy@.len() implies state.in_flight.contains_key(
    #[trigger] query.busy@[i]) by {
        assert(waiting[i - building.len()] == query.busy@[i]);
        assert(waiting.to_set().contains(query.busy@[i]));
    }
}

/// After a committed block an account is in flight exactly where it was before, the block does not
/// commit its transaction, and the block is before the one at which the transaction expires. What
/// stays in flight stays as it was, and so do the builds.
pub proof fn law_block_frees_landed_and_expired_accounts(
    state: SchedulerView,
    tip: BlockNumber,
    committed: Seq<(AccountId, TransactionId)>,
    account_id: AccountId,
)
    ensures
        ({
            let after = state.after_block(tip, committed);
            let entry = state.in_flight[account_id];
            &&& after.in_flight.contains_key(account_id) <==> {
                &&& state.in_flight.contains_key(account_id)
                &&& tip < entry.expires_at
                &&& forall|i: int|
                    0 <= i < committed.len() ==> #[trigger] committed[i] != (
                        account_id,
                        entry.tx_id,
                    )
            }
            &&& after.in_flight.contains_key(account_id) ==> after.in_flight[account_id] == entry
            &&& after.running == state.running
        }),
{
    let entry = state.in_flight[account_id];
    if committed.contains((account_id, entry.tx_id)) {
        let i = choose|i: int| 0 <= i < committed.len() && committed[i] == (
            account_id,
            entry.tx_id,
        );
        assert(committed[i] == (account_id, entry.tx_id));
    }
}

/// A build that submitted a transaction puts its own account in flight, with that transaction and
/// with the block right after its last chance to be included, and changes nothing else. Any other
/// build changes nothing.
pub proof fn law_only_a_submission_goes_in_flight<E>(
    state: SchedulerView,
    build: CompletedBuild<E>,
    tx_expiration_delta: u16,
    other: AccountId,
)
    requires
        build.block_num + tx_expiration_delta <= u32::MAX,
    ensures
        ({
            let after = state.after_completion(build, tx_expiration_delta);
            &&& after.running == state.running
            &&& other != build.account_id ==> {
                &&& after.in_flight.contains_key(other) <==> state.in_flight.contains_key(other)
                &&& state.in_flight.contains_key(other) ==> after.in_flight[other]
                    == state.in_flight[other]
            }
            &&& match build.result {
                NetworkTransactionResult::Submitted { tx_id } => {
                    &&& after.in_flight.contains_key(build.account_id)
                    &&& after.in_flight[build.account_id].tx_id == tx_id
                    &&& after.in_flight[build.account_id].expires_at == build.block_num
                        + tx_expiration_delta
                },
                _ => after.in_flight == state.in_flight,
            }
        }),
{
}

/// A freed slot is refilled at once exactly after a submission or a failure.
pub proof fn law_slot_is_refilled_after_submission_or_failure<E>(
    build: CompletedBuild<E>,
    tx_expiration_delta: u16,
)
    ensures
        build.refills() <==> !(build.result is NoWork) && !(build.result is Aborted),
        build.expiration_fits(tx_expiration_delta) <==> (build.result is Submitted
            ==> build.block_num + tx_expiration_delta <= u32::MAX),
{
}

/// Spawned builds run next to those that ran: a build whose id was given anew is for the account it
/// was given last, every other build is as before, and the transactions in flight stay.
pub proof fn law_spawned_builds_run_next_to_the_others(
    state: SchedulerView,
    spawned: Seq<(TaskId, AccountId)>,
    id: TaskId,
    i: int,
)
    ensures
        state.with_builds(spawned).in_flight == state.in_flight,
        (forall|j: int| 0 <= j < spawned.len() ==> (#[trigger] spawned[j]).0 != id) ==> {
            &&& state.with_builds(spawned).running.contains_key(id)
                <==> state.running.contains_key(id)
            &&& state.running.contains_key(id) ==> state.with_builds(spawned).running[id]
                == state.running[id]
        },
        0 <= i < spawned.len() && spawned[i].0 == id && (forall|j: int|
            i < j < spawned.len() ==> (#[trigger] spawned[j]).0 != id) ==> {
            &&& state.with_builds(spawned).running.contains_key(id)
            &&& state.with_builds(spawned).running[id] == spawned[i].1
        },
{
    law_last_entry_counts(spawned, id);
    if 0 <= i < spawned.len() && spawned[i].0 == id {
        assert(spawned[i].0 == id);
    }
}

/// Accounts are exclusive exactly where different builds are for different accounts and no build is
/// for an account with a transaction in flight.
pub proof fn law_exclusive_means_one_build_or_one_transaction(
    state: SchedulerView,
    a: TaskId,
    b: TaskId,
)
    requires
        state.is_exclusive(),
        state.running.contains_key(a),
    ensures
        !state.in_flight.contains_key(state.running[a]),
        state.running.contains_key(b) && a != b ==> state.running[a] != state.running[b],
{
}

/// Every write is one that the findings call for, and carries exactly the list that was found: none
/// is made for an empty list, and a note is discarded only where it is on the list of discards.
pub proof fn law_every_write_is_called_for<E, S>(
    notes: NoteUpdatesView<E, S>,
    block_num: BlockNumber,
    max_note_attempts: usize,
    i: int,
)
    requires
        0 <= i < note_writes(notes, block_num, max_note_attempts).len(),
    ensures
        match note_writes(notes, block_num, max_note_attempts)[i] {
            NoteWriteView::UpdateEligibility { eligibility } => {
                &&& eligibility == notes.eligibility
                &&& notes.eligibility.len() > 0
            },
            NoteWriteView::NotesFailed { failed, block_num: written_at } => {
                &&& failed == notes.failed
                &&& notes.failed.len() > 0
                &&& written_at == block_num
            },
            NoteWriteView::DiscardNotes { discarded, block_num: written_at, max_note_attempts: cap }
                => {
                &&& discarded == notes.discarded
                &&& notes.discarded.len() > 0
                &&& written_at == block_num
                &&& cap == max_note_attempts
            },
            NoteWriteView::InsertNoteScript { script_root, script } => notes.scripts.contains(
                (script_root, script),
            ),
        },
{
    let writes = note_writes(notes, block_num, max_note_attempts);
    let scripts = script_writes::<E, S>(notes.scripts);
    let before = writes.len() - scripts.len();
    if i >= before {
        assert(writes[i] == scripts[i - before]);
        assert(notes.scripts.contains(notes.scripts[i - before]));
    }
}

/// There are exactly as many writes as lists that are not empty and scripts together. The
/// corrections come first, then the failures, then the discards, and last the scripts, in the order
/// in which they were found.
pub proof fn law_writes_come_in_order<E, S>(
    notes: NoteUpdatesView<E, S>,
    block_num: BlockNumber,
    max_note_attempts: usize,
)
    ensures
        ({
            let writes = note_writes(notes, block_num, max_note_attempts);
            let corrections: int = if notes.eligibility.len() > 0 {
                1
            } else {
                0
            };
            let failures: int = if notes.failed.len() > 0 {
                1
            } else {
                0
            };
            let discards: int = if notes.discarded.len() > 0 {
                1
            } else {
                0
            };
            &&& writes.len() == corrections + failures + discards + notes.scripts.len()
            &&& corrections == 1 ==> writes[0] == (NoteWriteView::<E, S>::UpdateEligibility {
                eligibility: notes.eligibility,
            })
            &&& failures == 1 ==> writes[corrections] == (NoteWriteView::<E, S>::NotesFailed {
                failed: notes.failed,
                block_num,
            })
            &&& discards == 1 ==> writes[corrections + failures] == (NoteWriteView::<
                E,
                S,
            >::DiscardNotes { discarded: notes.discarded, block_num, max_note_attempts })
            &&& forall|k: int|
                0 <= k < notes.scripts.len() ==> writes[corrections + failures + discards + k] == (
                NoteWriteView::<E, S>::InsertNoteScript {
                    script_root: (#[trigger] notes.scripts[k]).0,
                    script: notes.scripts[k].1,
                })
        }),
{
}

/// What is written about one list does not depend on the others: changing the failures changes no
/// other write.
pub proof fn law_failures_do_not_change_other_writes<E, S>(
    a: NoteUpdatesView<E, S>,
    b: NoteUpdatesView<E, S>,
    block_num: BlockNumber,
    max_note_attempts: usize,
    write: NoteWriteView<E, S>,
)
    requires
        a.discarded == b.discarded,
        a.eligibility == b.eligibility,
        a.scripts == b.scripts,
        !(write is NotesFailed),
    ensures
        note_writes(a, block_num, max_note_attempts).contains(write) <==> note_writes(
            b,
            block_num,
            max_note_attempts,
        ).contains(write),
{
    if note_writes(a, block_num, max_note_attempts).contains(write) {
        lemma_write_survives_other_failures(a, b, block_num, max_note_attempts, write);
    }
    if note_writes(b, block_num, max_note_attempts).contains(write) {
        lemma_write_survives_other_failures(b, a, block_num, max_note_attempts, write);
    }
}

/// A write that is not about failures is made whatever failed.
proof fn lemma_write_survives_other_failures<E, S>(
    a: NoteUpdatesView<E, S>,
    b: NoteUpdatesView<E, S>,
    block_num: BlockNumber,
    max_note_attempts: usize,
    write: NoteWriteView<E, S>,
)
    requires
        a.discarded == b.discarded,
        a.eligibility == b.eligibility,
        a.scripts == b.scripts,
        !(write is NotesFailed),
        note_writes(a, block_num, max_note_attempts).contains(write),
    ensures
        note_writes(b, block_num, max_note_attempts).contains(write),
{
    let writes = note_writes(a, block_num, max_note_attempts);
    let i = choose|i: int| 0 <= i < writes.len() && writes[i] == write;
    law_every_write_is_called_for(a, block_num, max_note_attempts, i);
    law_every_finding_is_written(b, block_num, max_note_attempts);
}

/// The contents of a list of writes are those of its writes, in order, and of each write they show
/// everything it holds.
pub proof fn law_writes_show_what_they_hold<E, S>(writes: Seq<NoteWrite<E, S>>, i: int)
    requires
        0 <= i < writes.len(),
    ensures
        contents(writes).len() == writes.len(),
        match writes[i] {
            NoteWrite::UpdateEligibility { eligibility } => contents(writes)[i] == (NoteWriteView::<
                E,
                S,
            >::UpdateEligibility { eligibility: eligibility@ }),
            NoteWrite::NotesFailed { failed, block_num } => contents(writes)[i] == (NoteWriteView::<
                E,
                S,
            >::NotesFailed { failed: failed@, block_num }),
            NoteWrite::DiscardNotes { discarded, block_num, max_note_attempts } => contents(
                writes,
            )[i] == (NoteWriteView::<E, S>::DiscardNotes {
                discarded: discarded@,
                block_num,
                max_note_attempts,
            }),
            NoteWrite::InsertNoteScript { script_root, script } => contents(writes)[i] == (
            NoteWriteView::<E, S>::InsertNoteScript { script_root, script }),
        },
{
}

/// Writes are tried one after the other: while they are performed the next one follows, whatever
/// was performed before, until none is left. One that fails ends the list and is named.
pub proof fn law_writes_are_tried_in_turn<E, S, W>(
    writes: Seq<NoteWrite<E, S>>,
    writing: NoteWritingView<E, S>,
    cause: W,
)
    ensures
        writes.len() == 0 ==> first_step::<E, S, W>(writes) is Done,
        writes.len() > 0 ==> {
            &&& first_step::<E, S, W>(writes) matches NoteWriteStepView::Perform {
                write,
                writing: started,
            }
            &&& write == writes[0]
            &&& started.kind == writes[0].about()
            &&& started.rest.len() == writes.len() - 1
            &&& forall|i: int|
                0 <= i < started.rest.len() ==> #[trigger] started.rest[i] == writes[i + 1]
        },
        writing.rest.len() == 0 ==> writing.next_step::<W>(Ok(())) is Done,
        writing.rest.len() > 0 ==> {
            &&& writing.next_step::<W>(Ok(())) matches NoteWriteStepView::Perform {
                write,
                writing: next,
            }
            &&& write == writing.rest[0]
            &&& next.kind == writing.rest[0].about()
            &&& next.rest.len() == writing.rest.len() - 1
            &&& forall|i: int|
                0 <= i < next.rest.len() ==> #[trigger] next.rest[i] == writing.rest[i + 1]
        },
        writing.next_step(Err(cause)) == NoteWriteStepView::<E, S, W>::Failed(
            NoteWriteError { kind: writing.kind, cause },
        ),
{
}

/// A write is about what it writes, and a failed write is named after that.
pub proof fn law_failed_write_is_named_after_its_list<E, S, W>(write: NoteWrite<E, S>, cause: W)
    ensures
        ({
            let text = NoteWriteError { kind: write.about(), cause }.text();
            match write {
                NoteWrite::UpdateEligibility { .. } => text
                    == "failed to correct note eligibility"@,
                NoteWrite::NotesFailed { .. } => text == "failed to persist note failures"@,
                NoteWrite::DiscardNotes { .. } => text == "failed to discard notes"@,
                NoteWrite::InsertNoteScript { .. } => text == "failed to cache note script"@,
            }
        }),
{
}

/// A step of a list of writes shows the write to perform and what follows it, or how the list
/// ended.
pub proof fn law_step_shows_how_the_list_goes_on<E, S, W>(step: NoteWriteStep<E, S, W>)
    ensures
        match step {
            NoteWriteStep::Perform { write, writing } => step@ == (NoteWriteStepView::<
                E,
                S,
                W,
            >::Perform { write, writing: writing@ }),
            NoteWriteStep::Done => step@ is Done,
            NoteWriteStep::Failed(error) => step@ == NoteWriteStepView::<E, S, W>::Failed(error),
        },
{
}

/// A scheduler is configured where transactions expire after at least one block and hold at least
/// one note.
pub proof fn law_scheduler_is_configured_without_zero_limits<X: Services>(scheduler: Scheduler<X>)
    ensures
        scheduler.is_configured() <==> scheduler.configuration().tx_expiration_delta >= 1
            && scheduler.context().config.max_notes_per_tx >= 1,
{
}

} // verus!
