//! The event loop of the network transaction builder.
//!
//! The loop waits, reads and writes outside. What it does in between is decided here: each event
//! is handed to [`NetworkTransactionBuilder::run_event_loop`], which returns the next step.

use std::time::Duration;

use miden_protocol::crypto::merkle::mmr::PartialMmr;
use vstd::prelude::*;

use crate::chain_state::{
    law_growing_keeps_the_config_active, law_growing_keeps_the_lag, ChainState, ChainStateError,
    ChainView, ProtocolConfig,
};
use crate::committed_block::CommittedBlockEffects;
use crate::network_transaction::{
    NetworkTransactionOutcome, NetworkTransactionResult, Services,
};
use crate::protocol::{
    law_rejection_names_the_first_fault, mmr_leaves, mmr_nodes, mmr_peaks, mmr_tracked, SignedBlock, SignedBlockView,
};
use crate::scheduler::{
    contents, law_block_keeps_accounts_exclusive, law_completion_keeps_accounts_exclusive,
    law_dispatch_keeps_accounts_exclusive, law_every_write_is_called_for,
    law_query_excludes_builds_and_transactions, law_spawned_builds_run_next_to_the_others,
    law_writes_come_in_order, law_writes_show_what_they_hold, note_writes, BuildCompletion,
    CompletedBuild, NoteWrite, NoteWriteError, ReadyQuery, Scheduler, SchedulerView,
};
use crate::tasks::{can_join, TaskId};
use crate::text::{account_text, push_account};
use crate::word::{AccountId, BlockNumber};

verus! {

/// Configuration of the builder.
#[derive(Clone, Copy, Debug)]
pub struct NtxBuilderConfig {
    /// Number of blocks whose headers and authentication paths are kept.
    pub max_block_count: usize,
    /// Most attempts to execute a note before it is dropped.
    pub max_note_attempts: usize,
    /// Longest time that a request to the server may take.
    pub grpc_timeout: Duration,
}

/// Why the block stream yields no block.
#[derive(Debug)]
pub enum BlockStreamError<R> {
    /// The stream ended.
    Ended,
    /// The stream reported an error.
    Failed(R),
}

impl<R> BlockStreamError<R> {
    /// The text of the error.
    pub open spec fn text(self) -> Seq<char> {
        match self {
            BlockStreamError::Ended => "block stream ended"@,
            BlockStreamError::Failed(_) => "block stream failed"@,
        }
    }

    /// Returns the text of the error.
    pub fn message(&self) -> (message: String)
        ensures
            message@ == self.text(),
    {
        match self {
            BlockStreamError::Ended => "block stream ended".to_owned(),
            BlockStreamError::Failed(_) => "block stream failed".to_owned(),
        }
    }
}

/// Takes the next item of the block stream.
pub fn next_block<B, R>(item: Option<Result<B, R>>) -> (block: Result<B, BlockStreamError<R>>)
    ensures
        block == match item {
            Some(Ok(block)) => Ok::<B, BlockStreamError<R>>(block),
            Some(Err(error)) => Err(BlockStreamError::Failed(error)),
            None => Err(BlockStreamError::Ended),
        },
{
    match item {
        Some(Ok(block)) => Ok(block),
        Some(Err(error)) => Err(BlockStreamError::Failed(error)),
        None => Err(BlockStreamError::Ended),
    }
}

/// Publishes a snapshot once its block was written to the database.
///
/// The snapshot must not become visible before its database state is durable. A failed write
/// leaves `chain` on the previous snapshot, so the next block is applied against the state that
/// the database still holds.
pub fn persist_and_publish_chain_state<T, W>(
    chain: &mut ChainState,
    next_chain: ChainState,
    written: Result<T, W>,
) -> (published: Result<T, W>)
    ensures
        published == written,
        *final(chain) == if written is Ok {
            next_chain
        } else {
            *old(chain)
        },
{
    if written.is_ok() {
        *chain = next_chain;
    }
    written
}

// EVENTS AND STEPS
// ================================================================================================

/// A committed block, as the block stream delivers it.
pub struct BlockSubscriptionEvent {
    pub block: SignedBlock,
    /// Tip of the chain that the node has committed.
    pub committed_tip: BlockNumber,
    /// The protocol configuration, where it changes.
    pub protocol_config: Option<ProtocolConfig>,
}

/// What happened to the event loop.
pub enum LoopEvent<X: Services> {
    /// Shutdown was requested.
    Shutdown,
    /// The block stream yielded its next item, or ended.
    Block(Option<Result<BlockSubscriptionEvent, X::Error>>),
    /// The effects of a block were written.
    BlockWritten(Result<CommittedBlockEffects<X::Note, X::AccountUpdate>, X::Error>),
    /// Accounts were selected and a build was spawned for each of them.
    Spawned(Result<Vec<(TaskId, AccountId)>, X::Error>),
    /// A build was joined, or none is running.
    Joined(
        Option<
            (TaskId, Result<NetworkTransactionOutcome<X::Error, X::Script>, X::JoinError>),
        >,
    ),
    /// What a build found out about notes was written.
    NotesWritten(Result<(), NoteWriteError<X::Error>>),
}

/// What the event loop does next.
pub enum LoopStep<X: Services> {
    /// Wait for a shutdown request or for the next block.
    NextBlock,
    /// Wait for a shutdown request, for the next block, or for a build to complete.
    NextEvent,
    /// Write the effects of the block, with the mountain range that goes with it.
    WriteBlock { block: SignedBlock, mmr: PartialMmr },
    /// Select accounts and spawn a build for each of them on top of the chain.
    Select { query: ReadyQuery, chain: ChainState },
    /// Perform the writes as [`crate::scheduler::NoteWriting`] says: in order, up to the first that fails.
    WriteNotes(Vec<NoteWrite<X::Error, X::Script>>),
    /// Abort the running builds, then return without an error.
    AbortBuilds,
    /// Return.
    Finish(Result<(), LoopError<X>>),
}

/// Why the event loop ended.
pub enum LoopError<X: Services> {
    /// The block stream ended or failed.
    BlockStream(BlockStreamError<X::Error>),
    /// The next block does not extend the chain.
    Chain(ChainStateError),
    /// The effects of a block could not be written.
    BlockNotWritten(X::Error),
    /// The accounts that are ready could not be queried.
    NotSelected(X::Error),
    /// A build panicked.
    BuildLost { account_id: AccountId, join_error: X::JoinError },
    /// What a build found out about notes could not be written.
    NotesNotWritten(NoteWriteError<X::Error>),
}

impl<X: Services> LoopError<X> {
    /// The text of the error.
    pub open spec fn text(self) -> Seq<char> {
        match self {
            LoopError::BlockStream(error) => error.text(),
            LoopError::Chain(error) => error.text(),
            LoopError::BlockNotWritten(_) => "failed to apply committed block to DB"@,
            LoopError::NotSelected(_) => {
                "failed to query accounts ready for a network transaction"@
            },
            LoopError::BuildLost { account_id, .. } => {
                "network transaction build failed for account "@ + account_text(account_id)
            },
            LoopError::NotesNotWritten(error) => error.text(),
        }
    }

    /// Returns the text of the error.
    pub fn message(&self) -> (message: String)
        ensures
            message@ == self.text(),
    {
        match self {
            LoopError::BlockStream(error) => error.message(),
            LoopError::Chain(error) => error.message(),
            LoopError::BlockNotWritten(_) => "failed to apply committed block to DB".to_owned(),
            LoopError::NotSelected(_) => {
                "failed to query accounts ready for a network transaction".to_owned()
            },
            LoopError::BuildLost { account_id, .. } => {
                let mut message = "network transaction build failed for account ".to_owned();
                push_account(&mut message, *account_id);
                message
            },
            LoopError::NotesNotWritten(error) => error.message(),
        }
    }
}

/// What the event loop waits for.
pub enum Stage<X: Services> {
    /// The next block, while the chain catches up.
    CatchingUp,
    /// The write of a block.
    WritingBlock { next_chain: ChainState, committed_tip: BlockNumber },
    /// The next block or the next build.
    Running,
    /// The selection of accounts.
    Selecting,
    /// The writes for a build.
    WritingNotes { build: CompletedBuild<X::Error> },
    /// Nothing: the loop has ended.
    Stopped,
}

// NETWORK TRANSACTION BUILDER
// ================================================================================================

/// Network transaction builder.
///
/// It runs in two phases:
///
/// 1. Catch-up: every block of the subscription is applied, until the local tip is the tip that
///    the node reports. No network transaction is built.
/// 2. Steady state: every block is applied, in-flight transactions are resolved against it, and
///    the free slots are filled. Meanwhile finished builds are taken in.
pub struct NetworkTransactionBuilder<X: Services> {
    pub config: NtxBuilderConfig,
    /// Highest block that was applied to the database.
    pub last_applied_block: BlockNumber,
    /// The published snapshot of the chain.
    pub chain: ChainState,
    /// Owner of the builds and of the in-flight transactions.
    pub scheduler: Scheduler<X>,
    /// Whether the local tip has ever been the tip that the node reported.
    pub is_synced: bool,
    /// What the event loop waits for.
    pub stage: Stage<X>,
}

impl<X: Services> NetworkTransactionBuilder<X> {
    /// Creates a builder that starts to catch up.
    pub fn new(
        config: NtxBuilderConfig,
        last_applied_block: BlockNumber,
        chain: ChainState,
        scheduler: Scheduler<X>,
    ) -> (builder: Self)
        ensures
            builder.config == config,
            builder.last_applied_block == last_applied_block,
            builder.chain == chain,
            builder.scheduler == scheduler,
            !builder.is_synced,
            builder.stage is CatchingUp,
            chain@.lags_by_one() && chain@.config_is_active() && chain@.is_fitting()
                && scheduler@.is_exclusive() && scheduler.is_configured() ==> builder.is_sound(),
    {
        NetworkTransactionBuilder {
            config,
            last_applied_block,
            chain,
            scheduler,
            is_synced: false,
            stage: Stage::CatchingUp,
        }
    }

    /// Returns `true` once the builder has caught up to the tip that the node reports. Stays
    /// `true` from then on.
    pub fn is_synced(&self) -> (synced: bool)
        ensures
            synced == self.is_synced,
    {
        self.is_synced
    }

    /// Checks a block against the chain and builds the next snapshot. Nothing is published yet.
    pub fn apply_committed_block(
        &self,
        block: &SignedBlock,
        protocol_config: Option<ProtocolConfig>,
    ) -> (next: Result<(ChainState, PartialMmr), ChainStateError>)
        requires
            self.accepts(block@, protocol_config) ==> self.chain@.can_grow(),
        ensures
            next is Ok <==> self.accepts(block@, protocol_config),
            next matches Ok((next_chain, mmr)) ==> {
                &&& next_chain@ == self.advanced(block@, protocol_config)
                &&& next_chain@.is_fitting()
                &&& is_range_of(mmr, next_chain@)
            },
            next matches Err(error) ==> self.rejects(block@, protocol_config, error),
    {
        match self.chain.next_chain_tip(block, protocol_config, self.config.max_block_count) {
            Ok(next_chain) => {
                let mmr = next_chain.current_mmr();
                Ok((next_chain, mmr))
            },
            Err(error) => Err(error),
        }
    }

    /// The block extends the chain and comes with the configuration it needs.
    pub open spec fn accepts(
        &self,
        block: SignedBlockView,
        protocol_config: Option<ProtocolConfig>,
    ) -> bool {
        self.chain@.accepts(block, protocol_config)
    }

    /// The error names the first thing that is wrong with the block.
    pub open spec fn rejects(
        &self,
        block: SignedBlockView,
        protocol_config: Option<ProtocolConfig>,
        error: ChainStateError,
    ) -> bool {
        match error {
            ChainStateError::InvalidBlock(error) => block.rejected_with(self.chain@.tip, error),
            ChainStateError::ConfigCommitmentMismatch => block.extends(self.chain@.tip)
                && protocol_config is Some,
            ChainStateError::ConfigOmitted => block.extends(self.chain@.tip)
                && protocol_config is None,
        }
    }

    /// The snapshot after a block.
    pub open spec fn advanced(
        &self,
        block: SignedBlockView,
        protocol_config: Option<ProtocolConfig>,
    ) -> ChainView {
        self.chain@.advanced(block.header, protocol_config, self.config.max_block_count as nat)
    }
}

/// `mmr` is the mountain range under a snapshot.
pub open spec fn is_range_of(mmr: PartialMmr, chain: ChainView) -> bool {
    &&& mmr_leaves(mmr) == chain.leaves
    &&& mmr_peaks(mmr) == chain.peaks
    &&& mmr_tracked(mmr) == chain.positions
    &&& mmr_nodes(mmr) == chain.nodes
}

// EVENT LOOP
// ================================================================================================

impl<X: Services> NetworkTransactionBuilder<X> {
    /// The chain lags its tip by one block under the configuration of the tip and keeps nodes that
    /// belong to its peaks, accounts are exclusive, no limit is zero that must not be, and the loop
    /// waits for what fits its phase.
    pub open spec fn is_sound(self) -> bool {
        &&& self.chain@.lags_by_one()
        &&& self.chain@.config_is_active()
        &&& self.chain@.is_fitting()
        &&& self.scheduler@.is_exclusive()
        &&& self.scheduler.is_configured()
        &&& match self.stage {
            Stage::CatchingUp => !self.is_synced,
            Stage::WritingBlock { next_chain, .. } => {
                &&& next_chain@.lags_by_one()
                &&& next_chain@.config_is_active()
                &&& next_chain@.is_fitting()
                &&& next_chain@.tip.block_num == self.chain@.tip.block_num + 1
            },
            Stage::Running => self.is_synced,
            Stage::Selecting => self.is_synced,
            Stage::WritingNotes { build } => {
                &&& self.is_synced
                &&& !self.scheduler@.is_building(build.account_id)
                &&& !self.scheduler@.in_flight.contains_key(build.account_id)
            },
            Stage::Stopped => true,
        }
    }

    /// The event reports what was asked for: the effects are those of the block, builds are spawned
    /// for free accounts, and a build reports the account it was spawned for.
    pub open spec fn is_faithful(self, event: LoopEvent<X>) -> bool {
        &&& event matches LoopEvent::BlockWritten(Ok(effects)) ==> effects.header@
            == self.stage->next_chain@.tip
        &&& event matches LoopEvent::Spawned(Ok(spawned)) ==> self.scheduler@.can_spawn(spawned@)
        &&& event matches LoopEvent::Joined(Some((id, Ok(outcome)))) ==> outcome.account_id
            == self.scheduler@.running[id]
    }

    /// The event is one that the loop waits for.
    pub open spec fn expects(self, event: LoopEvent<X>) -> bool {
        match event {
            LoopEvent::Shutdown => self.stage is CatchingUp || self.stage is Running,
            LoopEvent::Block(item) => {
                &&& self.stage is CatchingUp || self.stage is Running
                &&& item matches Some(Ok(event)) ==> (self.accepts(
                    event.block@,
                    event.protocol_config,
                ) ==> self.chain@.can_grow())
            },
            LoopEvent::BlockWritten(_) => self.stage is WritingBlock,
            LoopEvent::Spawned(_) => self.stage is Selecting,
            LoopEvent::Joined(joined) => {
                &&& self.stage is Running
                &&& can_join(self.scheduler@.running, joined)
            },
            LoopEvent::NotesWritten(written) => {
                &&& self.stage matches Stage::WritingNotes { build }
                &&& written is Ok ==> build.expiration_fits(
                    self.scheduler.configuration().tx_expiration_delta,
                )
            },
        }
    }

    /// Nothing but what the loop waits for has changed.
    pub open spec fn waits_anew(self, after: Self) -> bool {
        self.reschedules(after, self.scheduler@)
    }

    /// Nothing but the state of the scheduler and what the loop waits for has changed.
    pub open spec fn reschedules(self, after: Self, scheduler: SchedulerView) -> bool {
        &&& after.config == self.config
        &&& after.last_applied_block == self.last_applied_block
        &&& after.chain == self.chain
        &&& after.scheduler@ == scheduler
        &&& after.scheduler.context() == self.scheduler.context()
        &&& after.scheduler.configuration() == self.scheduler.configuration()
        &&& after.is_synced == self.is_synced
    }

    /// The loop ends with an error and leaves everything else as it is.
    pub open spec fn fails_with(self, after: Self, step: LoopStep<X>, error: LoopError<X>) -> bool {
        &&& self.waits_anew(after)
        &&& after.stage is Stopped
        &&& step == LoopStep::Finish(Err(error))
    }

    /// The step asks for accounts to fill the free slots with builds on the published chain, or goes
    /// on waiting where no slot is free.
    pub open spec fn dispatches(self, step: LoopStep<X>) -> bool {
        match step {
            LoopStep::Select { query, chain } => {
                &&& self.stage is Selecting
                &&& chain@ == self.chain@
                &&& self.scheduler.asks(self.chain@.tip.block_num, Some(query))
            },
            LoopStep::NextEvent => {
                &&& self.stage is Running
                &&& self.scheduler.asks(self.chain@.tip.block_num, None)
            },
            _ => false,
        }
    }

    /// What an item of the block stream does. The chain stays as it is until the block is written.
    pub open spec fn takes_block(
        self,
        item: Option<Result<BlockSubscriptionEvent, X::Error>>,
        after: Self,
        step: LoopStep<X>,
    ) -> bool {
        match item {
            None => self.fails_with(after, step, LoopError::BlockStream(BlockStreamError::Ended)),
            Some(Err(error)) => self.fails_with(
                after,
                step,
                LoopError::BlockStream(BlockStreamError::Failed(error)),
            ),
            Some(Ok(event)) => if self.accepts(event.block@, event.protocol_config) {
                &&& self.waits_anew(after)
                &&& after.stage matches Stage::WritingBlock { next_chain, committed_tip }
                &&& next_chain@ == self.advanced(event.block@, event.protocol_config)
                &&& next_chain@.is_fitting()
                &&& committed_tip == event.committed_tip
                &&& step matches LoopStep::WriteBlock { block, mmr }
                &&& block == event.block
                &&& is_range_of(mmr, next_chain@)
            } else {
                &&& step matches LoopStep::Finish(Err(LoopError::Chain(error)))
                &&& self.rejects(event.block@, event.protocol_config, error)
                &&& self.waits_anew(after)
                &&& after.stage is Stopped
            },
        }
    }

    /// What the write of a block does: the snapshot is published, and once the chain has caught up
    /// in-flight transactions are resolved and free slots filled.
    pub open spec fn publishes(
        self,
        effects: CommittedBlockEffects<X::Note, X::AccountUpdate>,
        after: Self,
        step: LoopStep<X>,
    ) -> bool {
        &&& self.stage matches Stage::WritingBlock { next_chain, committed_tip }
        &&& after.config == self.config
        &&& after.chain == next_chain
        &&& after.last_applied_block == next_chain@.tip.block_num
        &&& after.is_synced == (self.is_synced || next_chain@.tip.block_num == committed_tip)
        &&& after.scheduler.context() == self.scheduler.context()
        &&& after.scheduler.configuration() == self.scheduler.configuration()
        &&& after.scheduler@ == if self.is_synced {
            self.scheduler@.after_block(
                effects.header@.block_num,
                effects.account_transactions@,
            )
        } else {
            self.scheduler@
        }
        &&& if after.is_synced {
            after.dispatches(step)
        } else {
            after.stage is CatchingUp && step is NextBlock
        }
    }

    /// What a joined build does.
    pub open spec fn takes_build(
        self,
        joined: Option<
            (TaskId, Result<NetworkTransactionOutcome<X::Error, X::Script>, X::JoinError>),
        >,
        after: Self,
        step: LoopStep<X>,
    ) -> bool {
        match joined {
            None => {
                &&& self.waits_anew(after)
                &&& after.stage is Running
                &&& step is NextEvent
            },
            Some((id, result)) => {
                &&& self.reschedules(
                    after,
                    SchedulerView {
                        running: self.scheduler@.running.remove(id),
                        ..self.scheduler@
                    },
                )
                &&& match result {
                    Ok(outcome) => {
                        &&& after.stage == (Stage::<X>::WritingNotes {
                            build: CompletedBuild {
                                account_id: outcome.account_id,
                                block_num: outcome.block_num,
                                result: outcome.result,
                            },
                        })
                        &&& step matches LoopStep::WriteNotes(writes)
                        &&& contents(writes@) == note_writes(
                            outcome.notes@,
                            outcome.block_num,
                            self.scheduler.context().config.max_note_attempts,
                        )
                    },
                    Err(join_error) => {
                        &&& after.stage is Stopped
                        &&& step == LoopStep::<X>::Finish(
                            Err(
                                LoopError::BuildLost {
                                    account_id: self.scheduler@.running[id],
                                    join_error,
                                },
                            ),
                        )
                    },
                }
            },
        }
    }

    /// What happens when a build was persisted: a submitted transaction is in flight, and the slot
    /// is refilled where that can help.
    pub open spec fn completes(self, after: Self, step: LoopStep<X>) -> bool {
        &&& self.stage matches Stage::WritingNotes { build }
        &&& self.reschedules(
            after,
            self.scheduler@.after_completion(
                build,
                self.scheduler.configuration().tx_expiration_delta,
            ),
        )
        &&& if build.refills() {
            after.dispatches(step)
        } else {
            after.stage is Running && step is NextEvent
        }
    }

    /// What an event does to the builder, and the step that follows it.
    pub open spec fn moves(self, event: LoopEvent<X>, after: Self, step: LoopStep<X>) -> bool {
        match event {
            LoopEvent::Shutdown => if self.stage is CatchingUp {
                &&& self.waits_anew(after)
                &&& after.stage is Stopped
                &&& step == LoopStep::<X>::Finish(Ok(()))
            } else {
                &&& self.reschedules(
                    after,
                    SchedulerView { running: Map::empty(), ..self.scheduler@ },
                )
                &&& after.stage is Stopped
                &&& step is AbortBuilds
            },
            LoopEvent::Block(item) => self.takes_block(item, after, step),
            LoopEvent::BlockWritten(Ok(effects)) => self.publishes(effects, after, step),
            LoopEvent::BlockWritten(Err(error)) => self.fails_with(
                after,
                step,
                LoopError::BlockNotWritten(error),
            ),
            LoopEvent::Spawned(Ok(spawned)) => {
                &&& self.reschedules(after, self.scheduler@.with_builds(spawned@))
                &&& after.stage is Running
                &&& step is NextEvent
            },
            LoopEvent::Spawned(Err(error)) => self.fails_with(
                after,
                step,
                LoopError::NotSelected(error),
            ),
            LoopEvent::Joined(joined) => self.takes_build(joined, after, step),
            LoopEvent::NotesWritten(Ok(())) => self.completes(after, step),
            LoopEvent::NotesWritten(Err(error)) => self.fails_with(
                after,
                step,
                LoopError::NotesNotWritten(error),
            ),
        }
    }

    /// Decides what follows an event. The first step of the loop is to wait for the next block.
    pub fn run_event_loop(&mut self, event: LoopEvent<X>) -> (step: LoopStep<X>)
        requires
            old(self).expects(event),
        ensures
            old(self).moves(event, *final(self), step),
    {
        let mut stage = Stage::Stopped;
        std::mem::swap(&mut self.stage, &mut stage);
        match event {
            LoopEvent::Shutdown => match stage {
                Stage::CatchingUp => LoopStep::Finish(Ok(())),
                _ => {
                    self.scheduler.shutdown();
                    LoopStep::AbortBuilds
                },
            },
            LoopEvent::Block(item) => match next_block(item) {
                Ok(event) => self.apply_committed_block_with_effects(event),
                Err(error) => LoopStep::Finish(Err(LoopError::BlockStream(error))),
            },
            LoopEvent::BlockWritten(written) => match stage {
                Stage::WritingBlock { next_chain, committed_tip } => {
                    self.finish_block(next_chain, committed_tip, written)
                },
                _ => LoopStep::Finish(Ok(())),
            },
            LoopEvent::Spawned(spawned) => match spawned {
                Ok(spawned) => {
                    self.scheduler.builds_spawned(spawned);
                    self.stage = Stage::Running;
                    LoopStep::NextEvent
                },
                Err(error) => LoopStep::Finish(Err(LoopError::NotSelected(error))),
            },
            LoopEvent::Joined(joined) => match self.scheduler.next_completion(joined) {
                // No build is running. Wait until one is spawned and completes.
                BuildCompletion::Idle => {
                    self.stage = Stage::Running;
                    LoopStep::NextEvent
                },
                BuildCompletion::Finished(outcome) => {
                    let (build, writes) = self.scheduler.handle_completion(outcome);
                    self.stage = Stage::WritingNotes { build };
                    LoopStep::WriteNotes(writes)
                },
                BuildCompletion::Lost { account_id, join_error } => LoopStep::Finish(
                    Err(LoopError::BuildLost { account_id, join_error }),
                ),
            },
            LoopEvent::NotesWritten(written) => match stage {
                Stage::WritingNotes { build } => {
                    match self.scheduler.finish_completion(build, written) {
                        Ok(refill) => if refill {
                            self.dispatch()
                        } else {
                            self.stage = Stage::Running;
                            LoopStep::NextEvent
                        },
                        Err(error) => LoopStep::Finish(Err(LoopError::NotesNotWritten(error))),
                    }
                },
                _ => LoopStep::Finish(Ok(())),
            },
        }
    }

    /// Builds the next snapshot for a block, to be published when the block is written.
    fn apply_committed_block_with_effects(&mut self, event: BlockSubscriptionEvent) -> (step: LoopStep<X>)
        requires
            old(self).accepts(event.block@, event.protocol_config)
                ==> old(self).chain@.can_grow(),
            old(self).stage is Stopped,
        ensures
            old(self).takes_block(Some(Ok(event)), *final(self), step),
    {
        let BlockSubscriptionEvent { block, committed_tip, protocol_config } = event;
        match self.apply_committed_block(&block, protocol_config) {
            Ok((next_chain, mmr)) => {
                self.stage = Stage::WritingBlock { next_chain, committed_tip };
                LoopStep::WriteBlock { block, mmr }
            },
            Err(error) => LoopStep::Finish(Err(LoopError::Chain(error))),
        }
    }

    /// Publishes a snapshot once its block was written, and decides how the loop goes on.
    fn finish_block(
        &mut self,
        next_chain: ChainState,
        committed_tip: BlockNumber,
        written: Result<CommittedBlockEffects<X::Note, X::AccountUpdate>, X::Error>,
    ) -> (step: LoopStep<X>)
        requires
            old(self).stage is Stopped,
        ensures
            ({
                let before = NetworkTransactionBuilder {
                    stage: Stage::WritingBlock { next_chain, committed_tip },
                    ..*old(self)
                };
                match written {
                    Ok(effects) => before.publishes(effects, *final(self), step),
                    Err(error) => before.fails_with(
                        *final(self),
                        step,
                        LoopError::BlockNotWritten(error),
                    ),
                }
            }),
    {
        let block_num = next_chain.chain_tip_header.block_num();
        let effects = match persist_and_publish_chain_state(&mut self.chain, next_chain, written) {
            Ok(effects) => effects,
            Err(error) => {
                return LoopStep::Finish(Err(LoopError::BlockNotWritten(error)));
            },
        };
        self.last_applied_block = block_num;
        if self.is_synced {
            self.scheduler.handle_committed_block(&effects);
            return self.dispatch();
        }
        if block_num == committed_tip {
            self.is_synced = true;
            return self.dispatch();
        }
        self.stage = Stage::CatchingUp;
        LoopStep::NextBlock
    }

    /// Fills the free slots, or goes on waiting where none is free.
    fn dispatch(&mut self) -> (step: LoopStep<X>)
        ensures
            old(self).waits_anew(*final(self)),
            final(self).dispatches(step),
    {
        match self.scheduler.dispatch(&self.chain) {
            Some(query) => {
                self.stage = Stage::Selecting;
                LoopStep::Select { query, chain: self.chain.clone() }
            },
            None => {
                self.stage = Stage::Running;
                LoopStep::NextEvent
            },
        }
    }
}

// LAWS
// ================================================================================================

/// A builder that starts with a chain that lags its tip by one block stays sound through every
/// event: the chain keeps the lag and the active configuration, and no account ever has two builds
/// or a build next to a transaction in flight.
pub proof fn law_events_keep_the_builder_sound<X: Services>(
    before: NetworkTransactionBuilder<X>,
    event: LoopEvent<X>,
    after: NetworkTransactionBuilder<X>,
    step: LoopStep<X>,
)
    requires
        before.is_sound(),
        before.expects(event),
        before.is_faithful(event),
        before.moves(event, after, step),
    ensures
        after.is_sound(),
{
    match event {
        LoopEvent::Shutdown => {},
        LoopEvent::Block(item) => {
            if let Some(Ok(block_event)) = item {
                let block = block_event.block@;
                let config = block_event.protocol_config;
                let max = before.config.max_block_count as nat;
                if before.accepts(block, config) {
                    law_growing_keeps_the_lag(before.chain@, block, config, max);
                    law_growing_keeps_the_config_active(before.chain@, block.header, config, max);
                }
            }
        },
        LoopEvent::BlockWritten(written) => {
            if let Ok(effects) = written {
                law_block_keeps_accounts_exclusive(
                    before.scheduler@,
                    effects.header@.block_num,
                    effects.account_transactions@,
                );
            }
        },
        LoopEvent::Spawned(spawned) => {
            if let Ok(spawned) = spawned {
                law_dispatch_keeps_accounts_exclusive(before.scheduler@, spawned@);
            }
        },
        LoopEvent::Joined(joined) => {
            if let Some((id, result)) = joined {
                let joined_state = SchedulerView {
                    running: before.scheduler@.running.remove(id),
                    ..before.scheduler@
                };
                assert forall|other: TaskId| #[trigger]
                    joined_state.running.contains_key(other) implies before.scheduler@.running.contains_key(
                other) && joined_state.running[other] == before.scheduler@.running[other] by {}
                if let Ok(outcome) = result {
                    law_completion_keeps_accounts_exclusive(
                        before.scheduler@,
                        id,
                        CompletedBuild {
                            account_id: outcome.account_id,
                            block_num: outcome.block_num,
                            result: outcome.result,
                        },
                        0,
                    );
                }
            }
        },
        LoopEvent::NotesWritten(written) => {
            if let Stage::WritingNotes { build } = before.stage {
                let state = before.scheduler@;
                assert forall|id: TaskId| #[trigger]
                    state.running.contains_key(id) implies state.running[id]
                    != build.account_id by {}
            }
        },
    }
}

/// The builder is in sync once the tip it applied is the tip that the node reported, not before,
/// and stays in sync.
pub proof fn law_sync_is_reached_once<X: Services>(
    before: NetworkTransactionBuilder<X>,
    event: LoopEvent<X>,
    after: NetworkTransactionBuilder<X>,
    step: LoopStep<X>,
)
    requires
        before.moves(event, after, step),
    ensures
        before.is_synced ==> after.is_synced,
        after.is_synced && !before.is_synced <==> {
            &&& event is BlockWritten
            &&& event->BlockWritten_0 is Ok
            &&& !before.is_synced
            &&& before.stage is WritingBlock
            &&& after.chain@.tip.block_num == before.stage->committed_tip
        },
{
}

/// While the builder catches up it asks for no accounts and leaves the scheduler alone.
pub proof fn law_nothing_is_built_before_sync<X: Services>(
    before: NetworkTransactionBuilder<X>,
    event: LoopEvent<X>,
    after: NetworkTransactionBuilder<X>,
    step: LoopStep<X>,
)
    requires
        before.is_sound(),
        before.expects(event),
        before.moves(event, after, step),
    ensures
        !after.is_synced ==> !(step is Select) && after.scheduler@ == before.scheduler@,
{
}

/// The published snapshot and the last applied block only ever change when a block was written,
/// and then to that block. A failed write leaves both as they are and ends the loop.
pub proof fn law_only_durable_blocks_are_published<X: Services>(
    before: NetworkTransactionBuilder<X>,
    event: LoopEvent<X>,
    after: NetworkTransactionBuilder<X>,
    step: LoopStep<X>,
)
    requires
        before.moves(event, after, step),
    ensures
        !(event is BlockWritten && event->BlockWritten_0 is Ok) ==> after.chain == before.chain
            && after.last_applied_block == before.last_applied_block,
        event is BlockWritten && event->BlockWritten_0 is Ok ==> after.chain
            == before.stage->next_chain && after.last_applied_block == after.chain@.tip.block_num,
        event is BlockWritten && event->BlockWritten_0 is Err ==> after.stage is Stopped
            && step is Finish,
{
}

/// The chain never goes back: its tip stays or moves to the next block.
pub proof fn law_tip_never_goes_back<X: Services>(
    before: NetworkTransactionBuilder<X>,
    event: LoopEvent<X>,
    after: NetworkTransactionBuilder<X>,
    step: LoopStep<X>,
)
    requires
        before.is_sound(),
        before.expects(event),
        before.moves(event, after, step),
    ensures
        after.chain@.tip.block_num == before.chain@.tip.block_num || after.chain@.tip.block_num
            == before.chain@.tip.block_num + 1,
{
}

/// Once in sync, no transaction stays in flight past the block at which it expires.
pub proof fn law_no_entry_outlives_its_expiration<X: Services>(
    before: NetworkTransactionBuilder<X>,
    event: LoopEvent<X>,
    after: NetworkTransactionBuilder<X>,
    step: LoopStep<X>,
    account_id: AccountId,
)
    requires
        before.is_faithful(event),
        before.moves(event, after, step),
        before.is_synced,
        event is BlockWritten,
        event->BlockWritten_0 is Ok,
        after.scheduler@.in_flight.contains_key(account_id),
    ensures
        after.chain@.tip.block_num < after.scheduler@.in_flight[account_id].expires_at,
{
}

/// The loop ends with the step that returns or aborts the builds, and a loop that has ended waits
/// for nothing.
pub proof fn law_loop_ends_once<X: Services>(
    before: NetworkTransactionBuilder<X>,
    event: LoopEvent<X>,
    after: NetworkTransactionBuilder<X>,
    step: LoopStep<X>,
    next: LoopEvent<X>,
)
    requires
        before.expects(event),
        before.moves(event, after, step),
    ensures
        after.stage is Stopped <==> step is Finish || step is AbortBuilds,
        after.stage is Stopped ==> !after.expects(next),
{
}

/// Once in sync, every written block fills the free slots, whatever transactions are in flight:
/// where fewer builds run than there are slots the step selects as many accounts as slots are free,
/// for builds on the block that was written. Only where no slot is free does the loop just wait.
pub proof fn law_every_block_in_sync_fills_the_free_slots<X: Services>(
    before: NetworkTransactionBuilder<X>,
    event: LoopEvent<X>,
    after: NetworkTransactionBuilder<X>,
    step: LoopStep<X>,
)
    requires
        before.moves(event, after, step),
        event is BlockWritten,
        event->BlockWritten_0 is Ok,
        after.is_synced,
    ensures
        ({
            let running = after.scheduler@.running.dom().len();
            let slots = before.scheduler.configuration().max_concurrent_txs;
            &&& running < slots <==> step is Select
            &&& running >= slots <==> step is NextEvent
            &&& step is Select ==> {
                &&& after.stage is Selecting
                &&& step->query.limit == slots - running
                &&& step->query.block_num == after.chain@.tip.block_num
                &&& step->query.priority_accounts@
                    == before.scheduler.configuration().priority_accounts@
                &&& step->query.max_note_attempts
                    == before.scheduler.context().config.max_note_attempts
                &&& step->Select_chain@ == after.chain@
            }
            &&& step is NextEvent ==> after.stage is Running
        }),
{
}

/// Accounts are only ever selected once the builder is in sync, and a selection excludes exactly
/// the accounts that a build runs for and those with a transaction in flight.
pub proof fn law_selection_excludes_busy_accounts<X: Services>(
    before: NetworkTransactionBuilder<X>,
    event: LoopEvent<X>,
    after: NetworkTransactionBuilder<X>,
    step: LoopStep<X>,
    account_id: AccountId,
)
    requires
        before.moves(event, after, step),
        step is Select,
    ensures
        event is BlockWritten || event is NotesWritten,
        step->query.busy@.contains(account_id) <==> (exists|id: TaskId| #[trigger]
            after.scheduler@.running.contains_key(id) && after.scheduler@.running[id]
                == account_id) || after.scheduler@.in_flight.contains_key(account_id),
        step->query.busy@.len() == after.scheduler@.running.dom().len()
            + after.scheduler@.in_flight.dom().len(),
{
    law_query_excludes_builds_and_transactions(
        after.scheduler,
        after.chain@.tip.block_num,
        step->query,
        account_id,
    );
}

/// A written block is published: the chain moves to the snapshot that was built for it, and the
/// local tip is compared with the tip that the node reported. Builds go on. In sync, an account
/// stays in flight exactly where the block does not commit its transaction and comes before the
/// block at which the transaction expires. While catching up, nothing is resolved.
pub proof fn law_written_block_is_published_and_resolved<X: Services>(
    before: NetworkTransactionBuilder<X>,
    effects: CommittedBlockEffects<X::Note, X::AccountUpdate>,
    after: NetworkTransactionBuilder<X>,
    step: LoopStep<X>,
    account_id: AccountId,
)
    requires
        before.moves(LoopEvent::BlockWritten(Ok(effects)), after, step),
    ensures
        before.stage is WritingBlock,
        after.chain == before.stage->next_chain,
        after.last_applied_block == before.stage->next_chain@.tip.block_num,
        after.is_synced <==> before.is_synced || before.stage->next_chain@.tip.block_num
            == before.stage->committed_tip,
        after.scheduler@.running == before.scheduler@.running,
        before.is_synced ==> {
            let entry = before.scheduler@.in_flight[account_id];
            &&& after.scheduler@.in_flight.contains_key(account_id) <==> {
                &&& before.scheduler@.in_flight.contains_key(account_id)
                &&& effects.header@.block_num < entry.expires_at
                &&& !effects.account_transactions@.contains((account_id, entry.tx_id))
            }
            &&& after.scheduler@.in_flight.contains_key(account_id)
                ==> after.scheduler@.in_flight[account_id] == entry
        },
        !before.is_synced ==> after.scheduler@.in_flight == before.scheduler@.in_flight,
        !after.is_synced ==> step is NextBlock && after.stage is CatchingUp,
{
}

/// Whatever happens, the configuration and the resources stay as they are, and whether the builder
/// is in sync, the chain and the last applied block only change with a written block.
pub proof fn law_events_keep_the_configuration<X: Services>(
    before: NetworkTransactionBuilder<X>,
    event: LoopEvent<X>,
    after: NetworkTransactionBuilder<X>,
    step: LoopStep<X>,
)
    requires
        before.moves(event, after, step),
    ensures
        after.config == before.config,
        after.scheduler.context() == before.scheduler.context(),
        after.scheduler.configuration() == before.scheduler.configuration(),
        !(event is BlockWritten) ==> after.is_synced == before.is_synced && after.chain
            == before.chain && after.last_applied_block == before.last_applied_block,
        event is Block || event is BlockWritten ==> after.scheduler@.running
            == before.scheduler@.running,
        !(event is BlockWritten) && !(event is NotesWritten) ==> after.scheduler@.in_flight
            == before.scheduler@.in_flight,
{
}

/// A block that extends the chain, with a configuration that its header commits to, is handed out
/// to be written together with the range that goes with it, and the snapshot waits for that write.
pub proof fn law_next_block_is_written_before_it_is_published<X: Services>(
    before: NetworkTransactionBuilder<X>,
    event: BlockSubscriptionEvent,
    after: NetworkTransactionBuilder<X>,
    step: LoopStep<X>,
)
    requires
        before.moves(LoopEvent::Block(Some(Ok(event))), after, step),
        event.block@.extends(before.chain@.tip),
        event.block@.header.protocol_config_commitment == match event.protocol_config {
            Some(config) => config.commitment@,
            None => before.chain@.protocol_config.commitment@,
        },
    ensures
        step is WriteBlock,
        step->block == event.block,
        after.stage is WritingBlock,
        after.stage->committed_tip == event.committed_tip,
        ({
            let next = after.stage->next_chain@;
            &&& next == before.chain@.advanced(
                event.block@.header,
                event.protocol_config,
                before.config.max_block_count as nat,
            )
            &&& next.tip == event.block@.header
            &&& next.leaves == before.chain@.leaves + 1
            &&& mmr_leaves(step->mmr) == next.leaves
            &&& mmr_peaks(step->mmr) == next.peaks
            &&& mmr_tracked(step->mmr) == next.positions
            &&& mmr_nodes(step->mmr) == next.nodes
        }),
        after.chain == before.chain,
        after.scheduler@ == before.scheduler@,
{
}

/// A block that does not extend the chain, or comes without the configuration that its header
/// commits to, ends the loop with an error that says which, and changes nothing.
pub proof fn law_other_block_ends_the_loop<X: Services>(
    before: NetworkTransactionBuilder<X>,
    event: BlockSubscriptionEvent,
    after: NetworkTransactionBuilder<X>,
    step: LoopStep<X>,
)
    requires
        before.moves(LoopEvent::Block(Some(Ok(event))), after, step),
        !event.block@.extends(before.chain@.tip) || event.block@.header.protocol_config_commitment
            != match event.protocol_config {
            Some(config) => config.commitment@,
            None => before.chain@.protocol_config.commitment@,
        },
    ensures
        step matches LoopStep::Finish(Err(LoopError::Chain(error))) && {
            &&& error is InvalidBlock <==> !event.block@.extends(before.chain@.tip)
            &&& error matches ChainStateError::InvalidBlock(cause) ==> event.block@.rejected_with(
                before.chain@.tip,
                cause,
            )
            &&& error is ConfigCommitmentMismatch ==> event.protocol_config is Some
            &&& error is ConfigOmitted ==> event.protocol_config is None
        },
        after.stage is Stopped,
        after.chain == before.chain,
        after.scheduler@ == before.scheduler@,
{
    if let LoopStep::Finish(Err(LoopError::Chain(ChainStateError::InvalidBlock(cause)))) = step {
        law_rejection_names_the_first_fault(event.block@, before.chain@.tip, cause);
    }
}

/// A block stream that ends or fails ends the loop with that error. So does a write or a selection
/// that fails. Nothing else changes.
pub proof fn law_failures_outside_end_the_loop<X: Services>(
    before: NetworkTransactionBuilder<X>,
    event: LoopEvent<X>,
    after: NetworkTransactionBuilder<X>,
    step: LoopStep<X>,
)
    requires
        before.moves(event, after, step),
        match event {
            LoopEvent::Block(item) => !(item matches Some(Ok(_))),
            LoopEvent::BlockWritten(written) => written is Err,
            LoopEvent::Spawned(spawned) => spawned is Err,
            LoopEvent::NotesWritten(written) => written is Err,
            _ => false,
        },
    ensures
        step == LoopStep::<X>::Finish(
            Err(
                match event {
                    LoopEvent::Block(Some(Err(error))) => LoopError::BlockStream(
                        BlockStreamError::Failed(error),
                    ),
                    LoopEvent::BlockWritten(Err(error)) => LoopError::BlockNotWritten(error),
                    LoopEvent::Spawned(Err(error)) => LoopError::NotSelected(error),
                    LoopEvent::NotesWritten(Err(error)) => LoopError::NotesNotWritten(error),
                    _ => LoopError::BlockStream(BlockStreamError::Ended),
                },
            ),
        ),
        after.stage is Stopped,
        after.chain == before.chain,
        after.last_applied_block == before.last_applied_block,
        after.is_synced == before.is_synced,
        after.scheduler@ == before.scheduler@,
{
}

/// A shutdown request ends the loop without an error: at once while the builder catches up, and by
/// aborting the builds afterwards. The transactions in flight stay.
pub proof fn law_shutdown_ends_the_loop<X: Services>(
    before: NetworkTransactionBuilder<X>,
    after: NetworkTransactionBuilder<X>,
    step: LoopStep<X>,
)
    requires
        before.moves(LoopEvent::Shutdown, after, step),
    ensures
        before.stage is CatchingUp ==> step == LoopStep::<X>::Finish(Ok(())) && after.scheduler@
            == before.scheduler@,
        !(before.stage is CatchingUp) ==> step is AbortBuilds && after.scheduler@.running
            == Map::<TaskId, AccountId>::empty() && after.scheduler@.in_flight
            == before.scheduler@.in_flight,
        after.stage is Stopped,
{
}

/// Spawned builds run next to those that ran, each for its account, and the loop goes on waiting.
pub proof fn law_spawned_builds_are_running<X: Services>(
    before: NetworkTransactionBuilder<X>,
    spawned: Vec<(TaskId, AccountId)>,
    after: NetworkTransactionBuilder<X>,
    step: LoopStep<X>,
    id: TaskId,
    i: int,
)
    requires
        before.moves(LoopEvent::Spawned(Ok(spawned)), after, step),
    ensures
        step is NextEvent,
        after.stage is Running,
        after.scheduler@.in_flight == before.scheduler@.in_flight,
        (forall|j: int| 0 <= j < spawned@.len() ==> (#[trigger] spawned@[j]).0 != id) ==> {
            &&& after.scheduler@.running.contains_key(id)
                <==> before.scheduler@.running.contains_key(id)
            &&& before.scheduler@.running.contains_key(id) ==> after.scheduler@.running[id]
                == before.scheduler@.running[id]
        },
        0 <= i < spawned@.len() && spawned@[i].0 == id && (forall|j: int|
            i < j < spawned@.len() ==> (#[trigger] spawned@[j]).0 != id) ==> {
            &&& after.scheduler@.running.contains_key(id)
            &&& after.scheduler@.running[id] == spawned@[i].1
        },
{
    law_spawned_builds_run_next_to_the_others(before.scheduler@, spawned@, id, i);
}

/// A build that reports its outcome frees its slot, and what it found out is written before
/// anything else: every list that is not empty, at the block of the build, and each script. How it
/// ended is kept for afterwards.
pub proof fn law_finished_build_is_persisted_first<X: Services>(
    before: NetworkTransactionBuilder<X>,
    id: TaskId,
    outcome: NetworkTransactionOutcome<X::Error, X::Script>,
    after: NetworkTransactionBuilder<X>,
    step: LoopStep<X>,
)
    requires
        before.moves(LoopEvent::Joined(Some((id, Ok(outcome)))), after, step),
    ensures
        after.scheduler@.running == before.scheduler@.running.remove(id),
        after.scheduler@.in_flight == before.scheduler@.in_flight,
        after.stage is WritingNotes,
        after.stage->build.account_id == outcome.account_id,
        after.stage->build.block_num == outcome.block_num,
        after.stage->build.result == outcome.result,
        step matches LoopStep::WriteNotes(writes) && {
            let lists: int = (if outcome.notes.eligibility@.len() > 0 {
                1int
            } else {
                0
            }) + (if outcome.notes.failed@.len() > 0 {
                1int
            } else {
                0
            }) + (if outcome.notes.discarded@.len() > 0 {
                1int
            } else {
                0
            });
            &&& writes@.len() == lists + outcome.notes.scripts@.len()
            &&& forall|i: int|
                0 <= i < writes@.len() ==> match #[trigger] writes@[i] {
                    NoteWrite::UpdateEligibility { eligibility } => eligibility@
                        == outcome.notes.eligibility@,
                    NoteWrite::NotesFailed { failed, block_num } => failed@
                        == outcome.notes.failed@ && block_num == outcome.block_num,
                    NoteWrite::DiscardNotes { discarded, block_num, max_note_attempts } => {
                        discarded@ == outcome.notes.discarded@ && block_num == outcome.block_num
                            && max_note_attempts
                            == before.scheduler.context().config.max_note_attempts
                    },
                    NoteWrite::InsertNoteScript { script_root, script } => {
                        outcome.notes.scripts@.contains((script_root, script))
                    },
                }
        },
{
    let max = before.scheduler.context().config.max_note_attempts;
    law_writes_come_in_order(outcome.notes@, outcome.block_num, max);
    if let LoopStep::WriteNotes(writes) = step {
        assert(contents(writes@).len() == writes@.len());
        assert forall|i: int| 0 <= i < writes@.len() implies match #[trigger] writes@[i] {
            NoteWrite::UpdateEligibility { eligibility } => eligibility@
                == outcome.notes.eligibility@,
            NoteWrite::NotesFailed { failed, block_num } => failed@ == outcome.notes.failed@
                && block_num == outcome.block_num,
            NoteWrite::DiscardNotes { discarded, block_num, max_note_attempts } => discarded@
                == outcome.notes.discarded@ && block_num == outcome.block_num && max_note_attempts
                == max,
            NoteWrite::InsertNoteScript { script_root, script } => outcome.notes.scripts@.contains(
                (script_root, script),
            ),
        } by {
            law_every_write_is_called_for(outcome.notes@, outcome.block_num, max, i);
            law_writes_show_what_they_hold(writes@, i);
        }
    }
}

/// A build that panicked ends the loop with an error that names the account of the build. Where no
/// build is running, nothing happens.
pub proof fn law_lost_build_ends_the_loop<X: Services>(
    before: NetworkTransactionBuilder<X>,
    id: TaskId,
    join_error: X::JoinError,
    after: NetworkTransactionBuilder<X>,
    step: LoopStep<X>,
)
    ensures
        before.moves(LoopEvent::Joined(Some((id, Err(join_error)))), after, step) ==> {
            &&& step == LoopStep::<X>::Finish(
                Err(
                    LoopError::BuildLost {
                        account_id: before.scheduler@.running[id],
                        join_error,
                    },
                ),
            )
            &&& after.stage is Stopped
            &&& after.scheduler@.in_flight == before.scheduler@.in_flight
        },
        before.moves(LoopEvent::Joined(None), after, step) ==> {
            &&& step is NextEvent
            &&& after.stage is Running
            &&& after.scheduler@ == before.scheduler@
        },
{
}

/// Once a build is persisted, a transaction that it submitted is in flight until the block of the
/// build plus the configured number of blocks, and no other account is touched. After a submission
/// or a failure every free slot is filled, and otherwise the loop just waits.
pub proof fn law_persisted_build_refills_its_slot<X: Services>(
    before: NetworkTransactionBuilder<X>,
    after: NetworkTransactionBuilder<X>,
    step: LoopStep<X>,
    other: AccountId,
)
    requires
        before.moves(LoopEvent::NotesWritten(Ok(())), after, step),
        before.expects(LoopEvent::NotesWritten(Ok(()))),
    ensures
        ({
            let build = before.stage->build;
            let delta = before.scheduler.configuration().tx_expiration_delta;
            let slots = before.scheduler.configuration().max_concurrent_txs;
            let running = before.scheduler@.running.dom().len();
            &&& before.stage is WritingNotes
            &&& after.scheduler@.running == before.scheduler@.running
            &&& build.result matches NetworkTransactionResult::Submitted { tx_id } ==> {
                &&& after.scheduler@.in_flight.contains_key(build.account_id)
                &&& after.scheduler@.in_flight[build.account_id].tx_id == tx_id
                &&& after.scheduler@.in_flight[build.account_id].expires_at == build.block_num
                    + delta
            }
            &&& !(build.result is Submitted) ==> after.scheduler@.in_flight
                == before.scheduler@.in_flight
            &&& other != build.account_id ==> {
                &&& after.scheduler@.in_flight.contains_key(other)
                    <==> before.scheduler@.in_flight.contains_key(other)
                &&& before.scheduler@.in_flight.contains_key(other)
                    ==> after.scheduler@.in_flight[other] == before.scheduler@.in_flight[other]
            }
            &&& step is Select <==> (build.result is Submitted || build.result is Failed) && running
                < slots
            &&& step is Select ==> {
                &&& after.stage is Selecting
                &&& step->query.limit == slots - running
                &&& step->query.block_num == before.chain@.tip.block_num
                &&& step->query.priority_accounts@
                    == before.scheduler.configuration().priority_accounts@
                &&& step->Select_chain@ == before.chain@
            }
            &&& !(step is Select) ==> step is NextEvent && after.stage is Running
        }),
{
}

/// The loop waits for what its stage asks for: a shutdown request or a block while it catches up or
/// runs, a build only while it runs, and the answer to what it asked for otherwise. A block must
/// find a chain that can take it only where it is accepted.
pub proof fn law_loop_waits_for_what_it_asked_for<X: Services>(
    builder: NetworkTransactionBuilder<X>,
    event: LoopEvent<X>,
)
    ensures
        event is Shutdown ==> (builder.expects(event) <==> builder.stage is CatchingUp
            || builder.stage is Running),
        event matches LoopEvent::Block(item) ==> (builder.expects(event) <==> (
        builder.stage is CatchingUp || builder.stage is Running) && (item matches Some(
            Ok(next),
        ) ==> (builder.chain@.accepts(next.block@, next.protocol_config)
            ==> builder.chain@.can_grow()))),
        event is BlockWritten ==> (builder.expects(event) <==> builder.stage is WritingBlock),
        event is Spawned ==> (builder.expects(event) <==> builder.stage is Selecting),
        event matches LoopEvent::Joined(joined) ==> (builder.expects(event)
            <==> builder.stage is Running && can_join(builder.scheduler@.running, joined)),
        event matches LoopEvent::NotesWritten(written) ==> (builder.expects(event)
            <==> builder.stage is WritingNotes && (written is Ok
            ==> builder.stage->build.expiration_fits(
            builder.scheduler.configuration().tx_expiration_delta,
        ))),
{
}

/// A sound builder keeps its chain right behind its tip and under the tip's configuration, and no
/// account has two builds or a build next to a transaction in flight. It waits for blocks alone
/// until it is in sync, and for builds only afterwards.
pub proof fn law_sound_builder_means_what_it_says<X: Services>(
    builder: NetworkTransactionBuilder<X>,
    a: TaskId,
    b: TaskId,
)
    requires
        builder.is_sound(),
    ensures
        builder.chain@.leaves == builder.chain@.tip.block_num,
        builder.chain@.tip.protocol_config_commitment
            == builder.chain@.protocol_config.commitment@,
        builder.scheduler@.running.contains_key(a) ==> !builder.scheduler@.in_flight.contains_key(
            builder.scheduler@.running[a],
        ),
        builder.scheduler@.running.contains_key(a) && builder.scheduler@.running.contains_key(b)
            && a != b ==> builder.scheduler@.running[a] != builder.scheduler@.running[b],
        builder.stage is CatchingUp ==> !builder.is_synced,
        builder.stage is Running || builder.stage is Selecting || builder.stage is WritingNotes
            ==> builder.is_synced,
{
}

/// An error of the loop says what failed: where it has a cause of its own, in the words of that
/// cause, and a lost build under its account.
pub proof fn law_loop_error_says_what_failed<X: Services>(
    cause: X::Error,
    chain: ChainStateError,
    account_id: AccountId,
    join_error: X::JoinError,
    write: NoteWriteError<X::Error>,
)
    ensures
        LoopError::<X>::BlockStream(BlockStreamError::Ended).text() == "block stream ended"@,
        LoopError::<X>::BlockStream(BlockStreamError::Failed(cause)).text()
            == "block stream failed"@,
        LoopError::<X>::Chain(chain).text() == chain.text(),
        LoopError::<X>::BlockNotWritten(cause).text() == "failed to apply committed block to DB"@,
        LoopError::<X>::NotSelected(cause).text()
            == "failed to query accounts ready for a network transaction"@,
        (LoopError::<X>::BuildLost { account_id, join_error }).text()
            == "network transaction build failed for account "@ + account_text(account_id),
        LoopError::<X>::NotesNotWritten(write).text() == write.text(),
{
}

} // verus!
