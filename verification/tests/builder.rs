use std::time::Duration;

use miden_protocol::account::AccountId as RawAccountId;
use miden_protocol::block::{
    BlockBody, BlockHeader as RawHeader, FeeParameters, SignedBlock as RawBlock,
};
use miden_protocol::crypto::dsa::ecdsa_k256_keccak::SigningKey;
use miden_protocol::crypto::merkle::mmr::PartialMmr;
use miden_protocol::transaction::OrderedTransactionHeaders;
use miden_protocol::utils::serde::{Deserializable, Serializable};
use miden_protocol::Word as RawWord;
use ntx_builder::builder::{
    next_block, persist_and_publish_chain_state, BlockStreamError, BlockSubscriptionEvent,
    LoopError, LoopEvent, LoopStep, NetworkTransactionBuilder, NtxBuilderConfig,
};
use ntx_builder::chain_state::{ChainState, ChainStateError, ProtocolConfig};
use ntx_builder::committed_block::CommittedBlockEffects;
use ntx_builder::network_transaction::{
    GrpcClients, NetworkTransactionConfig, NetworkTransactionContext, NetworkTransactionOutcome,
    NetworkTransactionResult, NoteUpdates, Services,
};
use ntx_builder::protocol::{BlockHeader, SignedBlock, SignedBlockError};
use ntx_builder::scheduler::{NoteWriteError, NoteWriteKind, Scheduler, SchedulerConfig};
use ntx_builder::word::{AccountId, Word};

struct Mock;

impl Services for Mock {
    type Rpc = ();
    type Prover = ();
    type Db = ();
    type ScriptCache = ();
    type TxArgs = ();
    type Script = ();
    type Note = ();
    type AccountUpdate = ();
    type Error = &'static str;
    type JoinError = &'static str;
}

type Builder = NetworkTransactionBuilder<Mock>;
type Event = LoopEvent<Mock>;
type Step = LoopStep<Mock>;

const ACCOUNT: AccountId = 7;

fn config() -> ProtocolConfig {
    ProtocolConfig { commitment: Word::new([1, 2, 3, 4]), encoded: vec![] }
}

fn signer() -> SigningKey {
    SigningKey::read_from_bytes(&[1; 32]).unwrap()
}

fn empty_body() -> BlockBody {
    BlockBody::new_unchecked(
        vec![],
        vec![],
        vec![],
        OrderedTransactionHeaders::new_unchecked(vec![]),
    )
}

/// The headers of a chain of the given length.
fn raw_chain(length: u32) -> Vec<RawHeader> {
    let mut raws: Vec<RawHeader> = Vec::new();
    for number in 0..length {
        let parent = raws.last().map(|raw| raw.commitment()).unwrap_or_default();
        raws.push(RawHeader::new(
            1,
            parent,
            number.into(),
            RawWord::default(),
            RawWord::default(),
            RawWord::default(),
            empty_body().compute_block_note_tree().root(),
            empty_body().transaction_commitment(),
            RawWord::default(),
            signer().public_key(),
            FeeParameters::new((1_u128 << 64).try_into().unwrap(), 0),
            number,
        ));
    }
    raws
}

fn header(raw: &RawHeader) -> BlockHeader {
    BlockHeader::read_from_bytes(raw.to_bytes(), config().commitment).unwrap()
}

/// The event that delivers a block of the chain.
fn block_event(raw: &RawHeader, committed_tip: u32) -> Event {
    let signature = signer().sign(raw.commitment());
    let block = RawBlock::new_unchecked(raw.clone(), empty_body(), signature);
    LoopEvent::Block(Some(Ok(BlockSubscriptionEvent {
        block: SignedBlock::read_from_bytes(block.to_bytes(), config().commitment).unwrap(),
        committed_tip,
        protocol_config: None,
    })))
}

/// The event that reports a block as written.
fn written(raw: &RawHeader, transactions: Vec<(AccountId, Word)>) -> Event {
    LoopEvent::BlockWritten(Ok(CommittedBlockEffects {
        header: header(raw),
        network_notes: vec![],
        sponsorship_notes: vec![],
        nullifiers: vec![],
        network_account_updates: vec![],
        account_transactions: transactions,
    }))
}

fn builder(raws: &[RawHeader], max_concurrent_txs: usize) -> Builder {
    let ctx = NetworkTransactionContext {
        clients: GrpcClients { rpc: (), prover: () },
        db: (),
        script_cache: (),
        tx_args: (),
        config: NetworkTransactionConfig {
            max_notes_per_tx: 20,
            max_note_attempts: 30,
            max_cycles: 1 << 18,
            request_backoff_initial: Duration::from_millis(1),
            request_backoff_max: Duration::from_millis(10),
        },
    };
    let scheduler = Scheduler::new(
        ctx,
        SchedulerConfig {
            max_concurrent_txs,
            tx_expiration_delta: 30,
            priority_accounts: vec![],
        },
    );
    let chain = ChainState::new(header(&raws[0]), PartialMmr::default(), config());
    NetworkTransactionBuilder::new(
        NtxBuilderConfig {
            max_block_count: 4,
            max_note_attempts: 30,
            grpc_timeout: Duration::from_secs(10),
        },
        0,
        chain,
        scheduler,
    )
}

fn outcome(
    result: NetworkTransactionResult<&'static str>,
) -> NetworkTransactionOutcome<&'static str, ()> {
    NetworkTransactionOutcome {
        account_id: ACCOUNT,
        block_num: 1,
        notes: NoteUpdates::default(),
        result,
    }
}

/// A builder in sync at block 1 that waits for events, with one build running.
fn synced(raws: &[RawHeader], max_concurrent_txs: usize) -> Builder {
    let mut builder = builder(raws, max_concurrent_txs);
    builder.run_event_loop(block_event(&raws[1], 1));
    let step = builder.run_event_loop(written(&raws[1], vec![]));
    assert!(matches!(step, LoopStep::Select { .. }));
    let step = builder.run_event_loop(LoopEvent::Spawned(Ok(vec![(1, ACCOUNT)])));
    assert!(matches!(step, LoopStep::NextEvent));
    builder
}

/// A failed database transaction must leave the published chain snapshot unchanged.
#[test]
fn failed_database_write_does_not_publish_chain_snapshot() {
    let raws = raw_chain(2);
    let mut chain = ChainState::new(header(&raws[0]), PartialMmr::default(), config());
    let next = chain.next_tip_from_header(header(&raws[1]), None, 4).ok().unwrap();

    persist_and_publish_chain_state::<(), _>(&mut chain, next, Err("write failed"))
        .expect_err("a post-genesis account update without a transaction must fail");

    assert_eq!(chain.chain_tip_header.block_num(), 0);

    let next = chain.next_tip_from_header(header(&raws[1]), None, 4).ok().unwrap();
    assert_eq!(persist_and_publish_chain_state::<_, ()>(&mut chain, next, Ok(5)), Ok(5));
    assert_eq!(chain.chain_tip_header.block_num(), 1);
}

#[test]
fn failed_write_ends_the_loop_on_the_old_snapshot() {
    let raws = raw_chain(2);
    let mut builder = builder(&raws, 4);
    let step = builder.run_event_loop(block_event(&raws[1], 1));
    assert!(matches!(step, LoopStep::WriteBlock { .. }));
    let step = builder.run_event_loop(LoopEvent::BlockWritten(Err("disk full")));
    assert!(matches!(step, LoopStep::Finish(Err(LoopError::BlockNotWritten("disk full")))));
    assert_eq!(builder.chain.chain_tip_header.block_num(), 0);
    assert_eq!(builder.last_applied_block, 0);
    assert!(!builder.is_synced());
}

#[test]
fn catch_up_builds_nothing_until_the_tip_is_reached() {
    let raws = raw_chain(4);
    let mut builder = builder(&raws, 4);
    for number in 1..4 {
        assert!(!builder.is_synced());
        let step = builder.run_event_loop(block_event(&raws[number], 3));
        match step {
            LoopStep::WriteBlock { block, mmr } => {
                assert_eq!(block.header().block_num(), number as u32);
                assert_eq!(mmr.num_leaves(), number);
            },
            _ => panic!("the block is written"),
        }
        // The snapshot is not published before the write.
        assert_eq!(builder.chain.chain_tip_header.block_num(), number as u32 - 1);
        let step = builder.run_event_loop(written(&raws[number], vec![]));
        assert_eq!(builder.chain.chain_tip_header.block_num(), number as u32);
        assert_eq!(builder.last_applied_block, number as u32);
        if number < 3 {
            assert!(matches!(step, LoopStep::NextBlock));
        } else {
            match step {
                LoopStep::Select { query, chain } => {
                    assert_eq!(chain.chain_tip_header.block_num(), 3);
                    assert_eq!(query.block_num, 3);
                    assert_eq!(query.limit, 4);
                },
                _ => panic!("the free slots are filled"),
            }
        }
    }
    assert!(builder.is_synced());
}

#[test]
fn builder_without_slots_waits_for_events_once_in_sync() {
    let raws = raw_chain(2);
    let mut builder = builder(&raws, 0);
    builder.run_event_loop(block_event(&raws[1], 1));
    let step = builder.run_event_loop(written(&raws[1], vec![]));
    assert!(matches!(step, LoopStep::NextEvent));
    assert!(builder.is_synced());
}

#[test]
fn broken_block_ends_the_loop() {
    let raws = raw_chain(3);
    let mut builder = builder(&raws, 4);
    let step = builder.run_event_loop(block_event(&raws[2], 2));
    assert!(matches!(
        step,
        LoopStep::Finish(Err(LoopError::Chain(ChainStateError::InvalidBlock(
            SignedBlockError::ParentNumberMismatch { expected: 1, parent: 0 }
        ))))
    ));
    assert_eq!(builder.chain.chain_tip_header.block_num(), 0);
}

#[test]
fn block_stream_errors_end_the_loop() {
    let raws = raw_chain(1);
    let step: Step = builder(&raws, 4).run_event_loop(LoopEvent::Block(None));
    assert!(matches!(
        step,
        LoopStep::Finish(Err(LoopError::BlockStream(BlockStreamError::Ended)))
    ));
    let step = builder(&raws, 4).run_event_loop(LoopEvent::Block(Some(Err("unreachable"))));
    assert!(matches!(
        step,
        LoopStep::Finish(Err(LoopError::BlockStream(BlockStreamError::Failed("unreachable"))))
    ));
}

#[test]
fn block_stream_items_are_passed_on() {
    assert!(matches!(next_block::<u8, u8>(Some(Ok(1))), Ok(1)));
    assert!(matches!(next_block::<u8, u8>(Some(Err(2))), Err(BlockStreamError::Failed(2))));
    assert!(matches!(next_block::<u8, u8>(None), Err(BlockStreamError::Ended)));
}

#[test]
fn shutdown_while_catching_up_returns_at_once() {
    let raws = raw_chain(1);
    let step = builder(&raws, 4).run_event_loop(LoopEvent::Shutdown);
    assert!(matches!(step, LoopStep::Finish(Ok(()))));
}

#[test]
fn shutdown_while_running_aborts_the_builds() {
    let raws = raw_chain(2);
    let mut builder = synced(&raws, 4);
    let step = builder.run_event_loop(LoopEvent::Shutdown);
    assert!(matches!(step, LoopStep::AbortBuilds));
    let query = builder.scheduler.dispatch(&builder.chain).unwrap();
    assert!(query.busy.is_empty());
}

#[test]
fn submission_refills_the_slot_and_blocks_the_account_until_it_lands() {
    let raws = raw_chain(4);
    let mut builder = synced(&raws, 1);
    let tx_id = Word::new([3, 0, 0, 0]);
    let submitted = outcome(NetworkTransactionResult::Submitted { tx_id });
    let step = builder.run_event_loop(LoopEvent::Joined(Some((1, Ok(submitted)))));
    assert!(matches!(step, LoopStep::WriteNotes(writes) if writes.is_empty()));
    assert!(builder.scheduler.in_flight_accounts().is_empty());

    let step = builder.run_event_loop(LoopEvent::NotesWritten(Ok(())));
    match step {
        LoopStep::Select { query, .. } => {
            assert_eq!(query.busy, vec![ACCOUNT]);
            assert_eq!(query.limit, 1);
        },
        _ => panic!("the slot is refilled"),
    }
    builder.run_event_loop(LoopEvent::Spawned(Ok(vec![])));

    // A block without the transaction leaves the account in flight.
    builder.run_event_loop(block_event(&raws[2], 3));
    builder.run_event_loop(written(&raws[2], vec![]));
    assert_eq!(builder.scheduler.in_flight_accounts(), vec![ACCOUNT]);
    assert!(builder.is_synced(), "sync is reached once");
    builder.run_event_loop(LoopEvent::Spawned(Ok(vec![])));

    builder.run_event_loop(block_event(&raws[3], 3));
    let step = builder.run_event_loop(written(&raws[3], vec![(ACCOUNT, tx_id)]));
    assert!(matches!(step, LoopStep::Select { query, .. } if query.busy.is_empty()));
}

#[test]
fn submission_that_never_lands_expires() {
    let raws = raw_chain(32);
    let mut builder = synced(&raws, 1);
    let submitted = outcome(NetworkTransactionResult::Submitted { tx_id: Word::new([3, 0, 0, 0]) });
    builder.run_event_loop(LoopEvent::Joined(Some((1, Ok(submitted)))));
    builder.run_event_loop(LoopEvent::NotesWritten(Ok(())));
    builder.run_event_loop(LoopEvent::Spawned(Ok(vec![])));
    for number in 2..32 {
        builder.run_event_loop(block_event(&raws[number], number as u32));
        builder.run_event_loop(written(&raws[number], vec![]));
        // Submitted on top of block 1, it expires at block 31.
        assert_eq!(builder.scheduler.in_flight_accounts().is_empty(), number == 31);
        builder.run_event_loop(LoopEvent::Spawned(Ok(vec![])));
    }
}

#[test]
fn build_without_work_waits_for_the_next_block() {
    let raws = raw_chain(2);
    let mut builder = synced(&raws, 4);
    let idle = outcome(NetworkTransactionResult::NoWork);
    builder.run_event_loop(LoopEvent::Joined(Some((1, Ok(idle)))));
    let step = builder.run_event_loop(LoopEvent::NotesWritten(Ok(())));
    assert!(matches!(step, LoopStep::NextEvent));
}

#[test]
fn waiting_without_builds_goes_on() {
    let raws = raw_chain(2);
    let mut builder = synced(&raws, 4);
    let idle = outcome(NetworkTransactionResult::NoWork);
    builder.run_event_loop(LoopEvent::Joined(Some((1, Ok(idle)))));
    builder.run_event_loop(LoopEvent::NotesWritten(Ok(())));
    assert!(matches!(builder.run_event_loop(LoopEvent::Joined(None)), LoopStep::NextEvent));
}

#[test]
fn every_other_failure_ends_the_loop() {
    let raws = raw_chain(2);
    let mut lost = synced(&raws, 4);
    let step = lost.run_event_loop(LoopEvent::Joined(Some((1, Err("panicked")))));
    assert!(matches!(
        step,
        LoopStep::Finish(Err(LoopError::BuildLost { account_id: ACCOUNT, join_error: "panicked" }))
    ));

    let mut unwritten = synced(&raws, 4);
    let failed = outcome(NetworkTransactionResult::Failed);
    unwritten.run_event_loop(LoopEvent::Joined(Some((1, Ok(failed)))));
    let error = NoteWriteError { kind: NoteWriteKind::Discards, cause: "disk full" };
    let step = unwritten.run_event_loop(LoopEvent::NotesWritten(Err(error)));
    assert!(matches!(
        step,
        LoopStep::Finish(Err(LoopError::NotesNotWritten(NoteWriteError {
            kind: NoteWriteKind::Discards,
            cause: "disk full",
        })))
    ));

    let mut unselected = builder(&raws, 4);
    unselected.run_event_loop(block_event(&raws[1], 1));
    unselected.run_event_loop(written(&raws[1], vec![]));
    let step = unselected.run_event_loop(LoopEvent::Spawned(Err("unreadable")));
    assert!(matches!(step, LoopStep::Finish(Err(LoopError::NotSelected("unreadable")))));
}

#[test]
fn checked_block_is_not_published() {
    let raws = raw_chain(2);
    let builder = builder(&raws, 4);
    let block = match block_event(&raws[1], 1) {
        LoopEvent::Block(Some(Ok(event))) => event.block,
        _ => unreachable!(),
    };
    let (next, mmr) = builder.apply_committed_block(&block, None).ok().unwrap();
    assert_eq!(next.chain_tip_header.block_num(), 1);
    assert_eq!(mmr.num_leaves(), 1);
    assert_eq!(builder.chain.chain_tip_header.block_num(), 0);
}

#[test]
fn block_to_write_hands_out_its_encoding() {
    let raws = raw_chain(2);
    let mut builder = builder(&raws, 4);
    let step = builder.run_event_loop(block_event(&raws[1], 1));
    let block = match step {
        LoopStep::WriteBlock { block, .. } => block,
        _ => panic!("the block is written"),
    };
    let decoded = RawBlock::read_from_bytes(block.as_bytes()).unwrap();
    assert_eq!(decoded.header(), &raws[1]);
}

#[test]
fn errors_say_what_failed() {
    let text = |error: LoopError<Mock>| error.message();
    assert_eq!(text(LoopError::BlockStream(BlockStreamError::Ended)), "block stream ended");
    assert_eq!(text(LoopError::BlockStream(BlockStreamError::Failed(""))), "block stream failed");
    assert_eq!(
        text(LoopError::Chain(ChainStateError::ConfigCommitmentMismatch)),
        "block protocol config commitment does not match its header"
    );
    assert_eq!(
        text(LoopError::Chain(ChainStateError::ConfigOmitted)),
        "committed block omitted a changed protocol config"
    );
    assert_eq!(text(LoopError::BlockNotWritten("")), "failed to apply committed block to DB");
    assert_eq!(
        text(LoopError::NotSelected("")),
        "failed to query accounts ready for a network transaction"
    );
    let error = NoteWriteError { kind: NoteWriteKind::Failures, cause: "" };
    assert_eq!(text(LoopError::NotesNotWritten(error)), "failed to persist note failures");
}

#[test]
fn lost_build_is_reported_under_its_account() {
    let account_id = 0x8f3a_0000_1234_5611_0a0b_0c0d_0e0f_1000_u128;
    let id: RawAccountId = account_id.try_into().unwrap();
    let error: LoopError<Mock> = LoopError::BuildLost { account_id, join_error: "" };
    assert_eq!(
        error.message(),
        format!("network transaction build failed for account {id}")
    );
    assert_eq!(
        error.message(),
        "network transaction build failed for account 0x8f3a0000123456110a0b0c0d0e0f10"
    );
}

/// A chain that cannot grow still refuses what does not extend it.
#[test]
fn broken_block_is_refused_whatever_the_chain() {
    let raws = raw_chain(4);
    let mut builder = builder(&raws, 4);
    builder.chain = ChainState::new(header(&raws[2]), PartialMmr::default(), config());
    assert!(!builder.chain.can_grow());
    let event = match block_event(&raws[1], 1) {
        LoopEvent::Block(Some(Ok(event))) => event,
        _ => unreachable!(),
    };
    assert!(!builder.chain.is_acceptable(&event.block, &event.protocol_config));
    let step = builder.run_event_loop(LoopEvent::Block(Some(Ok(event))));
    assert!(matches!(
        step,
        LoopStep::Finish(Err(LoopError::Chain(ChainStateError::InvalidBlock(
            SignedBlockError::ParentNumberMismatch { expected: 0, parent: 2 }
        ))))
    ));
}

#[test]
fn acceptable_block_extends_the_chain_under_its_configuration() {
    let raws = raw_chain(3);
    let chain = builder(&raws, 4).chain;
    let block = |raw| match block_event(raw, 1) {
        LoopEvent::Block(Some(Ok(event))) => event.block,
        _ => unreachable!(),
    };
    let other = ProtocolConfig { commitment: Word::new([9, 9, 9, 9]), encoded: vec![] };
    assert!(chain.is_acceptable(&block(&raws[1]), &None));
    assert!(chain.is_acceptable(&block(&raws[1]), &Some(config())));
    assert!(!chain.is_acceptable(&block(&raws[1]), &Some(other)));
    assert!(!chain.is_acceptable(&block(&raws[2]), &None));
}
