use std::sync::Arc;
use std::time::Duration;

use miden_protocol::block::{BlockHeader as RawHeader, FeeParameters};
use miden_protocol::crypto::dsa::ecdsa_k256_keccak::SigningKey;
use miden_protocol::crypto::merkle::mmr::PartialMmr;
use miden_protocol::utils::serde::{Deserializable, Serializable};
use miden_protocol::Word as RawWord;
use ntx_builder::chain_state::{ChainState, ProtocolConfig};
use ntx_builder::committed_block::CommittedBlockEffects;
use ntx_builder::network_transaction::{
    BuildError, GrpcClients, NetworkTransactionConfig, NetworkTransactionContext, NetworkTransactionOutcome,
    NetworkTransactionResult, NoteUpdates, Services,
};
use ntx_builder::protocol::BlockHeader;
use ntx_builder::scheduler::{
    BuildCompletion, CompletedBuild, NoteWrite, NoteWriteError, NoteWriteKind, NoteWriteStep,
    NoteWriting, ReadyQuery, Scheduler, SchedulerConfig,
};
use ntx_builder::word::{AccountId, TransactionId, Word};

struct Mock;

impl Services for Mock {
    type Rpc = ();
    type Prover = ();
    type Db = ();
    type ScriptCache = ();
    type TxArgs = ();
    type Script = String;
    type Note = ();
    type AccountUpdate = &'static str;
    type Error = String;
    type JoinError = String;
}

type Effects = CommittedBlockEffects<(), &'static str>;
type Outcome = NetworkTransactionOutcome<String, String>;

fn context() -> NetworkTransactionContext<Mock> {
    NetworkTransactionContext {
        clients: GrpcClients { rpc: (), prover: () },
        db: (),
        script_cache: (),
        tx_args: (),
        config: NetworkTransactionConfig {
            max_notes_per_tx: 20,
            max_note_attempts: 30,
            max_cycles: 1 << 18,
            request_backoff_initial: Duration::from_millis(1),
            request_backoff_max: Duration::from_millis(10),
        },
    }
}

fn test_scheduler() -> Scheduler<Mock> {
    scheduler_with(4, vec![])
}

fn scheduler_with(max_concurrent_txs: usize, priority: Vec<AccountId>) -> Scheduler<Mock> {
    Scheduler::new(
        context(),
        SchedulerConfig {
            max_concurrent_txs,
            tx_expiration_delta: 30,
            priority_accounts: priority,
        },
    )
}

fn config() -> ProtocolConfig {
    ProtocolConfig { commitment: Word::new([1, 2, 3, 4]), encoded: vec![] }
}

fn mock_block_header(number: u32) -> BlockHeader {
    let raw = RawHeader::new(
        1,
        RawWord::default(),
        number.into(),
        RawWord::default(),
        RawWord::default(),
        RawWord::default(),
        RawWord::default(),
        RawWord::default(),
        RawWord::default(),
        SigningKey::read_from_bytes(&[1; 32]).unwrap().public_key(),
        FeeParameters::new((1_u128 << 64).try_into().unwrap(), 0),
        number,
    );
    BlockHeader::read_from_bytes(raw.to_bytes(), config().commitment).unwrap()
}

fn chain_at(number: u32) -> ChainState {
    ChainState::new(mock_block_header(number), PartialMmr::default(), config())
}

fn mock_transaction_id(seed: u64) -> TransactionId {
    Word::new([seed, 0, 0, 0])
}

const ACCOUNT: AccountId = 7;
const OTHER_ACCOUNT: AccountId = 42;

/// Effects for a block carrying nothing but its header.
fn empty_effects(block_num: u32) -> Effects {
    CommittedBlockEffects {
        header: mock_block_header(block_num),
        network_notes: vec![],
        sponsorship_notes: vec![],
        nullifiers: vec![],
        network_account_updates: vec![],
        account_transactions: vec![],
    }
}

fn completed(account_id: AccountId, block_num: u32, tx: u64) -> CompletedBuild<String> {
    CompletedBuild {
        account_id,
        block_num,
        result: NetworkTransactionResult::Submitted { tx_id: mock_transaction_id(tx) },
    }
}

/// Puts an account in flight with a transaction that expires at block 31.
fn submit(scheduler: &mut Scheduler<Mock>, account_id: AccountId, tx: u64) {
    let refill = scheduler.finish_completion(completed(account_id, 1, tx), Ok::<(), String>(()));
    assert_eq!(refill, Ok(true));
}

/// A stand-in for the database: every account in `pending` has notes.
fn ready(query: &ReadyQuery, pending: &[AccountId]) -> Vec<AccountId> {
    let free = |account: &&AccountId| !query.busy.contains(*account);
    pending.iter().filter(free).take(query.limit).copied().collect()
}

#[test]
fn landed_transaction_releases_the_account() {
    let mut scheduler = test_scheduler();
    submit(&mut scheduler, ACCOUNT, 1);

    let mut effects = empty_effects(2);
    effects.account_transactions = vec![(ACCOUNT, mock_transaction_id(1))];
    scheduler.handle_committed_block(&effects);

    assert!(
        scheduler.in_flight_accounts().is_empty(),
        "the block committing the submission must release the account",
    );
}

/// A block that commits a *different* transaction for the account leaves the entry in place:
/// the submission may still land in a later block.
#[test]
fn unrelated_transaction_keeps_the_account_in_flight() {
    let mut scheduler = test_scheduler();
    submit(&mut scheduler, ACCOUNT, 1);

    let mut effects = empty_effects(2);
    effects.account_transactions = vec![(ACCOUNT, mock_transaction_id(9))];
    scheduler.handle_committed_block(&effects);

    assert_eq!(scheduler.in_flight_accounts(), vec![ACCOUNT]);
}

#[test]
fn expired_submission_releases_the_account() {
    let mut scheduler = test_scheduler();
    submit(&mut scheduler, ACCOUNT, 1);

    // One block short of the expiration block: still waiting.
    scheduler.handle_committed_block(&empty_effects(30));
    assert_eq!(scheduler.in_flight_accounts(), vec![ACCOUNT]);

    // The expiration block is reached, so the submission can no longer land.
    scheduler.handle_committed_block(&empty_effects(31));
    assert!(scheduler.in_flight_accounts().is_empty());
}

/// The slot budget counts running builds only. An in-flight transaction blocks its own account
/// but does not consume a slot, because no work is being computed for it locally.
#[test]
fn in_flight_accounts_are_excluded_but_do_not_occupy_a_slot() {
    let mut scheduler = test_scheduler();
    submit(&mut scheduler, ACCOUNT, 1);

    let query = scheduler.dispatch(&chain_at(1)).unwrap();
    assert_eq!(query.max_note_attempts, 30);
    assert_eq!(query.block_num, 1);
    assert_eq!(query.busy, vec![ACCOUNT]);
    assert_eq!(query.priority_accounts, Vec::<AccountId>::new());
    assert_eq!(query.limit, 4);
    assert_eq!(
        ready(&query, &[ACCOUNT, OTHER_ACCOUNT]),
        vec![OTHER_ACCOUNT],
        "an in-flight account is not selected again"
    );
}

/// The note bookkeeping a build reports is persisted whatever the result, and a submission puts
/// the account in flight.
#[test]
fn submitted_outcome_persists_notes_and_records_the_submission() {
    let mut scheduler = test_scheduler();
    let failed_note = Word::new([1, 1, 1, 1]);
    let discarded_note = Word::new([2, 2, 2, 2]);
    let outcome: Outcome = NetworkTransactionOutcome {
        account_id: ACCOUNT,
        block_num: 7,
        notes: NoteUpdates {
            failed: vec![(failed_note, Arc::new("boom".to_string()))],
            discarded: vec![discarded_note],
            eligibility: vec![],
            scripts: vec![],
        },
        result: NetworkTransactionResult::Submitted { tx_id: mock_transaction_id(3) },
    };

    let (build, writes) = scheduler.handle_completion(outcome);

    assert_eq!(writes.len(), 2);
    assert!(matches!(
        &writes[0],
        NoteWrite::NotesFailed { failed, block_num: 7 }
            if failed.len() == 1 && failed[0].0 == failed_note && *failed[0].1 == "boom"
    ));
    assert!(
        matches!(
            &writes[1],
            NoteWrite::DiscardNotes { discarded, block_num: 7, max_note_attempts: 30 }
                if *discarded == vec![discarded_note]
        ),
        "a discarded note is pinned to the attempt cap"
    );

    let refill = scheduler.finish_completion(build, Ok::<(), String>(())).unwrap();
    assert!(refill, "a submission frees a slot that should be refilled immediately");
    assert_eq!(scheduler.in_flight_accounts(), vec![ACCOUNT]);

    // Submitted at block 7, it expires at block 37.
    scheduler.handle_committed_block(&empty_effects(7));
    scheduler.handle_committed_block(&empty_effects(36));
    assert_eq!(scheduler.in_flight_accounts(), vec![ACCOUNT]);
    scheduler.handle_committed_block(&empty_effects(37));
    assert!(scheduler.in_flight_accounts().is_empty());
}

/// A build that found no viable work must not trigger an immediate re-dispatch, because nothing
/// about its account changed.
#[test]
fn no_work_outcome_does_not_refill_the_slot() {
    let mut scheduler = test_scheduler();
    let outcome: Outcome = NetworkTransactionOutcome {
        account_id: ACCOUNT,
        block_num: 1,
        notes: NoteUpdates::default(),
        result: NetworkTransactionResult::NoWork,
    };

    let (build, writes) = scheduler.handle_completion(outcome);
    assert!(writes.is_empty());
    let refill = scheduler.finish_completion(build, Ok::<(), String>(())).unwrap();

    assert!(!refill);
    assert!(scheduler.in_flight_accounts().is_empty());
}

/// A block that only updates an account (without a note for it) leaves the in-flight set alone.
#[test]
fn account_update_alone_does_not_resolve_an_in_flight_entry() {
    let mut scheduler = test_scheduler();
    submit(&mut scheduler, ACCOUNT, 1);

    let mut effects = empty_effects(2);
    effects.network_account_updates = vec![(ACCOUNT, "private")];
    scheduler.handle_committed_block(&effects);

    assert_eq!(scheduler.in_flight_accounts(), vec![ACCOUNT]);
}

/// Other transactions of the account in the same block do not hide the one that landed.
#[test]
fn landed_transaction_counts_wherever_it_stands_in_the_block() {
    for transactions in [vec![1, 9], vec![9, 1], vec![8, 1, 9]] {
        let mut scheduler = test_scheduler();
        submit(&mut scheduler, ACCOUNT, 1);

        let mut effects = empty_effects(2);
        effects.account_transactions =
            transactions.iter().map(|seed| (ACCOUNT, mock_transaction_id(*seed))).collect();
        assert!(effects.commits(ACCOUNT, mock_transaction_id(1)));
        assert!(!effects.commits(OTHER_ACCOUNT, mock_transaction_id(1)));
        assert!(!effects.commits(ACCOUNT, mock_transaction_id(2)));
        scheduler.handle_committed_block(&effects);
        assert!(scheduler.in_flight_accounts().is_empty());
    }
}

/// The same transaction id under another account is not the account's transaction.
#[test]
fn transaction_of_another_account_does_not_land() {
    let mut scheduler = test_scheduler();
    submit(&mut scheduler, ACCOUNT, 1);
    let mut effects = empty_effects(2);
    effects.account_transactions = vec![(OTHER_ACCOUNT, mock_transaction_id(1))];
    scheduler.handle_committed_block(&effects);
    assert_eq!(scheduler.in_flight_accounts(), vec![ACCOUNT]);
}

#[test]
fn block_resolves_only_the_entries_it_speaks_of() {
    let mut scheduler = test_scheduler();
    submit(&mut scheduler, ACCOUNT, 1);
    submit(&mut scheduler, OTHER_ACCOUNT, 2);
    let later = scheduler.finish_completion(completed(9, 5, 3), Ok::<(), String>(()));
    assert_eq!(later, Ok(true));

    let mut effects = empty_effects(2);
    effects.account_transactions = vec![(OTHER_ACCOUNT, mock_transaction_id(2))];
    scheduler.handle_committed_block(&effects);
    for _ in 0..2 {
        let mut waiting = scheduler.in_flight_accounts();
        waiting.sort();
        assert_eq!(waiting, vec![ACCOUNT, 9]);
        // Handling the block once more changes nothing.
        scheduler.handle_committed_block(&effects);
    }

    scheduler.handle_committed_block(&empty_effects(31));
    assert_eq!(scheduler.in_flight_accounts(), vec![9]);
}

#[test]
fn running_builds_occupy_the_slots_and_are_excluded() {
    let mut scheduler = scheduler_with(3, vec![11, 12]);
    let query = scheduler.dispatch(&chain_at(1)).unwrap();
    assert_eq!(query.limit, 3);
    assert_eq!(query.busy, Vec::<AccountId>::new());
    assert_eq!(query.priority_accounts, vec![11, 12]);

    scheduler.builds_spawned(vec![(1, ACCOUNT), (2, OTHER_ACCOUNT)]);
    submit(&mut scheduler, 9, 1);
    let query = scheduler.dispatch(&chain_at(5)).unwrap();
    assert_eq!(query.limit, 1);
    assert_eq!(query.block_num, 5);
    let mut busy = query.busy.clone();
    assert_eq!(busy[2], 9, "accounts in flight come after accounts with a build");
    busy.sort();
    assert_eq!(busy, vec![ACCOUNT, 9, OTHER_ACCOUNT]);
    assert_eq!(ready(&query, &[9, ACCOUNT, 3, 4]), vec![3]);

    scheduler.builds_spawned(vec![(3, 3)]);
    assert!(scheduler.dispatch(&chain_at(5)).is_none(), "no slot is free");

    // A build beyond the slots leaves none free either.
    scheduler.builds_spawned(vec![(4, 4)]);
    assert!(scheduler.dispatch(&chain_at(5)).is_none());
}

#[test]
fn no_slots_mean_no_query() {
    assert!(scheduler_with(0, vec![]).dispatch(&chain_at(1)).is_none());
}

#[test]
fn completed_build_frees_its_slot() {
    let mut scheduler = scheduler_with(1, vec![]);
    scheduler.builds_spawned(vec![(5, ACCOUNT)]);
    assert!(scheduler.dispatch(&chain_at(1)).is_none());

    let outcome: Outcome = NetworkTransactionOutcome {
        account_id: ACCOUNT,
        block_num: 1,
        notes: NoteUpdates::default(),
        result: NetworkTransactionResult::Failed,
    };
    let completion = scheduler.next_completion::<String, String, String>(Some((5, Ok(outcome))));
    let outcome = match completion {
        BuildCompletion::Finished(outcome) => outcome,
        _ => panic!("the build has an outcome"),
    };
    let (build, _) = scheduler.handle_completion(outcome);
    assert_eq!(scheduler.finish_completion(build, Ok::<(), String>(())), Ok(true));
    let query = scheduler.dispatch(&chain_at(1)).unwrap();
    assert_eq!(query.limit, 1);
    assert_eq!(query.busy, Vec::<AccountId>::new());
}

#[test]
fn lost_build_names_its_account() {
    let mut scheduler = test_scheduler();
    scheduler.builds_spawned(vec![(5, ACCOUNT), (6, OTHER_ACCOUNT)]);
    let joined = Some((6, Err("panicked".to_string())));
    assert!(matches!(
        scheduler.next_completion::<String, String, String>(joined),
        BuildCompletion::Lost { account_id: OTHER_ACCOUNT, join_error } if join_error == "panicked"
    ));
    assert_eq!(scheduler.dispatch(&chain_at(1)).unwrap().busy, vec![ACCOUNT]);
}

#[test]
fn nothing_to_join_is_idle() {
    let mut scheduler = test_scheduler();
    assert!(matches!(
        scheduler.next_completion::<String, String, String>(None),
        BuildCompletion::Idle
    ));
}

#[test]
fn aborted_build_changes_nothing() {
    let mut scheduler = test_scheduler();
    let build = CompletedBuild {
        account_id: ACCOUNT,
        block_num: 1,
        result: NetworkTransactionResult::Aborted(BuildError::NotSelected("unreadable".to_string())),
    };
    assert_eq!(scheduler.finish_completion(build, Ok::<(), String>(())), Ok(false));
    assert!(scheduler.in_flight_accounts().is_empty());
}

#[test]
fn failed_write_leaves_the_account_free() {
    let mut scheduler = test_scheduler();
    let refill = scheduler.finish_completion(completed(ACCOUNT, 1, 1), Err("disk full"));
    assert_eq!(refill, Err("disk full"));
    assert!(scheduler.in_flight_accounts().is_empty());
}

#[test]
fn writes_come_in_order() {
    let scheduler = test_scheduler();
    let root_a = Word::new([5, 0, 0, 0]);
    let root_b = Word::new([6, 0, 0, 0]);
    let nullifier = Word::new([8, 0, 0, 0]);
    let outcome: Outcome = NetworkTransactionOutcome {
        account_id: ACCOUNT,
        block_num: 3,
        notes: NoteUpdates {
            failed: vec![(nullifier, Arc::new("boom".to_string()))],
            discarded: vec![nullifier],
            eligibility: vec![(nullifier, 12)],
            scripts: vec![(root_a, "a".to_string()), (root_b, "b".to_string())],
        },
        result: NetworkTransactionResult::Failed,
    };
    let (_, writes) = scheduler.handle_completion(outcome);
    assert_eq!(writes.len(), 5);
    assert!(matches!(
        &writes[0],
        NoteWrite::UpdateEligibility { eligibility } if *eligibility == vec![(nullifier, 12)]
    ));
    assert!(matches!(&writes[1], NoteWrite::NotesFailed { block_num: 3, .. }));
    assert!(matches!(&writes[2], NoteWrite::DiscardNotes { block_num: 3, .. }));
    assert!(matches!(
        &writes[3],
        NoteWrite::InsertNoteScript { script_root, script } if *script_root == root_a && script == "a"
    ));
    assert!(matches!(
        &writes[4],
        NoteWrite::InsertNoteScript { script_root, script } if *script_root == root_b && script == "b"
    ));
}

#[test]
fn shutdown_forgets_the_builds() {
    let mut scheduler = test_scheduler();
    scheduler.builds_spawned(vec![(1, ACCOUNT)]);
    submit(&mut scheduler, OTHER_ACCOUNT, 1);
    scheduler.shutdown();
    let query = scheduler.dispatch(&chain_at(1)).unwrap();
    assert_eq!(query.limit, 4);
    assert_eq!(query.busy, vec![OTHER_ACCOUNT]);
}

fn five_writes() -> Vec<NoteWrite<String, String>> {
    let nullifier = Word::new([8, 0, 0, 0]);
    let outcome: Outcome = NetworkTransactionOutcome {
        account_id: ACCOUNT,
        block_num: 3,
        notes: NoteUpdates {
            failed: vec![(nullifier, Arc::new("boom".to_string()))],
            discarded: vec![nullifier],
            eligibility: vec![(nullifier, 12)],
            scripts: vec![
                (Word::new([5, 0, 0, 0]), "a".to_string()),
                (Word::new([6, 0, 0, 0]), "b".to_string()),
            ],
        },
        result: NetworkTransactionResult::Failed,
    };
    test_scheduler().handle_completion(outcome).1
}

/// Performs the writes, of which the one at `failing` fails. Returns the kinds of those tried.
fn perform(failing: usize) -> (Vec<NoteWriteKind>, Result<(), NoteWriteError<&'static str>>) {
    let mut tried = Vec::new();
    let mut step = NoteWriting::start(five_writes());
    loop {
        step = match step {
            NoteWriteStep::Perform { write, writing } => {
                tried.push(write.kind());
                let written = if tried.len() - 1 == failing { Err("disk full") } else { Ok(()) };
                writing.next(written)
            },
            NoteWriteStep::Done => return (tried, Ok(())),
            NoteWriteStep::Failed(error) => return (tried, Err(error)),
        };
    }
}

#[test]
fn first_failing_write_ends_the_list_and_is_named() {
    let order = vec![
        NoteWriteKind::Eligibility,
        NoteWriteKind::Failures,
        NoteWriteKind::Discards,
        NoteWriteKind::Script,
        NoteWriteKind::Script,
    ];
    let messages = [
        "failed to correct note eligibility",
        "failed to persist note failures",
        "failed to discard notes",
        "failed to cache note script",
        "failed to cache note script",
    ];
    for failing in 0..5 {
        let (tried, result) = perform(failing);
        assert_eq!(tried, order[..failing + 1].to_vec(), "no later write is tried");
        let error = result.unwrap_err();
        assert_eq!(error.message(), messages[failing]);
        assert_eq!(error.cause, "disk full");
    }
    let (tried, result) = perform(5);
    assert_eq!(tried, order);
    assert!(result.is_ok());
}

#[test]
fn nothing_to_write_is_done() {
    let step = NoteWriting::start::<()>(Vec::<NoteWrite<String, String>>::new());
    assert!(matches!(step, NoteWriteStep::Done));
}

#[test]
fn limits_must_not_be_zero() {
    let mut config = context().config;
    assert!(config.is_valid());
    config.max_notes_per_tx = 0;
    assert!(!config.is_valid());
    let config = |tx_expiration_delta| SchedulerConfig {
        max_concurrent_txs: 4,
        tx_expiration_delta,
        priority_accounts: vec![],
    };
    assert!(config(1).is_valid());
    assert!(!config(0).is_valid());
}
