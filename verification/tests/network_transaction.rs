use std::sync::Arc;
use std::time::Duration;

use miden_protocol::block::{BlockHeader as RawHeader, FeeParameters};
use miden_protocol::crypto::dsa::ecdsa_k256_keccak::SigningKey;
use miden_protocol::crypto::merkle::mmr::PartialMmr;
use miden_protocol::utils::serde::{Deserializable, Serializable};
use miden_protocol::Word as RawWord;
use ntx_builder::candidate::{
    attribute_failed_notes, FailedNote, FeatureNote, NoteError, NtxError, NtxExecutionResult,
    Selection, SponsoredNote, TransactionCandidate,
};
use ntx_builder::chain_state::{ChainState, ProtocolConfig};
use ntx_builder::network_transaction::{
    Build, BuildError, BuildEvent, BuildStep, Execution, GrpcClients, NetworkTransactionConfig,
    NetworkTransactionContext, NetworkTransactionOutcome, NetworkTransactionResult, NoteUpdates,
    Services,
};
use ntx_builder::pairs::WordMap;
use ntx_builder::protocol::BlockHeader;
use ntx_builder::word::{NoteId, Nullifier, Word};

struct Mock;

impl Services for Mock {
    type Rpc = ();
    type Prover = ();
    type Db = ();
    type ScriptCache = ();
    type TxArgs = ();
    type Script = &'static str;
    type Note = ();
    type AccountUpdate = ();
    type Error = &'static str;
    type JoinError = ();
}

type Event = BuildEvent<&'static str, &'static str, &'static str>;
type Step = BuildStep<&'static str, &'static str, &'static str, &'static str>;
type Outcome = NetworkTransactionOutcome<&'static str, &'static str>;

const BUILD: Build = Build { account_id: 7, block_num: 3 };

fn context() -> NetworkTransactionContext<Mock> {
    NetworkTransactionContext {
        clients: GrpcClients { rpc: (), prover: () },
        db: (),
        script_cache: (),
        tx_args: (),
        config: NetworkTransactionConfig {
            max_notes_per_tx: 20,
            max_note_attempts: 30,
            max_cycles: 1 << 18,
            request_backoff_initial: Duration::from_millis(1),
            request_backoff_max: Duration::from_millis(10),
        },
    }
}

fn id(seed: u64) -> NoteId {
    Word::new([seed, 0, 0, 0])
}

fn nullifier(seed: u64) -> Nullifier {
    Word::new([0, seed, 0, 0])
}

fn sponsored(seed: u64, sponsorships: &[u64]) -> SponsoredNote {
    SponsoredNote {
        feature: FeatureNote { id: id(seed), nullifier: nullifier(seed) },
        sponsorships: sponsorships.iter().map(|seed| id(*seed)).collect(),
    }
}

fn failed(seed: u64, error: &'static str) -> FailedNote<&'static str> {
    FailedNote { id: id(seed), nullifier: nullifier(seed), error: Arc::new(error) }
}

fn charges(list: &[(Nullifier, NoteError<&'static str>)]) -> Vec<(Nullifier, &'static str)> {
    list.iter().map(|(nullifier, error)| (*nullifier, **error)).collect()
}

/// Feature 1 is sponsored by notes 11 and 12, feature 2 by note 21, feature 3 by none.
fn candidate() -> TransactionCandidate<&'static str> {
    TransactionCandidate {
        notes: vec![sponsored(1, &[11, 12]), sponsored(2, &[21]), sponsored(3, &[])],
        payload: "payload",
    }
}

fn finished(step: Step) -> Outcome {
    match step {
        BuildStep::Finish(outcome) => outcome,
        _ => panic!("the build has ended"),
    }
}

/// Starts the execution of [`candidate`] after selection rejected note 9 and corrected note 8.
fn execution() -> Execution<&'static str, &'static str> {
    let event: Event = BuildEvent::Selected(Ok(Selection {
        candidate: Some(candidate()),
        rejected: vec![(nullifier(9), Arc::new("rejected"))],
        stale_eligibility: vec![(nullifier(8), 40)],
    }));
    match context().try_build(BUILD, event) {
        BuildStep::Execute { execution, candidate, note_ids } => {
            assert_eq!(candidate.payload, "payload");
            assert_eq!(note_ids, vec![id(1), id(11), id(12), id(2), id(21), id(3)]);
            execution
        },
        _ => panic!("there is a candidate to execute"),
    }
}

fn is_untouched(notes: &NoteUpdates<&'static str, &'static str>) -> bool {
    notes.failed.is_empty()
        && notes.discarded.is_empty()
        && notes.eligibility.is_empty()
        && notes.scripts.is_empty()
}

#[test]
fn build_refers_to_the_tip() {
    let config = ProtocolConfig { commitment: Word::new([1, 2, 3, 4]), encoded: vec![] };
    let raw = RawHeader::new(
        1,
        RawWord::default(),
        3.into(),
        RawWord::default(),
        RawWord::default(),
        RawWord::default(),
        RawWord::default(),
        RawWord::default(),
        RawWord::default(),
        SigningKey::read_from_bytes(&[1; 32]).unwrap().public_key(),
        FeeParameters::new((1_u128 << 64).try_into().unwrap(), 0),
        3,
    );
    let tip = BlockHeader::read_from_bytes(raw.to_bytes(), config.commitment).unwrap();
    let chain = ChainState::new(tip, PartialMmr::default(), config);
    assert_eq!(context().build(7, &chain), BUILD);
}

#[test]
fn loaded_account_is_selected_for() {
    let step: Step = context().try_build(BUILD, BuildEvent::AccountLoaded(Ok(Some("account"))));
    assert!(matches!(
        step,
        BuildStep::Select { account: "account", max_notes_per_tx: 20, max_note_attempts: 30 }
    ));
}

#[test]
fn account_without_committed_state_is_no_work() {
    let outcome = finished(context().try_build(BUILD, BuildEvent::AccountLoaded(Ok(None))));
    assert_eq!((outcome.account_id, outcome.block_num), (7, 3));
    assert!(is_untouched(&outcome.notes));
    assert!(matches!(outcome.result, NetworkTransactionResult::NoWork));
}

#[test]
fn infrastructure_failures_abort_and_charge_nothing() {
    let events: [(Event, Option<&str>); 2] = [
        (BuildEvent::AccountLoaded(Err("unreadable")), Some("failed to load committed account")),
        (BuildEvent::Selected(Err("unreadable")), None),
    ];
    for (event, message) in events {
        let outcome = finished(context().try_build(BUILD, event));
        assert_eq!((outcome.account_id, outcome.block_num), (7, 3));
        assert!(is_untouched(&outcome.notes));
        let error = match outcome.result {
            NetworkTransactionResult::Aborted(error) => error,
            _ => panic!("the build is aborted"),
        };
        assert_eq!(error.message().as_deref(), message);
        assert!(matches!(
            error,
            BuildError::AccountNotLoaded("unreadable") | BuildError::NotSelected("unreadable")
        ));
    }
}

#[test]
fn selection_without_candidate_still_reports_its_findings() {
    let event: Event = BuildEvent::Selected(Ok(Selection {
        candidate: None,
        rejected: vec![(nullifier(9), Arc::new("rejected"))],
        stale_eligibility: vec![(nullifier(8), 40)],
    }));
    let outcome = finished(context().try_build(BUILD, event));
    assert!(matches!(outcome.result, NetworkTransactionResult::NoWork));
    assert_eq!(charges(&outcome.notes.failed), vec![(nullifier(9), "rejected")]);
    assert_eq!(outcome.notes.eligibility, vec![(nullifier(8), 40)]);
    assert!(outcome.notes.discarded.is_empty());
    assert!(outcome.notes.scripts.is_empty());
}

#[test]
fn submitted_transaction_charges_failures_to_features() {
    let outcome = execution().execute_candidate(Ok(NtxExecutionResult {
        tx_id: Word::new([1, 2, 3, 4]),
        failed_notes: vec![failed(3, "feature failed"), failed(12, "sponsor failed")],
        deferred_notes: vec![failed(2, "deferred")],
        oversized_notes: vec![
            failed(1, "too large"),
            failed(21, "sponsor too large"),
            failed(2, "too large"),
        ],
        fetched_scripts: vec![(Word::new([6, 0, 0, 0]), "script")],
    }));

    assert_eq!((outcome.account_id, outcome.block_num), (7, 3));
    assert!(matches!(
        outcome.result,
        NetworkTransactionResult::Submitted { tx_id } if tx_id == Word::new([1, 2, 3, 4])
    ));
    assert_eq!(
        charges(&outcome.notes.failed),
        vec![
            (nullifier(9), "rejected"),
            (nullifier(3), "feature failed"),
            (nullifier(1), "sponsor failed"),
            (nullifier(2), "sponsor too large"),
        ]
    );
    assert_eq!(outcome.notes.discarded, vec![nullifier(1), nullifier(2)]);
    assert_eq!(outcome.notes.eligibility, vec![(nullifier(8), 40)]);
    assert_eq!(outcome.notes.scripts, vec![(Word::new([6, 0, 0, 0]), "script")]);
}

#[test]
fn notes_that_all_failed_are_charged_one_by_one() {
    let per_note = vec![failed(11, "a"), failed(2, "b"), failed(3, "c")];
    let outcome = execution().execute_candidate(Err(NtxError::AllNotesFailed(per_note)));
    assert!(matches!(outcome.result, NetworkTransactionResult::Failed));
    assert_eq!(
        charges(&outcome.notes.failed),
        vec![(nullifier(9), "rejected"), (nullifier(1), "a"), (nullifier(2), "b"), (nullifier(3), "c")]
    );
    assert!(outcome.notes.discarded.is_empty());
    assert!(outcome.notes.scripts.is_empty());
    assert_eq!(outcome.notes.eligibility, vec![(nullifier(8), 40)]);
}

#[test]
fn failed_transaction_charges_every_feature() {
    let outcome = execution().execute_candidate(Err(NtxError::Other("prover down")));
    assert!(matches!(outcome.result, NetworkTransactionResult::Failed));
    assert_eq!(
        charges(&outcome.notes.failed),
        vec![
            (nullifier(9), "rejected"),
            (nullifier(1), "prover down"),
            (nullifier(2), "prover down"),
            (nullifier(3), "prover down"),
        ]
    );
    assert!(Arc::ptr_eq(&outcome.notes.failed[1].1, &outcome.notes.failed[3].1));
}

#[test]
fn sponsors_map_to_their_last_feature() {
    let candidate = TransactionCandidate {
        notes: vec![sponsored(1, &[11, 12]), sponsored(2, &[12])],
        payload: (),
    };
    let features = candidate.sponsor_to_feature_nullifier();
    assert_eq!(features.get(id(11)), Some(nullifier(1)));
    assert_eq!(features.get(id(12)), Some(nullifier(2)));
    assert_eq!(features.get(id(1)), None);
    assert!(features.contains_key(id(12)));
    assert!(!features.contains_key(id(2)));
    assert_eq!(candidate.feature_nullifiers(), vec![nullifier(1), nullifier(2)]);
}

#[test]
fn unsponsored_failures_stay_with_their_notes() {
    let charged = attribute_failed_notes(vec![failed(4, "x"), failed(5, "y")], &WordMap::new());
    assert_eq!(charges(&charged), vec![(nullifier(4), "x"), (nullifier(5), "y")]);
}

#[test]
fn last_entry_of_a_key_counts() {
    let mut map = WordMap::new();
    assert_eq!(map.get(id(1)), None);
    map.insert(id(1), nullifier(1));
    map.insert(id(2), nullifier(2));
    map.insert(id(1), nullifier(3));
    assert_eq!(map.get(id(1)), Some(nullifier(3)));
    assert_eq!(map.get(id(2)), Some(nullifier(2)));
}
