use std::collections::{BTreeMap, BTreeSet};

use miden_protocol::block::{
    BlockBody, BlockHeader as RawHeader, FeeParameters, SignedBlock as RawBlock,
};
use miden_protocol::crypto::dsa::ecdsa_k256_keccak::SigningKey;
use miden_protocol::crypto::merkle::mmr::{Forest, InOrderIndex, MmrPeaks, PartialMmr};
use miden_protocol::note::{
    NoteAttachments, NoteDetailsCommitment, NoteHeader, NoteMetadata, NoteType,
    PartialNoteMetadata,
};
use miden_protocol::transaction::{OrderedTransactionHeaders, OutputNote, PrivateOutputNote};
use miden_protocol::utils::serde::{Deserializable, Serializable};
use miden_protocol::Word as RawWord;
use ntx_builder::chain_state::{ChainState, ChainStateError, ProtocolConfig};
use ntx_builder::protocol::{is_range_fitting, BlockHeader, SignedBlock, SignedBlockError};
use ntx_builder::word::Word;

/// The configuration most blocks are built under.
fn test_protocol_config() -> ProtocolConfig {
    ProtocolConfig { commitment: Word::new([1, 2, 3, 4]), encoded: vec![1] }
}

/// A configuration that differs from [`test_protocol_config`].
fn other_protocol_config() -> ProtocolConfig {
    ProtocolConfig { commitment: Word::new([5, 6, 7, 8]), encoded: vec![2] }
}

fn signing_key(seed: u8) -> SigningKey {
    SigningKey::read_from_bytes(&[seed; 32]).unwrap()
}

fn empty_body() -> BlockBody {
    BlockBody::new_unchecked(
        vec![],
        vec![],
        vec![],
        OrderedTransactionHeaders::new_unchecked(vec![]),
    )
}

/// A header on top of a block with the given commitment, for an empty body.
fn raw_header(number: u32, parent: RawWord, key: &SigningKey) -> RawHeader {
    let body = empty_body();
    RawHeader::new(
        1,
        parent,
        number.into(),
        RawWord::default(),
        RawWord::default(),
        RawWord::default(),
        body.compute_block_note_tree().root(),
        body.transaction_commitment(),
        RawWord::default(),
        key.public_key(),
        FeeParameters::new((1_u128 << 64).try_into().unwrap(), 0),
        number,
    )
}

fn header(raw: &RawHeader, config: &ProtocolConfig) -> BlockHeader {
    BlockHeader::read_from_bytes(raw.to_bytes(), config.commitment).unwrap()
}

fn block(raw: RawBlock, config: &ProtocolConfig) -> SignedBlock {
    SignedBlock::read_from_bytes(raw.to_bytes(), config.commitment).unwrap()
}

fn mock_header(number: u32, config: &ProtocolConfig) -> BlockHeader {
    header(&raw_header(number, RawWord::default(), &signing_key(1)), config)
}

fn elements(word: RawWord) -> Word {
    Word::new(word.into_elements().map(|element| element.as_canonical_u64()))
}

/// The numbers of the blocks whose headers a chain holds.
fn held(chain: &ChainState) -> Vec<u32> {
    chain.chain_mmr.block_headers().map(|header| header.block_num().as_u32()).collect()
}

/// A transition creates a new snapshot and does not change an inflight old snapshot.
#[test]
fn next_tip_keeps_old_snapshot_immutable() {
    let config = test_protocol_config();
    let next_config = other_protocol_config();
    let old = ChainState::new(
        mock_header(0, &config),
        PartialMmr::default(),
        test_protocol_config(),
    );

    let next = old
        .next_tip_from_header(mock_header(1, &next_config), Some(other_protocol_config()), 4)
        .expect("a matching changed config must create the next snapshot");

    assert_eq!(old.chain_tip_header.block_num(), 0);
    assert_eq!(old.protocol_config.commitment, config.commitment);
    assert_eq!(old.protocol_config.encoded, config.encoded);
    assert_eq!(next.chain_tip_header.block_num(), 1);
    assert_eq!(next.protocol_config.commitment, next_config.commitment);
    assert_eq!(next.protocol_config.encoded, next_config.encoded);
    assert_eq!(old.current_mmr().num_leaves(), 0);
    assert_eq!(next.current_mmr().num_leaves(), 1);
}

/// A missing changed configuration must not produce a next snapshot.
#[test]
fn next_tip_rejects_omitted_config_transition() {
    let config = test_protocol_config();
    let next_config = other_protocol_config();
    let old = ChainState::new(
        mock_header(0, &config),
        PartialMmr::default(),
        test_protocol_config(),
    );
    let changed = mock_header(1, &next_config);

    assert!(old.next_tip_from_header(changed, None, 4).is_err());
    assert_eq!(old.chain_tip_header.block_num(), 0);

    let changed = mock_header(1, &next_config);
    let error = old.next_tip_from_header(changed, None, 4).err().unwrap();
    assert_eq!(error, ChainStateError::ConfigOmitted);
}

#[test]
fn next_tip_rejects_a_config_that_the_header_does_not_commit_to() {
    let config = test_protocol_config();
    let old = ChainState::new(
        mock_header(0, &config),
        PartialMmr::default(),
        test_protocol_config(),
    );

    let error = old
        .next_tip_from_header(mock_header(1, &config), Some(other_protocol_config()), 4)
        .err()
        .unwrap();
    assert_eq!(error, ChainStateError::ConfigCommitmentMismatch);

    // The active configuration may also be supplied.
    let next = old
        .next_tip_from_header(mock_header(1, &config), Some(test_protocol_config()), 4)
        .ok()
        .unwrap();
    assert_eq!(next.protocol_config.commitment, config.commitment);
}

#[test]
fn rejected_blocks_do_not_advance_chain_state() {
    let config = test_protocol_config();
    let signer = signing_key(1);
    let attacker = signing_key(2);
    let raw_parent = raw_header(0, RawWord::default(), &signer);
    let parent = header(&raw_parent, &config);
    let mut chain =
        ChainState::new(parent.clone(), PartialMmr::default(), test_protocol_config());
    let initial_mmr = chain.current_mmr();

    // The block names the attacker's key for the block after it.
    let raw = raw_header(1, raw_parent.commitment(), &attacker);
    for signature in [attacker.sign(raw.commitment()), signer.sign(raw_parent.commitment())] {
        let invalid = block(RawBlock::new_unchecked(raw.clone(), empty_body(), signature), &config);
        let error = chain.next_chain_tip(&invalid, None, 4).err().unwrap();
        assert_eq!(error, ChainStateError::InvalidBlock(SignedBlockError::InvalidSignature));
        assert_eq!(chain.chain_tip_header.as_bytes(), parent.as_bytes());
        assert_eq!(chain.current_mmr(), initial_mmr);
    }

    let signature = signer.sign(raw.commitment());
    let valid = block(RawBlock::new_unchecked(raw, empty_body(), signature), &config);
    let next = chain.next_chain_tip(&valid, None, 4).ok().unwrap();
    assert_eq!(
        chain.chain_tip_header.as_bytes(),
        parent.as_bytes(),
        "building a snapshot does not advance the tip"
    );

    chain = next;
    assert_eq!(chain.chain_tip_header.as_bytes(), valid.header().as_bytes());
    let advanced_mmr = chain.current_mmr();
    assert_ne!(advanced_mmr, initial_mmr);

    let error = chain.next_chain_tip(&valid, None, 4).err().expect("a replayed block is rejected");
    assert_eq!(
        error,
        ChainStateError::InvalidBlock(SignedBlockError::ParentNumberMismatch {
            expected: 0,
            parent: 1,
        })
    );
    assert_eq!(chain.chain_tip_header.as_bytes(), valid.header().as_bytes());
    assert_eq!(chain.current_mmr(), advanced_mmr);
}

#[test]
fn each_broken_block_names_what_is_wrong() {
    let config = test_protocol_config();
    let signer = signing_key(1);
    let raw_parent = raw_header(4, RawWord::default(), &signer);
    let parent = header(&raw_parent, &config);
    let other = RawWord::try_from([9_u64, 9, 9, 9]).unwrap();
    let body_root = empty_body().compute_block_note_tree().root();
    let body_commitment = empty_body().transaction_commitment();
    let rebuilt = |parent: RawWord, number: u32, note_root: RawWord, tx_commitment: RawWord| {
        let raw = RawHeader::new(
            1,
            parent,
            number.into(),
            RawWord::default(),
            RawWord::default(),
            RawWord::default(),
            note_root,
            tx_commitment,
            RawWord::default(),
            signer.public_key(),
            FeeParameters::new((1_u128 << 64).try_into().unwrap(), 0),
            7,
        );
        let signature = signer.sign(raw.commitment());
        block(RawBlock::new_unchecked(raw, empty_body(), signature), &config)
    };
    let on_top = raw_parent.commitment();

    assert_eq!(
        rebuilt(on_top, 5, other, other).validate(&parent),
        Err(SignedBlockError::TxCommitmentMismatch {
            header_tx_commitment: elements(other),
            body_tx_commitment: elements(body_commitment),
        })
    );
    assert_eq!(
        rebuilt(on_top, 5, other, body_commitment).validate(&parent),
        Err(SignedBlockError::NoteRootMismatch {
            header_root: elements(other),
            body_root: elements(body_root),
        })
    );
    assert_eq!(
        rebuilt(on_top, 0, body_root, body_commitment).validate(&parent),
        Err(SignedBlockError::GenesisBlockHasNoParent { parent: 4 })
    );
    assert_eq!(
        rebuilt(on_top, 6, body_root, body_commitment).validate(&parent),
        Err(SignedBlockError::ParentNumberMismatch { expected: 5, parent: 4 })
    );
    assert_eq!(
        rebuilt(other, 5, body_root, body_commitment).validate(&parent),
        Err(SignedBlockError::ParentCommitmentMismatch {
            expected: elements(other),
            parent: elements(on_top),
        })
    );
    assert_eq!(rebuilt(on_top, 5, body_root, body_commitment).validate(&parent), Ok(()));
}

#[test]
fn header_carries_what_was_encoded() {
    let config = test_protocol_config();
    let raw = raw_header(7, RawWord::try_from([1_u64, 2, 3, 4]).unwrap(), &signing_key(3));
    let decoded = header(&raw, &config);

    assert_eq!(decoded.block_num(), 7);
    assert_eq!(decoded.commitment(), elements(raw.commitment()));
    assert_eq!(decoded.prev_block_commitment(), Word::new([1, 2, 3, 4]));
    assert_eq!(decoded.tx_commitment(), elements(raw.tx_commitment()));
    assert_eq!(decoded.note_root(), elements(raw.note_root()));
    assert_eq!(decoded.protocol_config_commitment(), config.commitment);
    assert_eq!(decoded.as_bytes(), &raw.to_bytes());
    assert_eq!(decoded.clone().as_bytes(), decoded.as_bytes());
}

#[test]
fn bytes_that_encode_no_header_or_block_are_refused() {
    let config = test_protocol_config();
    assert!(BlockHeader::read_from_bytes(vec![], config.commitment).is_none());
    assert!(SignedBlock::read_from_bytes(vec![1, 2, 3], config.commitment).is_none());
    let raw = raw_header(0, RawWord::default(), &signing_key(1));
    assert!(SignedBlock::read_from_bytes(raw.to_bytes(), config.commitment).is_none());
}

fn note(seed: u64) -> OutputNote {
    let details = NoteDetailsCommitment::from_raw_commitments(
        RawWord::try_from([seed, 0, 0, 0]).unwrap(),
        RawWord::default(),
    );
    let attachments = NoteAttachments::default();
    let sender = (1_u128 << 64).try_into().unwrap();
    let metadata =
        NoteMetadata::new(PartialNoteMetadata::new(sender, NoteType::Private), &attachments);
    OutputNote::Private(
        PrivateOutputNote::new(NoteHeader::new(details, metadata), attachments).unwrap(),
    )
}

fn body_with(batches: Vec<Vec<(usize, OutputNote)>>) -> BlockBody {
    BlockBody::new_unchecked(
        vec![],
        batches,
        vec![],
        OrderedTransactionHeaders::new_unchecked(vec![]),
    )
}

#[test]
fn notes_need_places_of_their_own_in_the_note_tree() {
    let config = test_protocol_config();
    let signer = signing_key(1);
    let raw_parent = raw_header(0, RawWord::default(), &signer);
    let parent = header(&raw_parent, &config);
    let decode = |raw: &RawHeader, body: BlockBody| {
        let signature = signer.sign(raw.commitment());
        let bytes = RawBlock::new_unchecked(raw.clone(), body, signature).to_bytes();
        SignedBlock::read_from_bytes(bytes, config.commitment)
    };
    let raw = raw_header(1, raw_parent.commitment(), &signer);

    let shared = body_with(vec![vec![(5, note(1)), (5, note(2))]]);
    assert!(decode(&raw, shared).is_none());
    let outside = body_with(vec![vec![(1024, note(1))]]);
    assert!(decode(&raw, outside).is_none());
    let too_many_batches = body_with((0..65).map(|seed| vec![(0, note(seed))]).collect());
    assert!(decode(&raw, too_many_batches).is_none());

    // The same place in two batches is two places, but the header declares no notes.
    let batches = || body_with(vec![vec![(5, note(1)), (1023, note(2))], vec![(5, note(3))]]);
    let root = batches().compute_block_note_tree().root();
    assert_eq!(
        decode(&raw, batches()).unwrap().validate(&parent),
        Err(SignedBlockError::NoteRootMismatch {
            header_root: elements(raw.note_root()),
            body_root: elements(root),
        })
    );
    let declaring = RawHeader::new(
        1,
        raw_parent.commitment(),
        1.into(),
        RawWord::default(),
        RawWord::default(),
        RawWord::default(),
        root,
        batches().transaction_commitment(),
        RawWord::default(),
        signer.public_key(),
        FeeParameters::new((1_u128 << 64).try_into().unwrap(), 0),
        1,
    );
    assert_eq!(decode(&declaring, batches()).unwrap().validate(&parent), Ok(()));
}

#[test]
fn old_tip_joins_the_chain_and_old_blocks_leave_it() {
    let config = test_protocol_config();
    let mut raws = vec![raw_header(0, RawWord::default(), &signing_key(1))];
    let mut chain = ChainState::new(
        header(&raws[0], &config),
        PartialMmr::default(),
        test_protocol_config(),
    );
    assert!(chain.can_grow());
    for number in 1_u32..6 {
        let parent = raws[number as usize - 1].commitment();
        raws.push(raw_header(number, parent, &signing_key(1)));
        let tip = header(&raws[number as usize], &config);
        chain = chain.next_tip_from_header(tip, None, 2).ok().unwrap();
        assert!(chain.can_grow());
        assert_eq!(chain.current_mmr().num_leaves(), number as usize);
        assert_eq!(held(&chain), (number.saturating_sub(2)..number).collect::<Vec<_>>());
    }
    let mmr = chain.current_mmr();
    let positions: Vec<usize> = (0..5).filter(|position| mmr.is_tracked(*position)).collect();
    assert_eq!(positions, vec![3, 4]);
    assert_eq!(mmr.get(4), Some(raws[4].commitment()));
    for position in 0..5 {
        assert_eq!(mmr.open(position).unwrap().is_some(), position >= 3);
    }

    // The peaks are those of a range to which every commitment was appended.
    let mut expected = PartialMmr::default();
    for raw in &raws[..5] {
        expected.add(raw.commitment(), false).unwrap();
    }
    assert_eq!(mmr.peaks(), expected.peaks());
}

#[test]
fn nothing_is_held_where_no_block_is_kept() {
    let config = test_protocol_config();
    let chain = ChainState::new(
        mock_header(0, &config),
        PartialMmr::default(),
        test_protocol_config(),
    );
    let next = chain.next_tip_from_header(mock_header(1, &config), None, 0).ok().unwrap();
    assert_eq!(held(&next), Vec::<u32>::new());
    assert_eq!(next.current_mmr().num_leaves(), 1);
}

#[test]
fn chain_that_does_not_lag_by_one_cannot_grow() {
    let config = test_protocol_config();
    let chain = ChainState::new(
        mock_header(3, &config),
        PartialMmr::default(),
        test_protocol_config(),
    );
    assert!(!chain.can_grow());
}

#[test]
fn parts_are_those_of_the_snapshot() {
    let config = test_protocol_config();
    let chain = ChainState::new(
        mock_header(0, &config),
        PartialMmr::default(),
        test_protocol_config(),
    );
    let copy = chain.clone();
    assert_eq!(copy.chain_tip_header.block_num(), 0);
    let (tip, mmr, active) = chain.into_parts();
    assert_eq!(tip.block_num(), 0);
    assert_eq!(mmr.chain_length().as_u32(), 0);
    assert_eq!(active.encoded, vec![1]);
}

fn raw_word(seed: u64) -> RawWord {
    RawWord::try_from([seed, 1, 2, 3]).unwrap()
}

/// A range over the given number of leaves, whose peaks are numbered from 0, with the given nodes.
fn range_with(leaves: usize, nodes: &[(usize, RawWord)]) -> PartialMmr {
    let peaks = (0..u64::from(leaves.count_ones())).map(raw_word).collect();
    let nodes: BTreeMap<InOrderIndex, RawWord> = nodes
        .iter()
        .map(|(place, node)| (InOrderIndex::new((*place).try_into().unwrap()), *node))
        .collect();
    let peaks = MmrPeaks::new(Forest::new(leaves).unwrap(), peaks).unwrap();
    PartialMmr::from_parts_unchecked(peaks, nodes, BTreeSet::new())
}

#[test]
fn ranges_that_grew_fit_their_peaks() {
    let mut mmr = PartialMmr::default();
    assert!(is_range_fitting(&mmr));
    for leaf in 0..20 {
        mmr.add(raw_word(leaf), leaf % 3 != 1).unwrap();
        assert!(is_range_fitting(&mmr));
        let decoded = PartialMmr::read_from_bytes(&mmr.to_bytes()).unwrap();
        assert!(is_range_fitting(&decoded));
    }
    for leaf in 0..20 {
        mmr.untrack(leaf);
        assert!(is_range_fitting(&mmr));
    }
}

#[test]
fn nodes_that_contradict_the_peaks_do_not_fit() {
    // Seven leaves: trees over places 1 to 7, 9 to 11 and 13, with roots 4, 10 and 13.
    for (place, peak) in [(4_usize, 0_u64), (10, 1), (13, 2)] {
        assert!(is_range_fitting(&range_with(7, &[(place, raw_word(peak))])));
        assert!(!is_range_fitting(&range_with(7, &[(place, raw_word(9))])));
    }
    for place in [1, 2, 3, 5, 6, 7, 9, 11] {
        assert!(is_range_fitting(&range_with(7, &[(place, raw_word(9))])));
    }
    // Places between the trees, and beyond the last one, are free.
    for place in [8, 12, 14, 15, 40] {
        assert!(!is_range_fitting(&range_with(7, &[(place, raw_word(9))])));
    }
}

#[test]
fn chain_over_contradicting_nodes_cannot_grow() {
    let config = test_protocol_config();
    let node = |seed| {
        let peaks = MmrPeaks::new(Forest::new(1).unwrap(), vec![raw_word(1)]).unwrap();
        let nodes = BTreeMap::from([(InOrderIndex::from_leaf_pos(0), raw_word(seed))]);
        PartialMmr::from_parts(peaks, nodes, BTreeSet::from([0])).unwrap()
    };
    assert!(!is_range_fitting(&node(2)));
    let broken = ChainState::new(mock_header(1, &config), node(2), test_protocol_config());
    assert!(!broken.can_grow());
    let other = mock_header(2, &other_protocol_config());
    assert!(broken.next_tip_from_header(other, None, 4).is_err());
    assert!(is_range_fitting(&node(1)));
    let chain = ChainState::new(mock_header(1, &config), node(1), test_protocol_config());
    assert!(chain.can_grow());
    let next = chain.next_tip_from_header(mock_header(2, &config), None, 4).ok().unwrap();
    assert!(next.can_grow());
}

#[test]
fn broken_blocks_say_what_is_wrong() {
    let a = RawWord::try_from([1_u64, 0xab, 1 << 40, 7]).unwrap();
    let b = RawWord::try_from([0_u64, 256, 3, 4]).unwrap();
    assert_eq!(
        SignedBlockError::TxCommitmentMismatch {
            header_tx_commitment: elements(a),
            body_tx_commitment: elements(b),
        }
        .message(),
        format!("header tx commitment ({a}) does not match body tx commitment ({b})")
    );
    assert_eq!(
        SignedBlockError::NoteRootMismatch { header_root: elements(a), body_root: elements(b) }
            .message(),
        format!(
            "signed block header note root ({a}) does not match the corresponding body's note \
             root ({b})"
        )
    );
    assert_eq!(
        SignedBlockError::GenesisBlockHasNoParent { parent: 0 }.message(),
        "supplied parent block (0) cannot be parent to genesis block"
    );
    assert_eq!(
        ChainStateError::InvalidBlock(SignedBlockError::ParentNumberMismatch {
            expected: 1_204_039,
            parent: u32::MAX,
        })
        .message(),
        "parent block number (4294967295) is not signed block number - 1 (1204039)"
    );
    assert_eq!(
        SignedBlockError::ParentCommitmentMismatch { expected: elements(a), parent: elements(b) }
            .message(),
        format!(
            "signed block previous block commitment ({a}) does not match expected parent's block \
             commitment ({b})"
        )
    );
    assert_eq!(
        SignedBlockError::InvalidSignature.message(),
        "ECDSA signature verification failed based on the signed block's header commitment, \
         validator public key and signature"
    );
}

/// Where the two agree, the text is the one that the protocol crate gives.
#[test]
fn parent_errors_read_as_in_the_protocol_crate() {
    let config = test_protocol_config();
    let signer = signing_key(1);
    let raw_parent = raw_header(4, RawWord::default(), &signer);
    let parent = header(&raw_parent, &config);
    for (number, on_top) in [(0, raw_parent.commitment()), (6, raw_parent.commitment()), (5, raw_word(9))] {
        let raw = raw_header(number, on_top, &signer);
        let signature = signer.sign(raw.commitment());
        let raw_block = RawBlock::new_unchecked(raw, empty_body(), signature);
        let expected = raw_block.validate_parent(&raw_parent).unwrap_err().to_string();
        let error = block(raw_block, &config).validate(&parent).unwrap_err();
        assert_eq!(error.message(), expected);
    }
}
