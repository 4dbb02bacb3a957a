//! Blocks, headers and the partial chain, as the protocol crate reads and computes them.
//!
//! Everything the library trusts about that crate stands in this file. A header and a block are
//! kept in their encoded form next to the values that decoding yields, so that each call into the
//! crate is a function of plain bytes. The partial chain stays the crate's own collection.

use std::collections::HashSet;

use miden_protocol::crypto::merkle::mmr::PartialMmr;
use miden_protocol::transaction::PartialBlockchain;
use miden_protocol::utils::serde::{Deserializable, Serializable};
use vstd::prelude::*;

use crate::range::{are_nodes_fitting, listed_nodes, listed_words, nodes_fit};
use crate::text::{decimal_text, push_decimal, push_word, word_text};
use crate::word::{BlockNumber, Word};

verus! {

// THE PARTIAL CHAIN
// ================================================================================================

/// The crate's partial Merkle mountain range.
#[verifier::external_type_specification]
#[verifier::external_body]
pub struct ExPartialMmr(PartialMmr);

/// The crate's partial chain: a mountain range over block commitments together with the headers
/// of the blocks it tracks.
#[verifier::external_type_specification]
#[verifier::external_body]
pub struct ExPartialBlockchain(PartialBlockchain);

/// Number of leaves ever appended to a mountain range.
pub uninterp spec fn mmr_leaves(mmr: PartialMmr) -> nat;

/// Peaks of a mountain range, from the tallest tree to the smallest.
pub uninterp spec fn mmr_peaks(mmr: PartialMmr) -> Seq<Seq<u64>>;

/// Positions of the leaves for which a mountain range keeps an authentication path.
pub uninterp spec fn mmr_tracked(mmr: PartialMmr) -> Set<nat>;

/// Nodes that a mountain range keeps for authentication paths, by their place in the in-order walk
/// of the range.
pub uninterp spec fn mmr_nodes(mmr: PartialMmr) -> Map<nat, Seq<u64>>;

/// Headers that a partial chain holds: block number to block commitment.
pub uninterp spec fn chain_blocks(chain: PartialBlockchain) -> Map<u32, Seq<u64>>;

/// Number of blocks in the chain that a partial chain describes.
pub uninterp spec fn chain_leaves(chain: PartialBlockchain) -> nat;

/// Peaks of the mountain range under a partial chain.
pub uninterp spec fn chain_peaks(chain: PartialBlockchain) -> Seq<Seq<u64>>;

/// Positions for which the mountain range under a partial chain keeps an authentication path.
pub uninterp spec fn chain_tracked(chain: PartialBlockchain) -> Set<nat>;

/// Nodes that the mountain range under a partial chain keeps for authentication paths.
pub uninterp spec fn chain_nodes(chain: PartialBlockchain) -> Map<nat, Seq<u64>>;

/// Peaks of a mountain range with the given peaks and number of leaves, once a leaf was appended.
pub uninterp spec fn appended_peaks(peaks: Seq<Seq<u64>>, leaves: nat, leaf: Seq<u64>) -> Seq<Seq<u64>>;

/// Nodes of a mountain range with the given nodes, peaks, tracked positions and number of leaves,
/// once a leaf was appended and is tracked.
pub uninterp spec fn appended_nodes(
    nodes: Map<nat, Seq<u64>>,
    peaks: Seq<Seq<u64>>,
    positions: Set<nat>,
    leaves: nat,
    leaf: Seq<u64>,
) -> Map<nat, Seq<u64>>;

/// Nodes of a mountain range with the given nodes, tracked positions and number of leaves, once
/// the leaves of the dropped blocks are no longer tracked.
pub uninterp spec fn pruned_nodes(
    nodes: Map<nat, Seq<u64>>,
    positions: Set<nat>,
    leaves: nat,
    dropped: Set<u32>,
) -> Map<nat, Seq<u64>>;

/// Most leaves that the crate lets a mountain range have.
pub open spec fn max_chain_length() -> int {
    if (u32::MAX as int) < (usize::MAX as int) / 2 {
        u32::MAX as int
    } else {
        (usize::MAX as int) / 2
    }
}

/// Calls `PartialBlockchain::new` with no headers, which succeeds for every mountain range. The
/// chain holds no header and has the leaves, peaks, tracked positions and nodes of the range.
#[verifier::external_body]
pub(crate) fn blockchain_new(mmr: PartialMmr) -> (chain: PartialBlockchain)
    ensures
        chain_blocks(chain).dom() == Set::<u32>::empty(),
        chain_leaves(chain) == mmr_leaves(mmr),
        chain_peaks(chain) == mmr_peaks(mmr),
        chain_tracked(chain) == mmr_tracked(mmr),
        chain_nodes(chain) == mmr_nodes(mmr),
{
    PartialBlockchain::new(mmr, []).expect("a chain without headers has none to miss")
}

/// Calls `PartialBlockchain::clone`, which is derived: the copy holds what `chain` holds.
#[verifier::external_body]
pub(crate) fn blockchain_clone(chain: &PartialBlockchain) -> (copy: PartialBlockchain)
    ensures
        chain_blocks(copy) == chain_blocks(*chain),
        chain_leaves(copy) == chain_leaves(*chain),
        chain_peaks(copy) == chain_peaks(*chain),
        chain_tracked(copy) == chain_tracked(*chain),
        chain_nodes(copy) == chain_nodes(*chain),
{
    chain.clone()
}

/// Calls `PartialBlockchain::chain_length`, the number of leaves. Every mountain range keeps that
/// number within the bound, so it always fits a block number.
#[verifier::external_body]
pub(crate) fn blockchain_length(chain: &PartialBlockchain) -> (length: BlockNumber)
    ensures
        length == chain_leaves(*chain),
        length <= max_chain_length(),
{
    chain.chain_length().as_u32()
}

/// Calls `PartialMmr::num_leaves`. Every mountain range keeps that number within the bound.
#[verifier::external_body]
fn mmr_length(mmr: &PartialMmr) -> (length: usize)
    ensures
        length == mmr_leaves(*mmr),
        length <= max_chain_length(),
{
    mmr.num_leaves()
}

/// Calls `PartialMmr::peaks`, which returns them from the tallest tree to the smallest.
#[verifier::external_body]
fn mmr_peak_list(mmr: &PartialMmr) -> (peaks: Vec<Word>)
    ensures
        listed_words(peaks@) == mmr_peaks(*mmr),
{
    let peaks = mmr.peaks();
    let elements = peaks.peaks().iter().map(|peak| peak.into_elements());
    elements.map(|peak| Word::new(peak.map(|element| element.as_canonical_u64()))).collect()
}

/// Calls `PartialMmr::nodes`, which walks over every node that is kept, with its place.
#[verifier::external_body]
fn mmr_node_list(mmr: &PartialMmr) -> (nodes: Vec<(usize, Word)>)
    ensures
        listed_nodes(nodes@) == mmr_nodes(*mmr),
{
    let elements = mmr.nodes().map(|(place, node)| (place.inner(), node.into_elements()));
    let canonical = elements.map(|(place, node)| (place, node.map(|e| e.as_canonical_u64())));
    canonical.map(|(place, node)| (place, Word::new(node))).collect()
}

/// The nodes that a mountain range keeps belong to its peaks.
pub open spec fn is_fitting_range(mmr: PartialMmr) -> bool {
    nodes_fit(mmr_nodes(mmr), mmr_peaks(mmr), mmr_leaves(mmr))
}

/// Whether the nodes that a mountain range keeps belong to its peaks. A mountain range that grew
/// leaf by leaf always fits; one that was put together from parts, or decoded, need not.
pub fn is_range_fitting(mmr: &PartialMmr) -> (fit: bool)
    ensures
        fit == is_fitting_range(*mmr),
{
    let leaves = mmr_length(mmr);
    let peaks = mmr_peak_list(mmr);
    let nodes = mmr_node_list(mmr);
    are_nodes_fitting(&nodes, &peaks, leaves)
}

/// Calls `PartialBlockchain::add_block` with tracking on. The header must be the next one of the
/// chain and the mountain range must have room, or the call panics. So it does, with debug
/// assertions on, where a node that is kept does not belong to the peaks. The header is then held
/// under its number, its commitment is appended as a leaf, and that leaf is tracked. The peaks and
/// the nodes that result depend only on those before, on the tracked positions, on the number of
/// leaves and on the new leaf, and the nodes belong to the peaks again: what is added lies below
/// the root of the tree that the new leaf completes, or is that root.
#[verifier::external_body]
pub(crate) fn blockchain_add_block(chain: &mut PartialBlockchain, header: &[u8])
    requires
        header_parts(header@) is Some,
        header_parts(header@).unwrap().0 == chain_leaves(*old(chain)),
        chain_leaves(*old(chain)) < max_chain_length(),
        nodes_fit(
            chain_nodes(*old(chain)),
            chain_peaks(*old(chain)),
            chain_leaves(*old(chain)),
        ),
    ensures
        chain_blocks(*final(chain)) == chain_blocks(*old(chain)).insert(
            header_parts(header@).unwrap().0,
            header_parts(header@).unwrap().1,
        ),
        chain_leaves(*final(chain)) == chain_leaves(*old(chain)) + 1,
        chain_peaks(*final(chain)) == appended_peaks(
            chain_peaks(*old(chain)),
            chain_leaves(*old(chain)),
            header_parts(header@).unwrap().1,
        ),
        chain_tracked(*final(chain)) == chain_tracked(*old(chain)).insert(
            chain_leaves(*old(chain)),
        ),
        chain_nodes(*final(chain)) == appended_nodes(
            chain_nodes(*old(chain)),
            chain_peaks(*old(chain)),
            chain_tracked(*old(chain)),
            chain_leaves(*old(chain)),
            header_parts(header@).unwrap().1,
        ),
        nodes_fit(
            chain_nodes(*final(chain)),
            chain_peaks(*final(chain)),
            chain_leaves(*final(chain)),
        ),
{
    let header = miden_protocol::block::BlockHeader::read_from_bytes(header);
    chain.add_block(&header.expect("the header decodes"), true);
}

/// Calls `PartialBlockchain::prune_to`: every held header with a number below `end` is dropped and
/// its position is no longer tracked. The leaves and the peaks stay. The nodes that remain depend
/// only on those before, on the tracked positions, on the number of leaves and on which headers are
/// dropped. The nodes must belong to the peaks: the call climbs for as long as it finds kept nodes,
/// and where they lie outside the trees it can climb past the last place and panic. No node is
/// added or changed, so they still belong to the peaks afterwards.
#[verifier::external_body]
pub(crate) fn blockchain_prune_to(chain: &mut PartialBlockchain, end: BlockNumber)
    requires
        nodes_fit(
            chain_nodes(*old(chain)),
            chain_peaks(*old(chain)),
            chain_leaves(*old(chain)),
        ),
    ensures
        chain_blocks(*final(chain)) == kept_blocks(chain_blocks(*old(chain)), end),
        chain_leaves(*final(chain)) == chain_leaves(*old(chain)),
        chain_peaks(*final(chain)) == chain_peaks(*old(chain)),
        chain_tracked(*final(chain)) == kept_positions(
            chain_tracked(*old(chain)),
            chain_blocks(*old(chain)),
            end,
        ),
        chain_nodes(*final(chain)) == pruned_nodes(
            chain_nodes(*old(chain)),
            chain_tracked(*old(chain)),
            chain_leaves(*old(chain)),
            dropped_blocks(chain_blocks(*old(chain)), end),
        ),
        nodes_fit(
            chain_nodes(*final(chain)),
            chain_peaks(*final(chain)),
            chain_leaves(*final(chain)),
        ),
{
    chain.prune_to(..end.into());
}

/// Clones what `PartialBlockchain::mmr` returns: the mountain range under the chain.
#[verifier::external_body]
pub(crate) fn blockchain_mmr(chain: &PartialBlockchain) -> (mmr: PartialMmr)
    ensures
        mmr_leaves(mmr) == chain_leaves(*chain),
        mmr_peaks(mmr) == chain_peaks(*chain),
        mmr_tracked(mmr) == chain_tracked(*chain),
        mmr_nodes(mmr) == chain_nodes(*chain),
{
    chain.mmr().clone()
}

/// The headers that stay when every header numbered below `end` is dropped.
pub open spec fn kept_blocks(blocks: Map<u32, Seq<u64>>, end: BlockNumber) -> Map<u32, Seq<u64>> {
    blocks.restrict(Set::new(|number: u32| number >= end))
}

/// The blocks whose headers are dropped when every header numbered below `end` is.
pub open spec fn dropped_blocks(blocks: Map<u32, Seq<u64>>, end: BlockNumber) -> Set<u32> {
    blocks.dom().filter(|number: u32| number < end)
}

/// The positions that stay tracked when every held header numbered below `end` is dropped.
pub open spec fn kept_positions(
    positions: Set<nat>,
    blocks: Map<u32, Seq<u64>>,
    end: BlockNumber,
) -> Set<nat> {
    positions.filter(|position: nat|
        !(position < end && blocks.contains_key(position as u32)))
}

// HEADERS
// ================================================================================================

/// What the crate reads in an encoded header: its number, its commitment, the commitment of the
/// block before it, and the transaction and note commitments it declares. `None` where the bytes
/// are not the encoding of a header.
pub uninterp spec fn header_parts(
    encoded: Seq<u8>,
) -> Option<(u32, Seq<u64>, Seq<u64>, Seq<u64>, Seq<u64>)>;

/// The values that decoding a header yields.
struct HeaderParts {
    block_num: BlockNumber,
    commitment: Word,
    prev_block_commitment: Word,
    tx_commitment: Word,
    note_root: Word,
}

impl View for HeaderParts {
    type V = (u32, Seq<u64>, Seq<u64>, Seq<u64>, Seq<u64>);

    closed spec fn view(&self) -> (u32, Seq<u64>, Seq<u64>, Seq<u64>, Seq<u64>) {
        (
            self.block_num,
            self.commitment@,
            self.prev_block_commitment@,
            self.tx_commitment@,
            self.note_root@,
        )
    }
}

/// Calls `BlockHeader::read_from_bytes` and the getters of the decoded header.
#[verifier::external_body]
fn decode_header(encoded: &[u8]) -> (parts: Option<HeaderParts>)
    ensures
        match parts {
            Some(parts) => header_parts(encoded@) == Some(parts@),
            None => parts is None && header_parts(encoded@) is None,
        },
{
    let header = miden_protocol::block::BlockHeader::read_from_bytes(encoded).ok()?;
    let word = |word: miden_protocol::Word| {
        Word::new(word.into_elements().map(|element| element.as_canonical_u64()))
    };
    Some(HeaderParts {
        block_num: header.block_num().as_u32(),
        commitment: word(header.commitment()),
        prev_block_commitment: word(header.prev_block_commitment()),
        tx_commitment: word(header.tx_commitment()),
        note_root: word(header.note_root()),
    })
}

/// The values of a decoded header, next to the encoding they came from.
#[verifier::ext_equal]
pub struct HeaderView {
    pub encoded: Seq<u8>,
    pub block_num: u32,
    pub commitment: Seq<u64>,
    pub prev_block_commitment: Seq<u64>,
    pub tx_commitment: Seq<u64>,
    pub note_root: Seq<u64>,
    pub protocol_config_commitment: Seq<u64>,
}

/// The header of a block.
///
/// It holds the encoded header and what the crate reads in it. The commitment to the protocol
/// configuration travels beside the encoding: neither the header's own commitment nor a signature
/// covers it, so whoever builds the header vouches for it.
pub struct BlockHeader {
    encoded: Vec<u8>,
    parts: HeaderParts,
    protocol_config_commitment: Word,
}

impl View for BlockHeader {
    type V = HeaderView;

    closed spec fn view(&self) -> HeaderView {
        HeaderView {
            encoded: self.encoded@,
            block_num: self.parts.block_num,
            commitment: self.parts.commitment@,
            prev_block_commitment: self.parts.prev_block_commitment@,
            tx_commitment: self.parts.tx_commitment@,
            note_root: self.parts.note_root@,
            protocol_config_commitment: self.protocol_config_commitment@,
        }
    }
}

impl HeaderView {
    /// The values are those that decoding the encoding yields.
    pub open spec fn decoded(self) -> bool {
        header_parts(self.encoded) == Some(
            (
                self.block_num,
                self.commitment,
                self.prev_block_commitment,
                self.tx_commitment,
                self.note_root,
            ),
        )
    }
}

impl BlockHeader {
    #[verifier::type_invariant]
    spec fn decoded(&self) -> bool {
        self@.decoded()
    }

    /// Decodes a header. `None` exactly where the bytes are not the encoding of one.
    pub fn read_from_bytes(encoded: Vec<u8>, protocol_config_commitment: Word) -> (header: Option<
        BlockHeader,
    >)
        ensures
            header is Some <==> header_parts(encoded@) is Some,
            header matches Some(header) ==> {
                &&& header@.encoded == encoded@
                &&& header@.decoded()
                &&& header@.protocol_config_commitment == protocol_config_commitment@
            },
    {
        let parts = decode_header(encoded.as_slice())?;
        Some(BlockHeader { encoded, parts, protocol_config_commitment })
    }

    /// The encoded header.
    pub fn as_bytes(&self) -> (encoded: &Vec<u8>)
        ensures
            encoded@ == self@.encoded,
            self@.decoded(),
    {
        proof {
            use_type_invariant(self);
        }
        &self.encoded
    }

    /// Number of the block.
    pub fn block_num(&self) -> (block_num: BlockNumber)
        ensures
            block_num == self@.block_num,
    {
        self.parts.block_num
    }

    /// Commitment to the whole header.
    pub fn commitment(&self) -> (commitment: Word)
        ensures
            commitment@ == self@.commitment,
    {
        self.parts.commitment
    }

    /// Commitment to the header of the block before this one.
    pub fn prev_block_commitment(&self) -> (commitment: Word)
        ensures
            commitment@ == self@.prev_block_commitment,
    {
        self.parts.prev_block_commitment
    }

    /// Commitment to the transactions of the block.
    pub fn tx_commitment(&self) -> (commitment: Word)
        ensures
            commitment@ == self@.tx_commitment,
    {
        self.parts.tx_commitment
    }

    /// Root of the tree of the notes that the block creates.
    pub fn note_root(&self) -> (root: Word)
        ensures
            root@ == self@.note_root,
    {
        self.parts.note_root
    }

    /// Commitment to the protocol configuration that is active in the block.
    pub fn protocol_config_commitment(&self) -> (commitment: Word)
        ensures
            commitment@ == self@.protocol_config_commitment,
    {
        self.protocol_config_commitment
    }
}

impl Clone for BlockHeader {
    fn clone(&self) -> (copy: BlockHeader)
        ensures
            copy@ == self@,
    {
        proof {
            use_type_invariant(self);
        }
        let mut encoded: Vec<u8> = Vec::new();
        encoded.extend_from_slice(self.encoded.as_slice());
        assert(encoded@ =~= self.encoded@);
        let parts = HeaderParts {
            block_num: self.parts.block_num,
            commitment: self.parts.commitment,
            prev_block_commitment: self.parts.prev_block_commitment,
            tx_commitment: self.parts.tx_commitment,
            note_root: self.parts.note_root,
        };
        BlockHeader { encoded, parts, protocol_config_commitment: self.protocol_config_commitment }
    }
}

// SIGNED BLOCKS
// ================================================================================================

/// What the crate reads in an encoded signed block: the encoding of its header, the commitment to
/// the transactions of its body, and for each note of its body the batch it belongs to and its
/// place in that batch. `None` where the bytes are not the encoding of a signed block.
pub uninterp spec fn block_parts(
    encoded: Seq<u8>,
) -> Option<(Seq<u8>, Seq<u64>, Seq<(usize, usize)>)>;

/// Root of the tree over the notes in the body of an encoded block.
pub uninterp spec fn block_note_root(encoded: Seq<u8>) -> Seq<u64>;

/// Whether the signature of an encoded block signs the commitment of its header with the key that
/// an encoded parent header names.
pub uninterp spec fn block_signed_for(encoded: Seq<u8>, parent: Seq<u8>) -> bool;

/// Most batches that a block can hold.
pub const MAX_BATCHES_PER_BLOCK: usize = 64;

/// Most notes that a batch can create.
pub const MAX_OUTPUT_NOTES_PER_BATCH: usize = 1024;

/// Every note has a place in the tree and no two share one.
pub open spec fn places_are_distinct(places: Seq<(usize, usize)>) -> bool {
    &&& forall|i: int|
        0 <= i < places.len() ==> (#[trigger] places[i]).0 < MAX_BATCHES_PER_BLOCK && places[i].1
            < MAX_OUTPUT_NOTES_PER_BATCH
    &&& places.no_duplicates()
}

/// The values that decoding a signed block yields.
struct BlockParts {
    header: Vec<u8>,
    tx_commitment: Word,
    note_places: Vec<(usize, usize)>,
}

impl View for BlockParts {
    type V = (Seq<u8>, Seq<u64>, Seq<(usize, usize)>);

    closed spec fn view(&self) -> (Seq<u8>, Seq<u64>, Seq<(usize, usize)>) {
        (self.header@, self.tx_commitment@, self.note_places@)
    }
}

/// Calls `SignedBlock::read_from_bytes`, encodes the header of the decoded block, and calls
/// `BlockBody::transaction_commitment` and `BlockBody::output_note_batches` on its body.
#[verifier::external_body]
fn decode_block(encoded: &[u8]) -> (parts: Option<BlockParts>)
    ensures
        match parts {
            Some(parts) => block_parts(encoded@) == Some(parts@),
            None => parts is None && block_parts(encoded@) is None,
        },
{
    let block = miden_protocol::block::SignedBlock::read_from_bytes(encoded).ok()?;
    let tx_commitment = block.body().transaction_commitment().into_elements();
    let batches = block.body().output_note_batches().iter().enumerate();
    Some(BlockParts {
        header: block.header().to_bytes(),
        tx_commitment: Word::new(tx_commitment.map(|element| element.as_canonical_u64())),
        note_places: batches
            .flat_map(|(batch, notes)| notes.iter().map(move |(place, _)| (batch, *place)))
            .collect(),
    })
}

/// Calls `BlockBody::compute_block_note_tree` on the body of a block and takes the root. The call
/// panics where two notes share a place in the tree or a note has none.
#[verifier::external_body]
fn decode_note_root(encoded: &[u8]) -> (root: Word)
    requires
        block_parts(encoded@) is Some,
        places_are_distinct(block_parts(encoded@).unwrap().2),
    ensures
        root@ == block_note_root(encoded@),
{
    let block = miden_protocol::block::SignedBlock::read_from_bytes(encoded);
    let tree = block.expect("the block decodes").body().compute_block_note_tree();
    Word::new(tree.root().into_elements().map(|element| element.as_canonical_u64()))
}

/// Calls `Signature::verify` with the commitment of the block's header and the parent's key.
#[verifier::external_body]
fn verify_signature(encoded: &[u8], parent: &[u8]) -> (verified: bool)
    requires
        block_parts(encoded@) is Some,
        header_parts(parent@) is Some,
    ensures
        verified == block_signed_for(encoded@, parent@),
{
    let block = miden_protocol::block::SignedBlock::read_from_bytes(encoded);
    let block = block.expect("the block decodes");
    let parent = miden_protocol::block::BlockHeader::read_from_bytes(parent);
    let parent = parent.expect("the parent decodes");
    block.signature().verify(block.header().commitment(), parent.validator_key())
}

/// Index of a place in the tree of the notes of a block.
spec fn tree_index(place: (usize, usize)) -> int {
    place.0 * MAX_OUTPUT_NOTES_PER_BATCH + place.1
}

/// Whether every note has a place in the tree and no two share one.
fn are_places_distinct(places: &Vec<(usize, usize)>) -> (distinct: bool)
    ensures
        distinct == places_are_distinct(places@),
{
    broadcast use vstd::std_specs::hash::group_hash_axioms;

    let mut seen: HashSet<usize> = HashSet::new();
    let mut i: usize = 0;
    while i < places.len()
        invariant
            i <= places.len(),
            places_are_distinct(places@.take(i as int)),
            forall|index: usize|
                seen@.contains(index) <==> exists|j: int|
                    0 <= j < i && tree_index(#[trigger] places@[j]) == index,
        decreases places.len() - i,
    {
        let (batch, place) = places[i];
        if batch >= MAX_BATCHES_PER_BLOCK || place >= MAX_OUTPUT_NOTES_PER_BATCH {
            return false;
        }
        let index: usize = batch * MAX_OUTPUT_NOTES_PER_BATCH + place;
        assert(tree_index(places@[i as int]) == index);
        if !seen.insert(index) {
            let ghost j = choose|j: int|
                0 <= j < i && tree_index(#[trigger] places@[j]) == index;
            assert(places@.take(i as int)[j] == places@[j]);
            assert(places@[j] == places@[i as int]);
            return false;
        }
        proof {
            let before = places@.take(i as int);
            let after = places@.take(i + 1);
            assert(after =~= before.push(places@[i as int]));
            assert forall|j: int| 0 <= j < i implies before[j] != places@[i as int] by {
                assert(before[j] == places@[j]);
            }
        }
        i += 1;
    }
    assert(places@.take(places.len() as int) =~= places@);
    true
}

/// Why a signed block does not extend the chain.
#[allow(inconsistent_fields)]
#[derive(Clone, Copy, Debug, PartialEq, Eq, Structural)]
pub enum SignedBlockError {
    /// The header declares other transactions than the body holds.
    TxCommitmentMismatch { header_tx_commitment: Word, body_tx_commitment: Word },
    /// The header declares other notes than the body holds.
    NoteRootMismatch { header_root: Word, body_root: Word },
    /// The first block has no parent.
    GenesisBlockHasNoParent { parent: BlockNumber },
    /// The parent is not the block right before this one.
    ParentNumberMismatch { expected: BlockNumber, parent: BlockNumber },
    /// The block was built on another parent.
    ParentCommitmentMismatch { expected: Word, parent: Word },
    /// The block is not signed with the key that its parent names.
    InvalidSignature,
}

impl SignedBlockError {
    /// The text of the error.
    pub open spec fn text(self) -> Seq<char> {
        match self {
            SignedBlockError::TxCommitmentMismatch { header_tx_commitment, body_tx_commitment } => {
                "header tx commitment ("@ + word_text(header_tx_commitment)
                    + ") does not match body tx commitment ("@ + word_text(body_tx_commitment)
                    + ")"@
            },
            SignedBlockError::NoteRootMismatch { header_root, body_root } => {
                "signed block header note root ("@ + word_text(header_root)
                    + ") does not match the corresponding body's note root ("@ + word_text(
                    body_root,
                ) + ")"@
            },
            SignedBlockError::GenesisBlockHasNoParent { parent } => {
                "supplied parent block ("@ + decimal_text(parent as nat)
                    + ") cannot be parent to genesis block"@
            },
            SignedBlockError::ParentNumberMismatch { expected, parent } => {
                "parent block number ("@ + decimal_text(parent as nat)
                    + ") is not signed block number - 1 ("@ + decimal_text(expected as nat) + ")"@
            },
            SignedBlockError::ParentCommitmentMismatch { expected, parent } => {
                "signed block previous block commitment ("@ + word_text(expected)
                    + ") does not match expected parent's block commitment ("@ + word_text(parent)
                    + ")"@
            },
            SignedBlockError::InvalidSignature => {
                "ECDSA signature verification failed based on the signed block's header commitment, validator public key and signature"@
            },
        }
    }

    /// Returns the text of the error.
    pub fn message(&self) -> (message: String)
        ensures
            message@ == self.text(),
    {
        match *self {
            SignedBlockError::TxCommitmentMismatch { header_tx_commitment, body_tx_commitment } => {
                let mut message = "header tx commitment (".to_owned();
                push_word(&mut message, header_tx_commitment);
                message.append(") does not match body tx commitment (");
                push_word(&mut message, body_tx_commitment);
                message.append(")");
                message
            },
            SignedBlockError::NoteRootMismatch { header_root, body_root } => {
                let mut message = "signed block header note root (".to_owned();
                push_word(&mut message, header_root);
                message.append(") does not match the corresponding body's note root (");
                push_word(&mut message, body_root);
                message.append(")");
                message
            },
            SignedBlockError::GenesisBlockHasNoParent { parent } => {
                let mut message = "supplied parent block (".to_owned();
                push_decimal(&mut message, parent);
                message.append(") cannot be parent to genesis block");
                message
            },
            SignedBlockError::ParentNumberMismatch { expected, parent } => {
                let mut message = "parent block number (".to_owned();
                push_decimal(&mut message, parent);
                message.append(") is not signed block number - 1 (");
                push_decimal(&mut message, expected);
                message.append(")");
                message
            },
            SignedBlockError::ParentCommitmentMismatch { expected, parent } => {
                let mut message = "signed block previous block commitment (".to_owned();
                push_word(&mut message, expected);
                message.append(") does not match expected parent's block commitment (");
                push_word(&mut message, parent);
                message.append(")");
                message
            },
            SignedBlockError::InvalidSignature => {
                "ECDSA signature verification failed based on the signed block's header commitment, validator public key and signature".to_owned()
            },
        }
    }
}

/// The values of a decoded block, next to the encoding they came from.
#[verifier::ext_equal]
pub struct SignedBlockView {
    pub encoded: Seq<u8>,
    pub header: HeaderView,
    pub body_tx_commitment: Seq<u64>,
}

impl SignedBlockView {
    /// The values are those that decoding the encoding yields, and the notes have places in the
    /// note tree.
    pub open spec fn decoded(self) -> bool {
        &&& block_parts(self.encoded) matches Some(parts) && {
            &&& parts.0 == self.header.encoded
            &&& parts.1 == self.body_tx_commitment
            &&& places_are_distinct(parts.2)
        }
        &&& self.header.decoded()
    }

    /// The header declares the transactions and the notes of the body.
    pub open spec fn is_consistent(self) -> bool {
        &&& self.header.tx_commitment == self.body_tx_commitment
        &&& self.header.note_root == block_note_root(self.encoded)
    }

    /// The block is the direct child of `parent`.
    pub open spec fn follows(self, parent: HeaderView) -> bool {
        &&& self.header.block_num == parent.block_num + 1
        &&& self.header.prev_block_commitment == parent.commitment
    }

    /// The block extends a chain whose tip is `parent`: its header matches its body, it is the
    /// direct child of the tip, and the key that the tip names signed it.
    pub open spec fn extends(self, parent: HeaderView) -> bool {
        &&& self.is_consistent()
        &&& self.follows(parent)
        &&& block_signed_for(self.encoded, parent.encoded)
    }

    /// The error that names the first condition of `extends` that fails.
    pub open spec fn rejected_with(self, parent: HeaderView, error: SignedBlockError) -> bool {
        match error {
            SignedBlockError::TxCommitmentMismatch { header_tx_commitment, body_tx_commitment } => {
                &&& self.header.tx_commitment != self.body_tx_commitment
                &&& header_tx_commitment@ == self.header.tx_commitment
                &&& body_tx_commitment@ == self.body_tx_commitment
            },
            SignedBlockError::NoteRootMismatch { header_root, body_root } => {
                &&& self.header.tx_commitment == self.body_tx_commitment
                &&& self.header.note_root != block_note_root(self.encoded)
                &&& header_root@ == self.header.note_root
                &&& body_root@ == block_note_root(self.encoded)
            },
            SignedBlockError::GenesisBlockHasNoParent { parent: number } => {
                &&& self.is_consistent()
                &&& self.header.block_num == 0
                &&& number == parent.block_num
            },
            SignedBlockError::ParentNumberMismatch { expected, parent: number } => {
                &&& self.is_consistent()
                &&& self.header.block_num != 0
                &&& self.header.block_num != parent.block_num + 1
                &&& expected == self.header.block_num - 1
                &&& number == parent.block_num
            },
            SignedBlockError::ParentCommitmentMismatch { expected, parent: commitment } => {
                &&& self.is_consistent()
                &&& self.header.block_num == parent.block_num + 1
                &&& self.header.prev_block_commitment != parent.commitment
                &&& expected@ == self.header.prev_block_commitment
                &&& commitment@ == parent.commitment
            },
            SignedBlockError::InvalidSignature => {
                &&& self.is_consistent()
                &&& self.follows(parent)
                &&& !block_signed_for(self.encoded, parent.encoded)
            },
        }
    }
}

/// A block that the validator signed.
pub struct SignedBlock {
    encoded: Vec<u8>,
    header: BlockHeader,
    body_tx_commitment: Word,
}

impl View for SignedBlock {
    type V = SignedBlockView;

    closed spec fn view(&self) -> SignedBlockView {
        SignedBlockView {
            encoded: self.encoded@,
            header: self.header@,
            body_tx_commitment: self.body_tx_commitment@,
        }
    }
}

/// The bytes are the encoding of a signed block whose notes have places in the note tree.
pub open spec fn is_block_encoding(encoded: Seq<u8>) -> bool {
    block_parts(encoded) matches Some(parts) && places_are_distinct(parts.2) && header_parts(
        parts.0,
    ) is Some
}

impl SignedBlock {
    #[verifier::type_invariant]
    spec fn decoded(&self) -> bool {
        self@.decoded()
    }

    /// Decodes a signed block. `None` exactly where the bytes are not the encoding of one whose
    /// notes have places in the note tree.
    pub fn read_from_bytes(encoded: Vec<u8>, protocol_config_commitment: Word) -> (block: Option<
        SignedBlock,
    >)
        ensures
            block is Some <==> is_block_encoding(encoded@),
            block matches Some(block) ==> {
                &&& block@.encoded == encoded@
                &&& block@.decoded()
                &&& block@.header.protocol_config_commitment == protocol_config_commitment@
            },
    {
        let parts = decode_block(encoded.as_slice())?;
        if !are_places_distinct(&parts.note_places) {
            return None;
        }
        let header = BlockHeader::read_from_bytes(parts.header, protocol_config_commitment)?;
        Some(SignedBlock { encoded, header, body_tx_commitment: parts.tx_commitment })
    }

    /// The encoded block.
    pub fn as_bytes(&self) -> (encoded: &Vec<u8>)
        ensures
            encoded@ == self@.encoded,
            self@.decoded(),
    {
        proof {
            use_type_invariant(self);
        }
        &self.encoded
    }

    /// The header of the block.
    pub fn header(&self) -> (header: &BlockHeader)
        ensures
            header@ == self@.header,
            self@.decoded(),
    {
        proof {
            use_type_invariant(self);
        }
        &self.header
    }

    /// Checks that the block extends a chain whose tip is `parent`.
    ///
    /// `parent` must come from the trusted chain. The signature is checked against the key that
    /// the parent names, so a block cannot authorize itself.
    pub fn validate(&self, parent: &BlockHeader) -> (result: Result<(), SignedBlockError>)
        ensures
            result is Ok <==> self@.extends(parent@),
            result matches Err(error) ==> self@.rejected_with(parent@, error),
    {
        broadcast use crate::word::lemma_word_view_injective;

        proof {
            use_type_invariant(self);
        }
        let header_tx_commitment = self.header.tx_commitment();
        let body_tx_commitment = self.body_tx_commitment;
        if header_tx_commitment != body_tx_commitment {
            return Err(
                SignedBlockError::TxCommitmentMismatch { header_tx_commitment, body_tx_commitment },
            );
        }
        let header_root = self.header.note_root();
        let body_root = decode_note_root(self.encoded.as_slice());
        if header_root != body_root {
            return Err(SignedBlockError::NoteRootMismatch { header_root, body_root });
        }
        let parent_num = parent.block_num();
        if self.header.block_num() == 0 {
            return Err(SignedBlockError::GenesisBlockHasNoParent { parent: parent_num });
        }
        let expected: BlockNumber = self.header.block_num() - 1;
        if expected != parent_num {
            return Err(SignedBlockError::ParentNumberMismatch { expected, parent: parent_num });
        }
        let expected = self.header.prev_block_commitment();
        let commitment = parent.commitment();
        if expected != commitment {
            return Err(SignedBlockError::ParentCommitmentMismatch { expected, parent: commitment });
        }
        let parent_encoded = parent.as_bytes();
        if !verify_signature(self.encoded.as_slice(), parent_encoded.as_slice()) {
            return Err(SignedBlockError::InvalidSignature);
        }
        Ok(())
    }
}

// LAWS
// ================================================================================================

/// A block extends a chain exactly where its header declares the transactions and the notes of its
/// body, its number is the next one, it was built on the tip, and the key that the tip names signed
/// it. Nothing else decides.
pub proof fn law_block_extends_its_signed_parent(block: SignedBlockView, parent: HeaderView)
    ensures
        block.extends(parent) <==> {
            &&& block.header.tx_commitment == block.body_tx_commitment
            &&& block.header.note_root == block_note_root(block.encoded)
            &&& block.header.block_num == parent.block_num + 1
            &&& block.header.prev_block_commitment == parent.commitment
            &&& block_signed_for(block.encoded, parent.encoded)
        },
{
}

/// A block that is rejected does not extend the chain, and the error names the first thing that is
/// wrong, with the values that disagree: the transactions, then the notes, then the number, then
/// the parent, and last the signature.
pub proof fn law_rejection_names_the_first_fault(
    block: SignedBlockView,
    parent: HeaderView,
    error: SignedBlockError,
)
    requires
        block.rejected_with(parent, error),
    ensures
        !block.extends(parent),
        error is TxCommitmentMismatch <==> block.header.tx_commitment != block.body_tx_commitment,
        error is NoteRootMismatch <==> block.header.tx_commitment == block.body_tx_commitment
            && block.header.note_root != block_note_root(block.encoded),
        error is GenesisBlockHasNoParent <==> block.header.tx_commitment
            == block.body_tx_commitment && block.header.note_root == block_note_root(block.encoded)
            && block.header.block_num == 0,
        error is ParentNumberMismatch ==> block.header.block_num != 0 && block.header.block_num
            != parent.block_num + 1,
        error is ParentCommitmentMismatch ==> block.header.block_num == parent.block_num + 1
            && block.header.prev_block_commitment != parent.commitment,
        error is InvalidSignature ==> block.header.block_num == parent.block_num + 1
            && block.header.prev_block_commitment == parent.commitment && !block_signed_for(
            block.encoded,
            parent.encoded,
        ),
        error matches SignedBlockError::TxCommitmentMismatch {
            header_tx_commitment,
            body_tx_commitment,
        } ==> header_tx_commitment@ == block.header.tx_commitment && body_tx_commitment@
            == block.body_tx_commitment,
        error matches SignedBlockError::NoteRootMismatch { header_root, body_root } ==> header_root@
            == block.header.note_root && body_root@ == block_note_root(block.encoded),
        error matches SignedBlockError::GenesisBlockHasNoParent { parent: number } ==> number
            == parent.block_num,
        error matches SignedBlockError::ParentNumberMismatch { expected, parent: number }
            ==> expected + 1 == block.header.block_num && number == parent.block_num,
        error matches SignedBlockError::ParentCommitmentMismatch { expected, parent: commitment }
            ==> expected@ == block.header.prev_block_commitment && commitment@ == parent.commitment,
{
}

/// A block is rejected for one reason only.
pub proof fn law_rejection_is_unique(
    block: SignedBlockView,
    parent: HeaderView,
    a: SignedBlockError,
    b: SignedBlockError,
)
    requires
        block.rejected_with(parent, a),
        block.rejected_with(parent, b),
    ensures
        a == b,
{
    broadcast use crate::word::lemma_word_view_injective;

}

/// A header or a block is what its bytes decode to: two with the same bytes agree in every value
/// that decoding yields.
pub proof fn law_bytes_decide_a_block(a: SignedBlockView, b: SignedBlockView)
    requires
        a.decoded(),
        b.decoded(),
        a.encoded == b.encoded,
    ensures
        a.body_tx_commitment == b.body_tx_commitment,
        a.header.encoded == b.header.encoded,
        a.header.block_num == b.header.block_num,
        a.header.commitment == b.header.commitment,
        a.header.prev_block_commitment == b.header.prev_block_commitment,
        a.header.tx_commitment == b.header.tx_commitment,
        a.header.note_root == b.header.note_root,
{
}

/// The values of a decoded header are those that its bytes yield, each in its place.
pub proof fn law_header_holds_what_its_bytes_yield(header: HeaderView)
    ensures
        header.decoded() <==> {
            &&& header_parts(header.encoded) is Some
            &&& header_parts(header.encoded).unwrap().0 == header.block_num
            &&& header_parts(header.encoded).unwrap().1 == header.commitment
            &&& header_parts(header.encoded).unwrap().2 == header.prev_block_commitment
            &&& header_parts(header.encoded).unwrap().3 == header.tx_commitment
            &&& header_parts(header.encoded).unwrap().4 == header.note_root
        },
{
}

/// Bytes encode a block exactly where they decode to one whose header decodes too, and whose notes
/// lie in the note tree, each in a place of its own.
pub proof fn law_block_encoding_gives_every_note_its_place(encoded: Seq<u8>)
    ensures
        is_block_encoding(encoded) <==> {
            &&& block_parts(encoded) is Some
            &&& header_parts(block_parts(encoded).unwrap().0) is Some
            &&& forall|i: int|
                0 <= i < block_parts(encoded).unwrap().2.len() ==> (#[trigger] block_parts(
                    encoded,
                ).unwrap().2[i]).0 < 64 && block_parts(encoded).unwrap().2[i].1 < 1024
            &&& forall|i: int, j: int|
                0 <= i < j < block_parts(encoded).unwrap().2.len() ==> #[trigger] block_parts(
                    encoded,
                ).unwrap().2[i] != #[trigger] block_parts(encoded).unwrap().2[j]
        },
{
}

/// Pruning below a number drops the headers and paths below it and keeps all others, unchanged. A
/// position without a header stays.
pub proof fn law_pruning_drops_what_is_below(
    blocks: Map<u32, Seq<u64>>,
    positions: Set<nat>,
    end: BlockNumber,
    number: u32,
    position: nat,
)
    ensures
        kept_blocks(blocks, end).contains_key(number) <==> blocks.contains_key(number) && end
            <= number,
        kept_blocks(blocks, end).contains_key(number) ==> kept_blocks(blocks, end)[number]
            == blocks[number],
        dropped_blocks(blocks, end).contains(number) <==> blocks.contains_key(number) && number
            < end,
        kept_positions(positions, blocks, end).contains(position) <==> positions.contains(position)
            && !(position < end && exists|held: u32| #[trigger]
            blocks.contains_key(held) && held == position),
{
    if position < end {
        assert(position as u32 == position);
    }
}

/// A mountain range never has more leaves than fit a block number.
pub proof fn law_chain_length_fits_a_block_number()
    ensures
        max_chain_length() <= u32::MAX,
        max_chain_length() <= usize::MAX / 2,
        max_chain_length() == u32::MAX || max_chain_length() == usize::MAX / 2,
{
}

/// An error of a block says what disagrees and names both values.
pub proof fn law_block_error_names_both_values(a: Word, b: Word, m: BlockNumber, n: BlockNumber)
    ensures
        (SignedBlockError::TxCommitmentMismatch {
            header_tx_commitment: a,
            body_tx_commitment: b,
        }).text() == "header tx commitment ("@ + word_text(a)
            + ") does not match body tx commitment ("@ + word_text(b) + ")"@,
        (SignedBlockError::NoteRootMismatch { header_root: a, body_root: b }).text()
            == "signed block header note root ("@ + word_text(a)
            + ") does not match the corresponding body's note root ("@ + word_text(b) + ")"@,
        (SignedBlockError::ParentCommitmentMismatch { expected: a, parent: b }).text()
            == "signed block previous block commitment ("@ + word_text(a)
            + ") does not match expected parent's block commitment ("@ + word_text(b) + ")"@,
        (SignedBlockError::ParentNumberMismatch { expected: m, parent: n }).text()
            == "parent block number ("@ + decimal_text(n as nat)
            + ") is not signed block number - 1 ("@ + decimal_text(m as nat) + ")"@,
        (SignedBlockError::GenesisBlockHasNoParent { parent: n }).text()
            == "supplied parent block ("@ + decimal_text(n as nat)
            + ") cannot be parent to genesis block"@,
{
}

} // verus!
