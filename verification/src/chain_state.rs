//! The chain as far as building network transactions needs it.

use std::sync::Arc;

use miden_protocol::crypto::merkle::mmr::PartialMmr;
use miden_protocol::transaction::PartialBlockchain;
use vstd::prelude::*;

use crate::protocol::{
    appended_nodes, appended_peaks, blockchain_add_block, blockchain_clone, blockchain_length,
    blockchain_mmr, blockchain_new, blockchain_prune_to, chain_blocks, chain_leaves, chain_nodes,
    chain_peaks, chain_tracked, dropped_blocks, is_fitting_range, is_range_fitting, kept_blocks,
    kept_positions, max_chain_length, mmr_leaves, mmr_nodes, mmr_peaks, mmr_tracked, pruned_nodes,
    BlockHeader, HeaderView, SignedBlock, SignedBlockError, SignedBlockView,
};
use crate::range::nodes_fit;
use crate::shared::share;
use crate::word::{BlockNumber, Word};

verus! {

/// A protocol configuration: its encoding and the commitment to it.
///
/// Nothing here computes the commitment from the encoding: whoever builds the value vouches that
/// the two belong together.
#[derive(Debug)]
pub struct ProtocolConfig {
    pub commitment: Word,
    pub encoded: Vec<u8>,
}

/// Why a chain has no next snapshot.
#[derive(Clone, Copy, Debug, PartialEq, Eq, Structural)]
pub enum ChainStateError {
    /// The block does not extend the chain.
    InvalidBlock(SignedBlockError),
    /// The supplied configuration is not the one that the header commits to.
    ConfigCommitmentMismatch,
    /// The header commits to another configuration than the active one, and none was supplied.
    ConfigOmitted,
}

impl ChainStateError {
    /// The text of the error.
    pub open spec fn text(self) -> Seq<char> {
        match self {
            ChainStateError::InvalidBlock(error) => error.text(),
            ChainStateError::ConfigCommitmentMismatch => {
                "block protocol config commitment does not match its header"@
            },
            ChainStateError::ConfigOmitted => "committed block omitted a changed protocol config"@,
        }
    }

    /// Returns the text of the error.
    pub fn message(&self) -> (message: String)
        ensures
            message@ == self.text(),
    {
        match self {
            ChainStateError::InvalidBlock(error) => error.message(),
            ChainStateError::ConfigCommitmentMismatch => {
                "block protocol config commitment does not match its header".to_owned()
            },
            ChainStateError::ConfigOmitted => {
                "committed block omitted a changed protocol config".to_owned()
            },
        }
    }
}

/// What a chain snapshot holds.
#[verifier::ext_equal]
pub struct ChainView {
    /// Header of the tip.
    pub tip: HeaderView,
    /// Commitments of the blocks whose headers are held.
    pub blocks: Map<u32, Seq<u64>>,
    /// Number of blocks in the mountain range.
    pub leaves: nat,
    /// Peaks of the mountain range.
    pub peaks: Seq<Seq<u64>>,
    /// Blocks for which the mountain range keeps an authentication path.
    pub positions: Set<nat>,
    /// Nodes that the mountain range keeps for these paths.
    pub nodes: Map<nat, Seq<u64>>,
    /// The active configuration.
    pub protocol_config: ProtocolConfig,
}

/// First block that stays when a chain of `length` blocks keeps its last `max_block_count`.
pub open spec fn first_kept(length: nat, max_block_count: nat) -> BlockNumber {
    if length > max_block_count {
        (length - max_block_count) as u32
    } else {
        0
    }
}

impl ChainView {
    /// The mountain range lags the tip by one block: it holds every block before the tip.
    pub open spec fn lags_by_one(self) -> bool {
        self.leaves == self.tip.block_num
    }

    /// The mountain range lags the tip by one block and has room for the tip.
    pub open spec fn has_room(self) -> bool {
        &&& self.lags_by_one()
        &&& self.leaves < max_chain_length()
    }

    /// The nodes that the mountain range keeps belong to its peaks.
    pub open spec fn is_fitting(self) -> bool {
        nodes_fit(self.nodes, self.peaks, self.leaves)
    }

    /// The tip can join the mountain range.
    pub open spec fn can_grow(self) -> bool {
        &&& self.has_room()
        &&& self.is_fitting()
    }

    /// The tip commits to the active configuration.
    pub open spec fn config_is_active(self) -> bool {
        self.tip.protocol_config_commitment == self.protocol_config.commitment@
    }

    /// Every held header belongs to a block of the mountain range and has its path there.
    pub open spec fn headers_are_tracked(self) -> bool {
        forall|number: u32| #[trigger]
            self.blocks.contains_key(number) ==> number < self.leaves && self.positions.contains(
                number as nat,
            )
    }

    /// The headers that are held are those of the last `max_block_count` blocks of the mountain
    /// range, as far as they were added at or after `start`.
    pub open spec fn holds_window(self, start: nat, max_block_count: nat) -> bool {
        forall|number: u32| #[trigger]
            self.blocks.contains_key(number) <==> start <= number < self.leaves && self.leaves
                <= number + max_block_count
    }

    /// The configuration under a tip for which `supplied` came with the block.
    pub open spec fn next_config(self, supplied: Option<ProtocolConfig>) -> ProtocolConfig {
        match supplied {
            Some(config) => config,
            None => self.protocol_config,
        }
    }

    /// The configuration that goes with a tip is the one that the tip commits to.
    pub open spec fn accepts_config(self, tip: HeaderView, supplied: Option<ProtocolConfig>) -> bool {
        self.next_config(supplied).commitment@ == tip.protocol_config_commitment
    }

    /// The block extends the chain and comes with the configuration it needs.
    pub open spec fn accepts(
        self,
        block: SignedBlockView,
        supplied: Option<ProtocolConfig>,
    ) -> bool {
        &&& block.extends(self.tip)
        &&& self.accepts_config(block.header, supplied)
    }

    /// The snapshot after this one: the old tip joins the mountain range, `tip` becomes the tip,
    /// and only the last `max_block_count` blocks keep their headers and paths.
    pub open spec fn advanced(
        self,
        tip: HeaderView,
        supplied: Option<ProtocolConfig>,
        max_block_count: nat,
    ) -> ChainView {
        let grown = self.blocks.insert(self.tip.block_num, self.tip.commitment);
        let first = first_kept(self.leaves + 1, max_block_count);
        ChainView {
            tip,
            blocks: kept_blocks(grown, first),
            leaves: self.leaves + 1,
            peaks: appended_peaks(self.peaks, self.leaves, self.tip.commitment),
            positions: kept_positions(self.positions.insert(self.leaves), grown, first),
            nodes: pruned_nodes(
                appended_nodes(
                    self.nodes,
                    self.peaks,
                    self.positions,
                    self.leaves,
                    self.tip.commitment,
                ),
                self.positions.insert(self.leaves),
                self.leaves + 1,
                dropped_blocks(grown, first),
            ),
            protocol_config: self.next_config(supplied),
        }
    }
}

/// Headers of a chain that grows block by block, each with the configuration that came with it.
pub type Growth = Seq<(HeaderView, Option<ProtocolConfig>)>;

impl ChainView {
    /// The snapshot after the given blocks.
    pub open spec fn grown(self, blocks: Growth, max_block_count: nat) -> ChainView
        decreases blocks.len(),
    {
        if blocks.len() == 0 {
            self
        } else {
            let (tip, supplied) = blocks.last();
            self.grown(blocks.drop_last(), max_block_count).advanced(tip, supplied, max_block_count)
        }
    }

    /// The blocks are numbered on from the tip, and the mountain range has room for them.
    pub open spec fn can_take(self, blocks: Growth) -> bool {
        &&& self.lags_by_one()
        &&& self.leaves + blocks.len() <= max_chain_length()
        &&& forall|i: int|
            0 <= i < blocks.len() ==> (#[trigger] blocks[i]).0.block_num == self.tip.block_num + 1
                + i
    }

    /// The header with the given number, among the tip and the blocks that follow it.
    pub open spec fn header_at(self, blocks: Growth, number: int) -> HeaderView {
        if number == self.tip.block_num {
            self.tip
        } else {
            blocks[number - self.tip.block_num - 1].0
        }
    }
}

/// A snapshot of the chain.
///
/// It holds the tip, a partial chain that lags the tip by one block, and the active protocol
/// configuration. The partial chain keeps headers and authentication paths of the latest blocks
/// only: notes are executed as unauthenticated, so older blocks need no proof.
pub struct ChainState {
    /// The current tip of the chain.
    pub chain_tip_header: BlockHeader,
    /// The chain before the tip.
    pub chain_mmr: Arc<PartialBlockchain>,
    /// The active protocol configuration for the tip.
    pub protocol_config: Arc<ProtocolConfig>,
}

impl View for ChainState {
    type V = ChainView;

    open spec fn view(&self) -> ChainView {
        ChainView {
            tip: self.chain_tip_header@,
            blocks: chain_blocks(*self.chain_mmr),
            leaves: chain_leaves(*self.chain_mmr),
            peaks: chain_peaks(*self.chain_mmr),
            positions: chain_tracked(*self.chain_mmr),
            nodes: chain_nodes(*self.chain_mmr),
            protocol_config: *self.protocol_config,
        }
    }
}

impl Clone for ChainState {
    fn clone(&self) -> (copy: ChainState)
        ensures
            copy@ == self@,
    {
        ChainState {
            chain_tip_header: self.chain_tip_header.clone(),
            chain_mmr: share(&self.chain_mmr),
            protocol_config: share(&self.protocol_config),
        }
    }
}

impl ChainState {
    /// Builds a snapshot from a tip, the mountain range over the blocks before it, and the
    /// configuration that the tip commits to.
    pub fn new(
        chain_tip_header: BlockHeader,
        chain_mmr: PartialMmr,
        protocol_config: ProtocolConfig,
    ) -> (chain: ChainState)
        requires
            chain_tip_header@.protocol_config_commitment == protocol_config.commitment@,
        ensures
            chain@ == (ChainView {
                tip: chain_tip_header@,
                blocks: Map::empty(),
                leaves: mmr_leaves(chain_mmr),
                peaks: mmr_peaks(chain_mmr),
                positions: mmr_tracked(chain_mmr),
                nodes: mmr_nodes(chain_mmr),
                protocol_config,
            }),
            chain@.config_is_active(),
            chain@.is_fitting() == is_fitting_range(chain_mmr),
            chain@.headers_are_tracked(),
            forall|max: nat| #[trigger] chain@.holds_window(chain@.leaves, max),
    {
        let chain_mmr = blockchain_new(chain_mmr);
        assert(chain_blocks(chain_mmr) =~= Map::empty());
        ChainState {
            chain_tip_header,
            chain_mmr: Arc::new(chain_mmr),
            protocol_config: Arc::new(protocol_config),
        }
    }

    /// Returns the tip, the partial chain and the configuration.
    pub fn into_parts(self) -> (parts: (BlockHeader, Arc<PartialBlockchain>, Arc<ProtocolConfig>))
        ensures
            parts == (self.chain_tip_header, self.chain_mmr, self.protocol_config),
    {
        (self.chain_tip_header, self.chain_mmr, self.protocol_config)
    }

    /// Returns a copy of the mountain range.
    pub fn current_mmr(&self) -> (mmr: PartialMmr)
        ensures
            mmr_leaves(mmr) == self@.leaves,
            mmr_peaks(mmr) == self@.peaks,
            mmr_tracked(mmr) == self@.positions,
            mmr_nodes(mmr) == self@.nodes,
            is_fitting_range(mmr) == self@.is_fitting(),
    {
        blockchain_mmr(&self.chain_mmr)
    }

    /// Whether the tip can join the mountain range: the range lags the tip by one block, has room
    /// for it, and keeps nodes that belong to its peaks.
    pub fn can_grow(&self) -> (grows: bool)
        ensures
            grows == self@.can_grow(),
    {
        let length = blockchain_length(&self.chain_mmr);
        let half: usize = usize::MAX / 2;
        let max: usize = if (u32::MAX as usize) < half {
            u32::MAX as usize
        } else {
            half
        };
        length == self.chain_tip_header.block_num() && (length as usize) < max
            && is_range_fitting(&blockchain_mmr(&self.chain_mmr))
    }

    /// Whether `block` extends the chain and comes with the configuration it needs.
    pub fn is_acceptable(
        &self,
        block: &SignedBlock,
        protocol_config: &Option<ProtocolConfig>,
    ) -> (acceptable: bool)
        ensures
            acceptable == self@.accepts(block@, *protocol_config),
    {
        broadcast use crate::word::lemma_word_view_injective;

        let commitment = match protocol_config {
            Some(config) => config.commitment,
            None => self.protocol_config.commitment,
        };
        commitment == block.header().protocol_config_commitment() && block.validate(
            &self.chain_tip_header,
        ).is_ok()
    }

    /// Checks that `block` extends the chain and builds the next snapshot.
    ///
    /// The block must be the direct child of the tip, so a repeated or an older block is refused
    /// and cannot take effect again.
    pub fn next_chain_tip(
        &self,
        block: &SignedBlock,
        protocol_config: Option<ProtocolConfig>,
        max_block_count: usize,
    ) -> (next: Result<ChainState, ChainStateError>)
        requires
            self@.accepts(block@, protocol_config) ==> self@.can_grow(),
        ensures
            next is Ok <==> self@.accepts(block@, protocol_config),
            next matches Ok(next) ==> next@ == self@.advanced(
                block@.header,
                protocol_config,
                max_block_count as nat,
            ) && next@.is_fitting(),
            next matches Err(error) ==> match error {
                ChainStateError::InvalidBlock(error) => block@.rejected_with(self@.tip, error),
                ChainStateError::ConfigCommitmentMismatch => block@.extends(self@.tip)
                    && protocol_config is Some,
                ChainStateError::ConfigOmitted => block@.extends(self@.tip)
                    && protocol_config is None,
            },
    {
        match block.validate(&self.chain_tip_header) {
            Ok(()) => {},
            Err(error) => {
                return Err(ChainStateError::InvalidBlock(error));
            },
        }
        self.next_tip_from_header(block.header().clone(), protocol_config, max_block_count)
    }

    /// Builds the next snapshot and prunes old blocks from its partial chain.
    ///
    /// The tip is not checked against the chain: a caller that holds a block uses
    /// [`ChainState::next_chain_tip`].
    pub fn next_tip_from_header(
        &self,
        tip: BlockHeader,
        protocol_config: Option<ProtocolConfig>,
        max_block_count: usize,
    ) -> (next: Result<ChainState, ChainStateError>)
        requires
            self@.accepts_config(tip@, protocol_config) ==> self@.can_grow(),
        ensures
            next is Ok <==> self@.accepts_config(tip@, protocol_config),
            next matches Err(error) ==> error == if protocol_config is Some {
                ChainStateError::ConfigCommitmentMismatch
            } else {
                ChainStateError::ConfigOmitted
            },
            next matches Ok(next) ==> next@ == self@.advanced(
                tip@,
                protocol_config,
                max_block_count as nat,
            ) && next@.is_fitting(),
    {
        broadcast use crate::word::lemma_word_view_injective;

        let next_config = match protocol_config {
            Some(config) => {
                if config.commitment != tip.protocol_config_commitment() {
                    return Err(ChainStateError::ConfigCommitmentMismatch);
                }
                Arc::new(config)
            },
            None => {
                if self.protocol_config.commitment != tip.protocol_config_commitment() {
                    return Err(ChainStateError::ConfigOmitted);
                }
                share(&self.protocol_config)
            },
        };

        // The mountain range lags by one block: the old tip joins it.
        let mut chain_mmr = blockchain_clone(&self.chain_mmr);
        let old_tip = self.chain_tip_header.as_bytes();
        blockchain_add_block(&mut chain_mmr, old_tip.as_slice());

        // Keep it pruned.
        let length = blockchain_length(&chain_mmr);
        let first: BlockNumber = if (length as usize) > max_block_count {
            (length as usize - max_block_count) as u32
        } else {
            0
        };
        blockchain_prune_to(&mut chain_mmr, first);

        Ok(
            ChainState {
                chain_tip_header: tip,
                chain_mmr: Arc::new(chain_mmr),
                protocol_config: next_config,
            },
        )
    }
}

// LAWS
// ================================================================================================

/// When a chain grows by the direct child of its tip, its mountain range keeps lagging the tip by
/// one block.
pub proof fn law_growing_keeps_the_lag(
    chain: ChainView,
    block: SignedBlockView,
    supplied: Option<ProtocolConfig>,
    max_block_count: nat,
)
    requires
        chain.lags_by_one(),
        block.extends(chain.tip),
    ensures
        chain.advanced(block.header, supplied, max_block_count).lags_by_one(),
{
}

/// The configuration of every snapshot is the one that its tip commits to.
pub proof fn law_growing_keeps_the_config_active(
    chain: ChainView,
    tip: HeaderView,
    supplied: Option<ProtocolConfig>,
    max_block_count: nat,
)
    requires
        chain.accepts_config(tip, supplied),
    ensures
        chain.advanced(tip, supplied, max_block_count).config_is_active(),
{
}

/// A header that is held always has its authentication path in the mountain range.
pub proof fn law_growing_keeps_headers_tracked(
    chain: ChainView,
    tip: HeaderView,
    supplied: Option<ProtocolConfig>,
    max_block_count: nat,
)
    requires
        chain.has_room(),
        chain.headers_are_tracked(),
    ensures
        chain.advanced(tip, supplied, max_block_count).headers_are_tracked(),
{
}

/// A chain that grows block by block holds the headers of its last `max_block_count` blocks, and
/// of no others.
pub proof fn law_growing_slides_the_window(
    chain: ChainView,
    tip: HeaderView,
    supplied: Option<ProtocolConfig>,
    start: nat,
    max_block_count: nat,
)
    requires
        chain.has_room(),
        start <= chain.leaves,
        chain.holds_window(start, max_block_count),
    ensures
        chain.advanced(tip, supplied, max_block_count).holds_window(start, max_block_count),
{
    let next = chain.advanced(tip, supplied, max_block_count);
    let first = first_kept(chain.leaves + 1, max_block_count);
    assert forall|number: u32| #[trigger] next.blocks.contains_key(number) <==> start <= number
        < next.leaves && next.leaves <= number + max_block_count by {
        assert(chain.blocks.contains_key(number) <==> start <= number < chain.leaves
            && chain.leaves <= number + max_block_count);
    }
}

/// However many blocks a fresh chain takes, its tip is the last of them, the mountain range lags
/// that tip by one block, and the headers it holds are those of its last `max_block_count` blocks,
/// each under its own number and with its path.
pub proof fn law_chain_holds_its_last_blocks(chain: ChainView, blocks: Growth, max_block_count: nat)
    requires
        chain.can_take(blocks),
        chain.blocks.dom().is_empty(),
    ensures
        ({
            let grown = chain.grown(blocks, max_block_count);
            &&& grown.tip == chain.header_at(blocks, chain.tip.block_num + blocks.len())
            &&& grown.lags_by_one()
            &&& grown.leaves == chain.leaves + blocks.len()
            &&& grown.holds_window(chain.leaves, max_block_count)
            &&& grown.headers_are_tracked()
            &&& forall|number: u32| #[trigger]
                grown.blocks.contains_key(number) ==> grown.blocks[number] == chain.header_at(
                    blocks,
                    number as int,
                ).commitment
        }),
    decreases blocks.len(),
{
    if blocks.len() > 0 {
        let front = blocks.drop_last();
        let (tip, supplied) = blocks.last();
        assert forall|i: int| 0 <= i < front.len() implies (#[trigger] front[i]).0.block_num
            == chain.tip.block_num + 1 + i by {
            assert(front[i] == blocks[i]);
        }
        law_chain_holds_its_last_blocks(chain, front, max_block_count);
        let before = chain.grown(front, max_block_count);
        let grown = chain.grown(blocks, max_block_count);
        assert(blocks[blocks.len() - 1].0.block_num == chain.tip.block_num + blocks.len());
        law_growing_slides_the_window(before, tip, supplied, chain.leaves, max_block_count);
        law_growing_keeps_headers_tracked(before, tip, supplied, max_block_count);
        assert(chain.header_at(front, before.tip.block_num as int) == chain.header_at(
            blocks,
            before.tip.block_num as int,
        ));
        assert forall|number: u32| #[trigger]
            grown.blocks.contains_key(number) implies grown.blocks[number] == chain.header_at(
            blocks,
            number as int,
        ).commitment by {
            if number != before.tip.block_num {
                assert(before.blocks.contains_key(number));
                assert(chain.header_at(front, number as int) == chain.header_at(
                    blocks,
                    number as int,
                ));
            }
        }
    }
}

/// No more than `max_block_count` headers are held.
pub proof fn law_window_is_bounded(chain: ChainView, start: nat, max_block_count: nat)
    requires
        chain.leaves <= max_chain_length(),
        chain.holds_window(start, max_block_count),
    ensures
        chain.blocks.dom().finite(),
        chain.blocks.dom().len() <= max_block_count,
{
    let first = if chain.leaves > max_block_count {
        chain.leaves - max_block_count
    } else {
        0
    };
    let window = vstd::set_lib::set_int_range(first, chain.leaves as int);
    vstd::set_lib::lemma_int_range(first, chain.leaves as int);
    let numbers = chain.blocks.dom();
    let places = numbers.map(|number: u32| number as int);
    assert(places.subset_of(window)) by {
        assert forall|place: int| places.contains(place) implies window.contains(place) by {
            let number = choose|number: u32| numbers.contains(number) && number as int == place;
            assert(chain.blocks.contains_key(number));
        }
    }
    vstd::set_lib::lemma_len_subset(places, window);
    let back = places.map(|place: int| place as u32);
    assert(numbers =~= back) by {
        assert forall|number: u32| numbers.contains(number) implies back.contains(number) by {
            assert(places.contains(number as int));
        }
    }
    vstd::set_lib::lemma_map_size_bound(places, back, |place: int| place as u32);
}

/// A block that the chain already has, or an older one, is rejected.
pub proof fn law_older_blocks_are_rejected(chain: ChainView, block: SignedBlockView)
    requires
        block.header.block_num <= chain.tip.block_num,
    ensures
        !block.extends(chain.tip),
{
}

/// A block that was applied cannot be applied again.
pub proof fn law_replayed_block_is_rejected(
    chain: ChainView,
    block: SignedBlockView,
    supplied: Option<ProtocolConfig>,
    max_block_count: nat,
)
    requires
        block.extends(chain.tip),
    ensures
        !block.extends(chain.advanced(block.header, supplied, max_block_count).tip),
{
}

/// A configuration that changes without being supplied is rejected.
pub proof fn law_omitted_config_is_rejected(chain: ChainView, tip: HeaderView)
    requires
        chain.config_is_active(),
        tip.protocol_config_commitment != chain.tip.protocol_config_commitment,
    ensures
        !chain.accepts_config(tip, None),
{
}

/// A block is accepted exactly where it extends the tip and its header commits to the
/// configuration it comes with: the supplied one, which may differ from the active one or not, or
/// else the active one.
pub proof fn law_block_is_accepted_with_its_own_config(
    chain: ChainView,
    block: SignedBlockView,
    config: ProtocolConfig,
)
    ensures
        chain.accepts(block, Some(config)) <==> block.extends(chain.tip) && config.commitment@
            == block.header.protocol_config_commitment,
        chain.accepts(block, None) <==> block.extends(chain.tip)
            && chain.protocol_config.commitment@ == block.header.protocol_config_commitment,
        chain.accepts_config(block.header, Some(config)) <==> config.commitment@
            == block.header.protocol_config_commitment,
        chain.accepts_config(block.header, None) <==> chain.protocol_config.commitment@
            == block.header.protocol_config_commitment,
{
}

/// Whether a supplied configuration is accepted does not depend on the configuration that was
/// active before.
pub proof fn law_supplied_config_counts_alone(
    a: ChainView,
    b: ChainView,
    block: SignedBlockView,
    config: ProtocolConfig,
)
    requires
        a.tip == b.tip,
    ensures
        a.accepts(block, Some(config)) == b.accepts(block, Some(config)),
{
}

/// The next snapshot has the new tip and the configuration that came with it, or else the old one.
pub proof fn law_next_snapshot_is_under_the_new_tip(
    chain: ChainView,
    tip: HeaderView,
    config: ProtocolConfig,
    max_block_count: nat,
)
    ensures
        chain.advanced(tip, Some(config), max_block_count).tip == tip,
        chain.advanced(tip, Some(config), max_block_count).protocol_config == config,
        chain.advanced(tip, None, max_block_count).tip == tip,
        chain.advanced(tip, None, max_block_count).protocol_config == chain.protocol_config,
{
}

/// Growing appends the commitment of the old tip to the mountain range: one leaf more, and the
/// peaks of a range with that leaf appended.
pub proof fn law_growing_appends_the_old_tip(
    chain: ChainView,
    tip: HeaderView,
    supplied: Option<ProtocolConfig>,
    max_block_count: nat,
)
    ensures
        ({
            let next = chain.advanced(tip, supplied, max_block_count);
            &&& next.leaves == chain.leaves + 1
            &&& next.peaks == appended_peaks(chain.peaks, chain.leaves, chain.tip.commitment)
        }),
{
}

/// After growing, a header is held exactly where it was held before or is the old tip, and is among
/// the last `max_block_count` blocks. It is the one that was held before, and the old tip has its
/// own commitment.
pub proof fn law_growing_holds_the_old_tip_and_the_recent_headers(
    chain: ChainView,
    tip: HeaderView,
    supplied: Option<ProtocolConfig>,
    max_block_count: nat,
    number: u32,
)
    requires
        chain.leaves == chain.tip.block_num,
        chain.leaves < max_chain_length(),
    ensures
        ({
            let next = chain.advanced(tip, supplied, max_block_count);
            &&& next.blocks.contains_key(number) <==> (chain.blocks.contains_key(number) || number
                == chain.tip.block_num) && chain.leaves + 1 <= number + max_block_count
            &&& next.blocks.contains_key(number) && number != chain.tip.block_num
                ==> next.blocks[number] == chain.blocks[number]
            &&& next.blocks.contains_key(chain.tip.block_num) ==> next.blocks[chain.tip.block_num]
                == chain.tip.commitment
        }),
{
}

/// After growing, a position has a path exactly where it had one before or is that of the old tip,
/// unless a header was dropped with it.
pub proof fn law_growing_keeps_the_recent_paths(
    chain: ChainView,
    tip: HeaderView,
    supplied: Option<ProtocolConfig>,
    max_block_count: nat,
    position: nat,
)
    requires
        chain.leaves == chain.tip.block_num,
        chain.leaves < max_chain_length(),
    ensures
        chain.advanced(tip, supplied, max_block_count).positions.contains(position) <==> {
            &&& chain.positions.contains(position) || position == chain.leaves
            &&& !(position + max_block_count < chain.leaves + 1 && (position == chain.leaves
                || exists|held: u32| #[trigger] chain.blocks.contains_key(held) && held == position))
        },
{
    let grown = chain.blocks.insert(chain.tip.block_num, chain.tip.commitment);
    let first = first_kept(chain.leaves + 1, max_block_count);
    if position < first {
        assert(position as u32 == position);
        assert(grown.contains_key(position as u32) <==> position == chain.leaves || exists|held: u32|
            #[trigger]
            chain.blocks.contains_key(held) && held == position);
    }
}

/// A chain can grow exactly where its range ends right before the tip, has room for one leaf more,
/// and keeps nodes that belong to its peaks.
pub proof fn law_chain_grows_where_the_tip_is_next(chain: ChainView)
    ensures
        chain.can_grow() <==> {
            &&& chain.leaves == chain.tip.block_num
            &&& chain.leaves < max_chain_length()
            &&& nodes_fit(chain.nodes, chain.peaks, chain.leaves)
        },
{
}

/// A snapshot shows its tip, its configuration, and what its partial chain holds.
pub proof fn law_snapshot_shows_its_parts(chain: ChainState)
    ensures
        chain@.tip == chain.chain_tip_header@,
        chain@.protocol_config == *chain.protocol_config,
        chain@.blocks == chain_blocks(*chain.chain_mmr),
        chain@.leaves == chain_leaves(*chain.chain_mmr),
        chain@.peaks == chain_peaks(*chain.chain_mmr),
        chain@.positions == chain_tracked(*chain.chain_mmr),
        chain@.nodes == chain_nodes(*chain.chain_mmr),
{
}

/// The notions of a sound snapshot mean what they say: its tip commits to its configuration, every
/// held header lies in the range with its path, and the held headers are those of the window.
pub proof fn law_sound_snapshot_means_what_it_says(
    chain: ChainView,
    start: nat,
    max_block_count: nat,
    number: u32,
)
    ensures
        chain.config_is_active() <==> chain.tip.protocol_config_commitment
            == chain.protocol_config.commitment@,
        chain.lags_by_one() <==> chain.leaves == chain.tip.block_num,
        chain.headers_are_tracked() && chain.blocks.contains_key(number) ==> number < chain.leaves
            && chain.positions.contains(number as nat),
        chain.holds_window(start, max_block_count) ==> (chain.blocks.contains_key(number) <==> start
            <= number < chain.leaves && chain.leaves <= number + max_block_count),
{
}

/// A chain grows block by block: by no block it stays as it is, and by one block more it advances
/// once more.
pub proof fn law_chain_grows_block_by_block(
    chain: ChainView,
    blocks: Growth,
    tip: HeaderView,
    supplied: Option<ProtocolConfig>,
    max_block_count: nat,
)
    ensures
        chain.grown(Seq::empty(), max_block_count) == chain,
        chain.grown(blocks.push((tip, supplied)), max_block_count) == chain.grown(
            blocks,
            max_block_count,
        ).advanced(tip, supplied, max_block_count),
{
    assert(blocks.push((tip, supplied)).drop_last() =~= blocks);
}

/// An error of the chain says what is wrong, in the words of the block's own error where there is
/// one.
pub proof fn law_chain_error_says_what_is_wrong(error: SignedBlockError)
    ensures
        ChainStateError::InvalidBlock(error).text() == error.text(),
        ChainStateError::ConfigCommitmentMismatch.text()
            == "block protocol config commitment does not match its header"@,
        ChainStateError::ConfigOmitted.text()
            == "committed block omitted a changed protocol config"@,
{
}

/// The nodes that a grown range keeps are those after the commitment of the old tip was appended
/// and its path was kept, less what only the paths of the dropped headers needed. The headers that
/// are dropped are the held ones that are more than `max_block_count` blocks behind the new end.
pub proof fn law_growing_keeps_the_nodes_of_kept_paths(
    chain: ChainView,
    tip: HeaderView,
    supplied: Option<ProtocolConfig>,
    max_block_count: nat,
)
    requires
        chain.leaves == chain.tip.block_num,
        chain.leaves < max_chain_length(),
    ensures
        ({
            let next = chain.advanced(tip, supplied, max_block_count);
            let dropped = Set::new(
                |number: u32|
                    {
                        &&& chain.blocks.contains_key(number) || number == chain.tip.block_num
                        &&& number + max_block_count < chain.leaves + 1
                    },
            );
            &&& next.peaks == appended_peaks(chain.peaks, chain.leaves, chain.tip.commitment)
            &&& next.nodes == pruned_nodes(
                appended_nodes(
                    chain.nodes,
                    chain.peaks,
                    chain.positions,
                    chain.leaves,
                    chain.tip.commitment,
                ),
                chain.positions.insert(chain.leaves),
                chain.leaves + 1,
                dropped,
            )
        }),
{
    let grown = chain.blocks.insert(chain.tip.block_num, chain.tip.commitment);
    let first = first_kept(chain.leaves + 1, max_block_count);
    let dropped = Set::new(
        |number: u32|
            {
                &&& chain.blocks.contains_key(number) || number == chain.tip.block_num
                &&& number + max_block_count < chain.leaves + 1
            },
    );
    assert(dropped_blocks(grown, first) =~= dropped);
}

} // verus!
