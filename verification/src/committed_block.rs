//! What a committed block changes.

use vstd::prelude::*;

use crate::protocol::BlockHeader;
use crate::word::{AccountId, Nullifier, TransactionId};

verus! {

/// What a committed block changes, as far as building network transactions is concerned.
pub struct CommittedBlockEffects<N, U> {
    /// Header of the block.
    pub header: BlockHeader,
    /// Notes for network accounts that the block creates.
    pub network_notes: Vec<N>,
    /// Notes that the block creates to sponsor others.
    pub sponsorship_notes: Vec<N>,
    /// Nullifiers of the notes that the block consumes.
    pub nullifiers: Vec<Nullifier>,
    /// Updates of network accounts.
    pub network_account_updates: Vec<(AccountId, U)>,
    /// The transactions of the block, in order, with the account each of them ran against.
    pub account_transactions: Vec<(AccountId, TransactionId)>,
}

impl<N, U> CommittedBlockEffects<N, U> {
    /// Whether the block commits a transaction for an account.
    pub fn commits(&self, account_id: AccountId, tx_id: TransactionId) -> (committed: bool)
        ensures
            committed == self.account_transactions@.contains((account_id, tx_id)),
    {
        let mut i: usize = 0;
        while i < self.account_transactions.len()
            invariant
                i <= self.account_transactions.len(),
                forall|j: int|
                    0 <= j < i ==> #[trigger] self.account_transactions@[j] != (account_id, tx_id),
            decreases self.account_transactions.len() - i,
        {
            let (account, tx) = self.account_transactions[i];
            if account == account_id && tx == tx_id {
                assert(self.account_transactions@[i as int] == (account_id, tx_id));
                return true;
            }
            i += 1;
        }
        false
    }
}

} // verus!
