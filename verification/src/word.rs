//! Plain identifiers and digests.

use vstd::prelude::*;

verus! {

/// Height of a block in the chain.
pub type BlockNumber = u32;

/// Identifier of an account: the prefix in the high 64 bits, the suffix in the low 64 bits.
pub type AccountId = u128;

/// A digest: four field elements in their canonical form.
#[derive(Clone, Copy, Debug, PartialEq, Eq, Structural)]
pub struct Word {
    pub e0: u64,
    pub e1: u64,
    pub e2: u64,
    pub e3: u64,
}

/// Identifier of a transaction.
pub type TransactionId = Word;

/// Identifier of a note.
pub type NoteId = Word;

/// Digest that a note leaves behind when it is consumed.
pub type Nullifier = Word;

impl View for Word {
    type V = Seq<u64>;

    open spec fn view(&self) -> Seq<u64> {
        seq![self.e0, self.e1, self.e2, self.e3]
    }
}

impl Word {
    /// Builds a digest from its elements.
    pub fn new(elements: [u64; 4]) -> (word: Word)
        ensures
            word@ == elements@,
    {
        let word = Word { e0: elements[0], e1: elements[1], e2: elements[2], e3: elements[3] };
        assert(word@ =~= elements@);
        word
    }
}

/// Two digests with the same elements are the same digest.
pub broadcast proof fn lemma_word_view_injective(a: Word, b: Word)
    ensures
        (#[trigger] a@ == #[trigger] b@) <==> a == b,
{
    assert(a@[0] == a.e0 && a@[1] == a.e1 && a@[2] == a.e2 && a@[3] == a.e3);
    assert(b@[0] == b.e0 && b@[1] == b.e1 && b@[2] == b.e2 && b@[3] == b.e3);
}

// LAWS
// ================================================================================================

/// The elements of a digest are its four fields, in order.
pub proof fn law_word_holds_its_elements(word: Word)
    ensures
        word@.len() == 4,
        word@[0] == word.e0,
        word@[1] == word.e1,
        word@[2] == word.e2,
        word@[3] == word.e3,
{
}

} // verus!
