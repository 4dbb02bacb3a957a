//! The shape of a Merkle mountain range.
//!
//! A range over some leaves is a row of perfect trees, one for each power of two in the number of
//! leaves, from the tallest to the smallest. Its nodes are numbered by an in-order walk over the
//! row, in which one place between neighbouring trees is left free: their root, once they merge.

use vstd::arithmetic::div_mod::lemma_fundamental_div_mod_converse;
use vstd::arithmetic::power2::{
    lemma2_to64, lemma_pow2_pos, lemma_pow2_strictly_increases, lemma_pow2_unfold, pow2,
};
use vstd::prelude::*;

use crate::pairs::{latest, law_last_entry_counts};
use crate::word::Word;

verus! {

/// Number of trees in a range.
pub open spec fn tree_count(leaves: nat) -> nat
    decreases leaves,
{
    if leaves == 0 {
        0
    } else {
        leaves % 2 + tree_count(leaves / 2)
    }
}

/// A range has a tree of the given height.
pub open spec fn has_tree(leaves: nat, height: nat) -> bool {
    (leaves / pow2(height)) % 2 == 1
}

/// Number of leaves in the tree of the given height and in those before it.
pub open spec fn tree_end(leaves: nat, height: nat) -> nat {
    (leaves - leaves % pow2(height)) as nat
}

/// Place of the root of the tree of the given height.
pub open spec fn root_place(leaves: nat, height: nat) -> nat {
    (2 * tree_end(leaves, height) - pow2(height)) as nat
}

/// Place that is left free after the tree of the given height.
pub open spec fn free_place(leaves: nat, height: nat) -> nat {
    2 * tree_end(leaves, height)
}

/// Number of trees before the tree of the given height.
pub open spec fn trees_before(leaves: nat, height: nat) -> nat {
    tree_count((leaves / pow2(height)) / 2)
}

/// The nodes belong to a range with the given peaks: there is a peak for each tree, no node lies
/// beyond the range or on a free place, and a node that is a root equals the peak of its tree.
pub open spec fn nodes_fit(
    nodes: Map<nat, Seq<u64>>,
    peaks: Seq<Seq<u64>>,
    leaves: nat,
) -> bool {
    &&& peaks.len() == tree_count(leaves)
    &&& forall|place: nat| #[trigger] nodes.contains_key(place) ==> place < 2 * leaves
    &&& forall|height: nat| #[trigger]
        has_tree(leaves, height) ==> {
            &&& !nodes.contains_key(free_place(leaves, height))
            &&& nodes.contains_key(root_place(leaves, height)) ==> nodes[root_place(leaves, height)]
                == peaks[trees_before(leaves, height) as int]
        }
}

/// The elements of a list of digests.
pub open spec fn listed_words(words: Seq<Word>) -> Seq<Seq<u64>> {
    words.map_values(|word: Word| word@)
}

/// The nodes that a list of places and digests describes.
pub open spec fn listed_nodes(entries: Seq<(usize, Word)>) -> Map<nat, Seq<u64>> {
    latest(entries.map_values(|entry: (usize, Word)| (entry.0 as nat, entry.1@)))
}

/// Returns the number of trees in a range.
fn count_trees(leaves: usize) -> (count: usize)
    ensures
        count == tree_count(leaves as nat),
        count <= leaves,
    decreases leaves,
{
    if leaves == 0 {
        0
    } else {
        let rest = count_trees(leaves / 2);
        leaves % 2 + rest
    }
}

/// Returns the node at a place.
fn node_at(entries: &Vec<(usize, Word)>, place: usize) -> (node: Option<Word>)
    ensures
        node is Some <==> listed_nodes(entries@).contains_key(place as nat),
        node matches Some(node) ==> node@ == listed_nodes(entries@)[place as nat],
{
    let ghost listed = entries@.map_values(|entry: (usize, Word)| (entry.0 as nat, entry.1@));
    proof {
        law_last_entry_counts(listed, place as nat);
    }
    let mut i: usize = entries.len();
    while i > 0
        invariant
            i <= entries.len(),
            listed == entries@.map_values(|entry: (usize, Word)| (entry.0 as nat, entry.1@)),
            forall|j: int| i <= j < entries.len() ==> (#[trigger] listed[j]).0 != place,
            latest(listed).contains_key(place as nat) <==> exists|j: int|
                0 <= j < listed.len() && (#[trigger] listed[j]).0 == place,
            forall|k: int|
                0 <= k < listed.len() && (#[trigger] listed[k]).0 == place && (forall|j: int|
                    k < j < listed.len() ==> (#[trigger] listed[j]).0 != place) ==> latest(
                    listed,
                )[place as nat] == listed[k].1,
        decreases i,
    {
        i -= 1;
        let entry = entries[i];
        assert(listed[i as int] == (entry.0 as nat, entry.1@));
        if entry.0 == place {
            return Some(entry.1);
        }
    }
    None
}

/// Whether every node lies within a range.
fn are_within(entries: &Vec<(usize, Word)>, leaves: usize) -> (within: bool)
    requires
        leaves <= usize::MAX / 2,
    ensures
        within <==> forall|place: nat| #[trigger]
            listed_nodes(entries@).contains_key(place) ==> place < 2 * leaves,
{
    let ghost listed = entries@.map_values(|entry: (usize, Word)| (entry.0 as nat, entry.1@));
    let mut i: usize = 0;
    while i < entries.len()
        invariant
            i <= entries.len(),
            leaves <= usize::MAX / 2,
            listed == entries@.map_values(|entry: (usize, Word)| (entry.0 as nat, entry.1@)),
            forall|j: int| 0 <= j < i ==> (#[trigger] listed[j]).0 < 2 * leaves,
        decreases entries.len() - i,
    {
        assert(listed[i as int].0 == entries@[i as int].0);
        if entries[i].0 >= 2 * leaves {
            proof {
                law_last_entry_counts(listed, listed[i as int].0);
                assert(listed_nodes(entries@).contains_key(listed[i as int].0));
            }
            return false;
        }
        i += 1;
    }
    assert forall|place: nat| #[trigger]
        listed_nodes(entries@).contains_key(place) implies place < 2 * leaves by {
        law_last_entry_counts(listed, place);
        let j = choose|j: int| 0 <= j < listed.len() && (#[trigger] listed[j]).0 == place;
        assert(listed[j].0 < 2 * leaves);
    }
    true
}

/// Whether nodes belong to a range with the given peaks.
pub(crate) fn are_nodes_fitting(entries: &Vec<(usize, Word)>, peaks: &Vec<Word>, leaves: usize) -> (fit:
    bool)
    requires
        leaves <= usize::MAX / 2,
    ensures
        fit == nodes_fit(listed_nodes(entries@), listed_words(peaks@), leaves as nat),
{
    broadcast use crate::word::lemma_word_view_injective;

    let ghost nodes = listed_nodes(entries@);
    let ghost tops = listed_words(peaks@);
    let mut remaining: usize = count_trees(leaves);
    if peaks.len() != remaining || !are_within(entries, leaves) {
        return false;
    }
    let ghost mut height: nat = 0;
    let mut size: usize = 1;
    let mut above: usize = leaves;
    let mut below: usize = 0;
    proof {
        assert(pow2(0) == 1) by {
            lemma2_to64();
        }
    }
    while above > 0
        invariant
            leaves <= usize::MAX / 2,
            nodes == listed_nodes(entries@),
            tops == listed_words(peaks@),
            tops.len() == tree_count(leaves as nat),
            size == pow2(height),
            size > 0,
            leaves == above * size + below,
            below < size,
            remaining == tree_count(above as nat),
            remaining <= peaks.len(),
            forall|h: nat|
                h < height && #[trigger] has_tree(leaves as nat, h) ==> {
                    &&& !nodes.contains_key(free_place(leaves as nat, h))
                    &&& nodes.contains_key(root_place(leaves as nat, h)) ==> nodes[root_place(
                        leaves as nat,
                        h,
                    )] == tops[trees_before(leaves as nat, h) as int]
                },
        decreases above,
    {
        proof {
            lemma_fundamental_div_mod_converse(
                leaves as int,
                size as int,
                above as int,
                below as int,
            );
            assert(above * size >= size) by (nonlinear_arith)
                requires
                    above >= 1,
                    size > 0,
            ;
            lemma_pow2_unfold(height + 1);
            let half = (above / 2) as int;
            let bit = (above % 2) as int;
            assert(above * size == half * (2 * size) + bit * size) by (nonlinear_arith)
                requires
                    above == 2 * half + bit,
            ;
            assert(bit * size == if bit == 0 {
                0
            } else {
                size as int
            }) by (nonlinear_arith)
                requires
                    bit == 0 || bit == 1,
            ;
        }
        if above % 2 == 1 {
            remaining -= 1;
            let end: usize = leaves - below;
            assert(has_tree(leaves as nat, height));
            assert(free_place(leaves as nat, height) == 2 * end);
            assert(root_place(leaves as nat, height) == 2 * end - size);
            assert(trees_before(leaves as nat, height) == remaining);
            if node_at(entries, 2 * end).is_some() {
                return false;
            }
            if let Some(node) = node_at(entries, 2 * end - size) {
                assert(tops[remaining as int] == peaks@[remaining as int]@);
                if node != peaks[remaining] {
                    return false;
                }
            }
            below += size;
        }
        above = above / 2;
        size = 2 * size;
        proof {
            height = height + 1;
        }
    }
    assert forall|h: nat| #[trigger] has_tree(leaves as nat, h) implies h < height by {
        if h >= height {
            lemma_pow2_pos(h);
            if h > height {
                lemma_pow2_strictly_increases(height, h);
            }
            assert(leaves < pow2(h));
            lemma_fundamental_div_mod_converse(leaves as int, pow2(h) as int, 0, leaves as int);
        }
    }
    true
}

// LAWS
// ================================================================================================

/// Doubling the leaves keeps the number of trees, one leaf more makes one tree more, and without
/// leaves there is none.
pub proof fn law_one_tree_for_each_power_of_two(leaves: nat)
    ensures
        tree_count(0) == 0,
        tree_count(2 * leaves) == tree_count(leaves),
        tree_count(2 * leaves + 1) == tree_count(leaves) + 1,
{
    assert((2 * leaves) / 2 == leaves);
    assert((2 * leaves + 1) / 2 == leaves);
    if leaves == 0 {
        assert(tree_count(1) == 1 + tree_count(0));
    }
}

/// A tree lies within the range and its root in the middle of its places: as many leaves before it
/// as the taller trees have, then its own, and its root right between the two halves.
pub proof fn law_tree_lies_in_the_range(leaves: nat, height: nat)
    requires
        has_tree(leaves, height),
    ensures
        pow2(height) <= tree_end(leaves, height) <= leaves,
        leaves - tree_end(leaves, height) < pow2(height),
        root_place(leaves, height) + pow2(height) == 2 * tree_end(leaves, height),
        free_place(leaves, height) == 2 * tree_end(leaves, height),
        (tree_end(leaves, height) / pow2(height)) % 2 == 1,
        tree_end(leaves, height) % pow2(height) == 0,
{
    lemma_pow2_pos(height);
    let size = pow2(height) as int;
    let q = leaves as int / size;
    let r = leaves as int % size;
    vstd::arithmetic::div_mod::lemma_fundamental_div_mod(leaves as int, size);
    assert(size * q == q * size) by (nonlinear_arith);
    assert(q >= 1);
    assert(q * size >= size) by (nonlinear_arith)
        requires
            q >= 1,
            size > 0,
    ;
    lemma_fundamental_div_mod_converse(q * size, size, q, 0);
}

/// The nodes of a range belong to its peaks exactly where there is a peak for each tree, no node
/// lies beyond the last tree or between two trees, and every root that is kept is the peak of its
/// tree: the first peak for the tallest tree, and so on.
pub proof fn law_fitting_nodes_agree_with_the_peaks(
    nodes: Map<nat, Seq<u64>>,
    peaks: Seq<Seq<u64>>,
    leaves: nat,
    height: nat,
    place: nat,
)
    requires
        nodes_fit(nodes, peaks, leaves),
    ensures
        peaks.len() == tree_count(leaves),
        nodes.contains_key(place) ==> place < 2 * leaves,
        (leaves / pow2(height)) % 2 == 1 ==> {
            let end = leaves - leaves % pow2(height);
            &&& !nodes.contains_key((2 * end) as nat)
            &&& nodes.contains_key((2 * end - pow2(height)) as nat) ==> nodes[(2 * end - pow2(
                height,
            )) as nat] == peaks[tree_count((leaves / pow2(height)) / 2) as int]
        },
{
    if (leaves / pow2(height)) % 2 == 1 {
        assert(has_tree(leaves, height));
        law_tree_lies_in_the_range(leaves, height);
        assert(tree_end(leaves, height) == leaves - leaves % pow2(height));
        assert(!nodes.contains_key(free_place(leaves, height)));
    }
}

/// Without nodes there is nothing that could disagree with the peaks.
pub proof fn law_range_without_nodes_fits(peaks: Seq<Seq<u64>>, leaves: nat)
    requires
        peaks.len() == tree_count(leaves),
    ensures
        nodes_fit(Map::empty(), peaks, leaves),
{
}

/// Nodes still belong to the peaks when some of them are dropped.
pub proof fn law_dropping_nodes_keeps_them_fitting(
    nodes: Map<nat, Seq<u64>>,
    fewer: Map<nat, Seq<u64>>,
    peaks: Seq<Seq<u64>>,
    leaves: nat,
)
    requires
        nodes_fit(nodes, peaks, leaves),
        fewer.submap_of(nodes),
    ensures
        nodes_fit(fewer, peaks, leaves),
{
    assert forall|place: nat| #[trigger] fewer.contains_key(place) implies place < 2 * leaves by {
        assert(nodes.contains_key(place));
    }
    assert forall|height: nat| #[trigger] has_tree(leaves, height) implies {
        &&& !fewer.contains_key(free_place(leaves, height))
        &&& fewer.contains_key(root_place(leaves, height)) ==> fewer[root_place(leaves, height)]
            == peaks[trees_before(leaves, height) as int]
    } by {
        assert(!nodes.contains_key(free_place(leaves, height)));
    }
}

/// A list of digests or of nodes shows what it holds: each digest in its place, and for each node
/// place the digest that is listed last for it.
pub proof fn law_lists_show_what_they_hold(
    words: Seq<Word>,
    entries: Seq<(usize, Word)>,
    i: int,
    place: nat,
)
    ensures
        listed_words(words).len() == words.len(),
        0 <= i < words.len() ==> listed_words(words)[i] == words[i]@,
        listed_nodes(entries).contains_key(place) <==> exists|j: int|
            0 <= j < entries.len() && (#[trigger] entries[j]).0 == place,
        0 <= i < entries.len() && (forall|j: int|
            i < j < entries.len() ==> (#[trigger] entries[j]).0 != entries[i].0) ==> listed_nodes(
            entries,
        )[entries[i].0 as nat] == entries[i].1@,
{
    let listed = entries.map_values(|entry: (usize, Word)| (entry.0 as nat, entry.1@));
    law_last_entry_counts(listed, place);
    if listed_nodes(entries).contains_key(place) {
        let j = choose|j: int| 0 <= j < listed.len() && (#[trigger] listed[j]).0 == place;
        assert(entries[j].0 == place);
    }
    if exists|j: int| 0 <= j < entries.len() && (#[trigger] entries[j]).0 == place {
        let j = choose|j: int| 0 <= j < entries.len() && (#[trigger] entries[j]).0 == place;
        assert(listed[j].0 == place);
    }
    if 0 <= i < entries.len() && (forall|j: int|
        i < j < entries.len() ==> (#[trigger] entries[j]).0 != entries[i].0) {
        law_last_entry_counts(listed, entries[i].0 as nat);
        assert(listed[i].0 == entries[i].0 as nat);
        assert forall|j: int| i < j < listed.len() implies (#[trigger] listed[j]).0
            != entries[i].0 as nat by {
            assert(entries[j].0 != entries[i].0);
        }
    }
}

} // verus!
