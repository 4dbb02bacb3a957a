//! Candidate transactions: the notes they hold, and which notes their failures are charged to.

use std::sync::Arc;

use vstd::prelude::*;

use crate::pairs::WordMap;
use crate::shared::share;
use crate::word::{BlockNumber, NoteId, Nullifier, TransactionId, Word};

verus! {

/// Why a note could not be consumed. Several notes can fail for one reason.
pub type NoteError<E> = Arc<E>;

/// A note that asks for work, as far as the bookkeeping needs it.
#[derive(Clone, Copy, Debug, PartialEq, Eq, Structural)]
pub struct FeatureNote {
    pub id: NoteId,
    pub nullifier: Nullifier,
}

/// A note that asks for work, with the notes that pay for it.
#[derive(Debug)]
pub struct SponsoredNote {
    pub feature: FeatureNote,
    pub sponsorships: Vec<NoteId>,
}

/// Notes to be executed together against one account.
#[derive(Debug)]
pub struct TransactionCandidate<T> {
    pub notes: Vec<SponsoredNote>,
    /// What execution needs beyond the notes.
    pub payload: T,
}

/// What selection found for an account.
#[derive(Debug)]
pub struct Selection<E, T> {
    /// The notes to execute, if there are any.
    pub candidate: Option<TransactionCandidate<T>>,
    /// Notes that failed during selection.
    pub rejected: Vec<(Nullifier, NoteError<E>)>,
    /// Notes whose stored eligibility is too early.
    pub stale_eligibility: Vec<(Nullifier, BlockNumber)>,
}

/// A note that could not be consumed.
#[derive(Debug)]
pub struct FailedNote<E> {
    pub id: NoteId,
    pub nullifier: Nullifier,
    pub error: NoteError<E>,
}

/// What the execution of a candidate yields once its transaction was submitted.
#[derive(Debug)]
pub struct NtxExecutionResult<E, S> {
    pub tx_id: TransactionId,
    /// Notes that failed to execute.
    pub failed_notes: Vec<FailedNote<E>>,
    /// Notes that were left for a later transaction.
    pub deferred_notes: Vec<FailedNote<E>>,
    /// Notes that do not fit any transaction.
    pub oversized_notes: Vec<FailedNote<E>>,
    /// Scripts fetched on the way.
    pub fetched_scripts: Vec<(Word, S)>,
}

/// Why the execution of a candidate submitted no transaction.
#[derive(Debug)]
pub enum NtxError<E> {
    /// Every note failed, each for its own reason.
    AllNotesFailed(Vec<FailedNote<E>>),
    /// The transaction as a whole failed.
    Other(E),
}

/// The feature that each sponsorship note pays for, by the nullifier of the feature. Where a note
/// sponsors several features the last one counts.
pub open spec fn sponsored_features(notes: Seq<SponsoredNote>) -> Map<NoteId, Nullifier>
    decreases notes.len(),
{
    if notes.len() == 0 {
        Map::empty()
    } else {
        with_sponsors(
            sponsored_features(notes.drop_last()),
            notes.last().sponsorships@,
            notes.last().feature.nullifier,
        )
    }
}

/// `features`, with all of `sponsors` paying for the feature with the given nullifier.
pub open spec fn with_sponsors(
    features: Map<NoteId, Nullifier>,
    sponsors: Seq<NoteId>,
    nullifier: Nullifier,
) -> Map<NoteId, Nullifier> {
    features.union_prefer_right(Map::new(|id: NoteId| sponsors.contains(id), |id: NoteId| nullifier))
}

/// The ids of all notes of a candidate: each feature, followed by its sponsorships.
pub open spec fn candidate_note_ids(notes: Seq<SponsoredNote>) -> Seq<NoteId>
    decreases notes.len(),
{
    if notes.len() == 0 {
        Seq::empty()
    } else {
        candidate_note_ids(notes.drop_last()).push(notes.last().feature.id)
            + notes.last().sponsorships@
    }
}

/// The nullifiers of the features of a candidate.
pub open spec fn feature_nullifiers(notes: Seq<SponsoredNote>) -> Seq<Nullifier> {
    notes.map_values(|note: SponsoredNote| note.feature.nullifier)
}

/// The nullifier that the failure of a note is recorded under: that of the feature it sponsors, or
/// else its own.
pub open spec fn charged_nullifier<E>(
    note: FailedNote<E>,
    features: Map<NoteId, Nullifier>,
) -> Nullifier {
    if features.contains_key(note.id) {
        features[note.id]
    } else {
        note.nullifier
    }
}

/// The charges for a list of failed notes.
pub open spec fn charges<E>(
    notes: Seq<FailedNote<E>>,
    features: Map<NoteId, Nullifier>,
) -> Seq<(Nullifier, NoteError<E>)> {
    notes.map_values(|note: FailedNote<E>| (charged_nullifier(note, features), note.error))
}

/// Charging every one of the given nullifiers for the same reason.
pub open spec fn charges_to_all<E>(nullifiers: Seq<Nullifier>, error: NoteError<E>) -> Seq<
    (Nullifier, NoteError<E>),
> {
    nullifiers.map_values(|nullifier: Nullifier| (nullifier, error))
}

/// The sponsorship notes among a list of notes.
pub open spec fn sponsorships_among<E>(
    notes: Seq<FailedNote<E>>,
    features: Map<NoteId, Nullifier>,
) -> Seq<FailedNote<E>> {
    notes.filter(|note: FailedNote<E>| features.contains_key(note.id))
}

/// The notes of a list that sponsor nothing.
pub open spec fn features_among<E>(
    notes: Seq<FailedNote<E>>,
    features: Map<NoteId, Nullifier>,
) -> Seq<FailedNote<E>> {
    notes.filter(|note: FailedNote<E>| !features.contains_key(note.id))
}

/// The nullifiers of a list of notes.
pub open spec fn nullifiers_of<E>(notes: Seq<FailedNote<E>>) -> Seq<Nullifier> {
    notes.map_values(|note: FailedNote<E>| note.nullifier)
}

impl<T> TransactionCandidate<T> {
    /// Returns the feature that each sponsorship note pays for, by its nullifier.
    pub fn sponsor_to_feature_nullifier(&self) -> (features: WordMap)
        ensures
            features@ == sponsored_features(self.notes@),
    {
        let mut features = WordMap::new();
        let mut i: usize = 0;
        assert(self.notes@.take(0) =~= Seq::empty());
        while i < self.notes.len()
            invariant
                i <= self.notes.len(),
                features@ == sponsored_features(self.notes@.take(i as int)),
            decreases self.notes.len() - i,
        {
            let note = &self.notes[i];
            let ghost before = features@;
            let mut j: usize = 0;
            assert(with_sponsors(before, note.sponsorships@.take(0), note.feature.nullifier)
                =~= before);
            while j < note.sponsorships.len()
                invariant
                    j <= note.sponsorships.len(),
                    features@ == with_sponsors(
                        before,
                        note.sponsorships@.take(j as int),
                        note.feature.nullifier,
                    ),
                decreases note.sponsorships.len() - j,
            {
                let sponsor = note.sponsorships[j];
                features.insert(sponsor, note.feature.nullifier);
                proof {
                    lemma_one_more_sponsor(
                        before,
                        note.sponsorships@.take(j as int),
                        sponsor,
                        note.feature.nullifier,
                    );
                    assert(note.sponsorships@.take(j + 1) =~= note.sponsorships@.take(
                        j as int,
                    ).push(sponsor));
                }
                j += 1;
            }
            proof {
                assert(note.sponsorships@.take(j as int) =~= note.sponsorships@);
                assert(self.notes@.take(i + 1).drop_last() =~= self.notes@.take(i as int));
            }
            i += 1;
        }
        assert(self.notes@.take(i as int) =~= self.notes@);
        features
    }

    /// Returns the ids of all notes of the candidate, for the record.
    pub fn note_ids(&self) -> (ids: Vec<NoteId>)
        ensures
            ids@ == candidate_note_ids(self.notes@),
    {
        let mut ids: Vec<NoteId> = Vec::new();
        let mut i: usize = 0;
        assert(self.notes@.take(0) =~= Seq::empty());
        while i < self.notes.len()
            invariant
                i <= self.notes.len(),
                ids@ == candidate_note_ids(self.notes@.take(i as int)),
            decreases self.notes.len() - i,
        {
            let note = &self.notes[i];
            let ghost before = ids@;
            ids.push(note.feature.id);
            let mut j: usize = 0;
            while j < note.sponsorships.len()
                invariant
                    j <= note.sponsorships.len(),
                    ids@ =~= before.push(note.feature.id) + note.sponsorships@.take(j as int),
                decreases note.sponsorships.len() - j,
            {
                ids.push(note.sponsorships[j]);
                j += 1;
            }
            proof {
                assert(note.sponsorships@.take(j as int) =~= note.sponsorships@);
                assert(self.notes@.take(i + 1).drop_last() =~= self.notes@.take(i as int));
            }
            i += 1;
        }
        assert(self.notes@.take(i as int) =~= self.notes@);
        ids
    }

    /// Returns the nullifiers of the features of the candidate.
    pub fn feature_nullifiers(&self) -> (nullifiers: Vec<Nullifier>)
        ensures
            nullifiers@ == feature_nullifiers(self.notes@),
    {
        let mut nullifiers: Vec<Nullifier> = Vec::new();
        let mut i: usize = 0;
        while i < self.notes.len()
            invariant
                i <= self.notes.len(),
                nullifiers@ =~= feature_nullifiers(self.notes@.take(i as int)),
            decreases self.notes.len() - i,
        {
            nullifiers.push(self.notes[i].feature.nullifier);
            i += 1;
        }
        assert(self.notes@.take(i as int) =~= self.notes@);
        nullifiers
    }
}

/// Charges failed notes: each failure goes to the feature that the note sponsors, or else to the
/// note itself.
pub fn attribute_failed_notes<E>(notes: Vec<FailedNote<E>>, features: &WordMap) -> (charged: Vec<
    (Nullifier, NoteError<E>),
>)
    ensures
        charged@ == charges(notes@, features@),
{
    let ghost all = notes@;
    let mut charged: Vec<(Nullifier, NoteError<E>)> = Vec::new();
    for note in rest: notes
        invariant
            rest.seq() == all,
            charged@ =~= charges(all.take(rest.index() as int), features@),
    {
        let nullifier = match features.get(note.id) {
            Some(feature) => feature,
            None => note.nullifier,
        };
        charged.push((nullifier, note.error));
    }
    assert(all.take(all.len() as int) =~= all);
    charged
}

/// Splits a list of notes into the sponsorship notes and the others.
pub(crate) fn partition_sponsorships<E>(notes: Vec<FailedNote<E>>, features: &WordMap) -> (parts: (
    Vec<FailedNote<E>>,
    Vec<FailedNote<E>>,
))
    ensures
        parts.0@ == sponsorships_among(notes@, features@),
        parts.1@ == features_among(notes@, features@),
{
    let ghost all = notes@;
    let ghost sponsors = |note: FailedNote<E>| features@.contains_key(note.id);
    let ghost others = |note: FailedNote<E>| !features@.contains_key(note.id);
    let mut sponsorships: Vec<FailedNote<E>> = Vec::new();
    let mut rest_of_notes: Vec<FailedNote<E>> = Vec::new();
    proof {
        reveal(Seq::filter);
    }
    for note in rest: notes
        invariant
            rest.seq() == all,
            sponsors == (|note: FailedNote<E>| features@.contains_key(note.id)),
            others == (|note: FailedNote<E>| !features@.contains_key(note.id)),
            sponsorships@ == all.take(rest.index() as int).filter(sponsors),
            rest_of_notes@ == all.take(rest.index() as int).filter(others),
    {
        proof {
            reveal(Seq::filter);
        }
        assert(all.take(rest.index() + 1).drop_last() =~= all.take(rest.index() as int));
        if features.contains_key(note.id) {
            sponsorships.push(note);
        } else {
            rest_of_notes.push(note);
        }
    }
    assert(all.take(all.len() as int) =~= all);
    (sponsorships, rest_of_notes)
}

/// Returns the nullifiers of notes that do not fit any transaction.
pub(crate) fn oversized_nullifiers<E>(notes: &Vec<FailedNote<E>>) -> (nullifiers: Vec<Nullifier>)
    ensures
        nullifiers@ == nullifiers_of(notes@),
{
    let mut nullifiers: Vec<Nullifier> = Vec::new();
    let mut i: usize = 0;
    while i < notes.len()
        invariant
            i <= notes.len(),
            nullifiers@ =~= nullifiers_of(notes@.take(i as int)),
        decreases notes.len() - i,
    {
        nullifiers.push(notes[i].nullifier);
        i += 1;
    }
    assert(notes@.take(i as int) =~= notes@);
    nullifiers
}

/// Charges every one of the given nullifiers for the same reason.
pub(crate) fn charge_all<E>(nullifiers: &Vec<Nullifier>, error: NoteError<E>) -> (charged: Vec<
    (Nullifier, NoteError<E>),
>)
    ensures
        charged@ == charges_to_all(nullifiers@, error),
{
    let mut charged: Vec<(Nullifier, NoteError<E>)> = Vec::new();
    let mut i: usize = 0;
    while i < nullifiers.len()
        invariant
            i <= nullifiers.len(),
            charged@ =~= charges_to_all(nullifiers@.take(i as int), error),
        decreases nullifiers.len() - i,
    {
        charged.push((nullifiers[i], share(&error)));
        i += 1;
    }
    assert(nullifiers@.take(i as int) =~= nullifiers@);
    charged
}

/// One more sponsor is one more entry.
proof fn lemma_one_more_sponsor(
    features: Map<NoteId, Nullifier>,
    sponsors: Seq<NoteId>,
    sponsor: NoteId,
    nullifier: Nullifier,
)
    ensures
        with_sponsors(features, sponsors.push(sponsor), nullifier) == with_sponsors(
            features,
            sponsors,
            nullifier,
        ).insert(sponsor, nullifier),
{
    let more = sponsors.push(sponsor);
    assert forall|id: NoteId| more.contains(id) <==> sponsors.contains(id) || id == sponsor by {
        if sponsors.contains(id) {
            let i = choose|i: int| 0 <= i < sponsors.len() && sponsors[i] == id;
            assert(more[i] == id);
        }
        assert(more[sponsors.len() as int] == sponsor);
    }
    assert(with_sponsors(features, more, nullifier) =~= with_sponsors(
        features,
        sponsors,
        nullifier,
    ).insert(sponsor, nullifier));
}

// LAWS
// ================================================================================================

/// The notes that sponsor a feature are the sponsorship notes of the candidate, and each of them
/// pays for a feature of the same candidate.
pub proof fn law_sponsors_pay_for_features(notes: Seq<SponsoredNote>, id: NoteId)
    ensures
        sponsored_features(notes).contains_key(id) <==> exists|i: int|
            0 <= i < notes.len() && (#[trigger] notes[i]).sponsorships@.contains(id),
        sponsored_features(notes).contains_key(id) ==> exists|i: int|
            0 <= i < notes.len() && (#[trigger] notes[i]).sponsorships@.contains(id)
                && notes[i].feature.nullifier == sponsored_features(notes)[id],
    decreases notes.len(),
{
    if notes.len() > 0 {
        let front = notes.drop_last();
        law_sponsors_pay_for_features(front, id);
        if notes.last().sponsorships@.contains(id) {
            assert(notes[notes.len() - 1].sponsorships@.contains(id));
        } else {
            assert(sponsored_features(notes).contains_key(id) == sponsored_features(
                front,
            ).contains_key(id));
            if sponsored_features(front).contains_key(id) {
                let i = choose|i: int|
                    0 <= i < front.len() && (#[trigger] front[i]).sponsorships@.contains(id)
                        && front[i].feature.nullifier == sponsored_features(front)[id];
                assert(notes[i].sponsorships@.contains(id));
            } else {
                assert forall|i: int| 0 <= i < notes.len() implies !(
                #[trigger] notes[i]).sponsorships@.contains(id) by {
                    if i < front.len() {
                        assert(!front[i].sponsorships@.contains(id));
                    }
                }
            }
        }
    }
}

/// A note that is too large is charged or discarded, and never both: the sponsorship notes and
/// the others together are all of the notes, and no note is in both lists.
pub proof fn law_oversized_notes_are_charged_or_discarded<E>(
    notes: Seq<FailedNote<E>>,
    features: Map<NoteId, Nullifier>,
    note: FailedNote<E>,
)
    ensures
        sponsorships_among(notes, features).len() + features_among(notes, features).len()
            == notes.len(),
        sponsorships_among(notes, features).contains(note) <==> notes.contains(note)
            && features.contains_key(note.id),
        features_among(notes, features).contains(note) <==> notes.contains(note)
            && !features.contains_key(note.id),
    decreases notes.len(),
{
    reveal(Seq::filter);
    let sponsors = |note: FailedNote<E>| features.contains_key(note.id);
    let others = |note: FailedNote<E>| !features.contains_key(note.id);
    broadcast use vstd::seq_lib::group_filter_ensures;

    if notes.len() > 0 {
        law_oversized_notes_are_charged_or_discarded(notes.drop_last(), features, note);
    }
    if notes.contains(note) {
        let i = choose|i: int| 0 <= i < notes.len() && notes[i] == note;
        assert(sponsors(notes[i]) || others(notes[i]));
        assert(notes.filter(sponsors).contains(notes[i]) || notes.filter(others).contains(notes[i]));
    }
    if notes.filter(sponsors).contains(note) {
        let i = choose|i: int|
            0 <= i < notes.filter(sponsors).len() && notes.filter(sponsors)[i] == note;
        assert(sponsors(notes.filter(sponsors)[i]));
        assert(notes.contains(notes.filter(sponsors)[i]));
    }
    if notes.filter(others).contains(note) {
        let i = choose|i: int|
            0 <= i < notes.filter(others).len() && notes.filter(others)[i] == note;
        assert(others(notes.filter(others)[i]));
        assert(notes.contains(notes.filter(others)[i]));
    }
}

/// One sponsored note more makes its sponsorships pay for it, even those that paid for another
/// before, and changes nothing for other notes. Without notes nobody pays.
pub proof fn law_later_feature_takes_its_sponsors(
    notes: Seq<SponsoredNote>,
    note: SponsoredNote,
    id: NoteId,
)
    ensures
        !sponsored_features(Seq::empty()).contains_key(id),
        note.sponsorships@.contains(id) ==> sponsored_features(notes.push(note)).contains_key(id)
            && sponsored_features(notes.push(note))[id] == note.feature.nullifier,
        !note.sponsorships@.contains(id) ==> {
            &&& sponsored_features(notes.push(note)).contains_key(id) <==> sponsored_features(
                notes,
            ).contains_key(id)
            &&& sponsored_features(notes).contains_key(id) ==> sponsored_features(
                notes.push(note),
            )[id] == sponsored_features(notes)[id]
        },
{
    assert(notes.push(note).drop_last() =~= notes);
}

/// The ids of a candidate are those of its notes in order, each feature right before its
/// sponsorships.
pub proof fn law_features_come_before_their_sponsorships(
    notes: Seq<SponsoredNote>,
    note: SponsoredNote,
)
    ensures
        candidate_note_ids(Seq::empty()) == Seq::<NoteId>::empty(),
        candidate_note_ids(notes.push(note)) == candidate_note_ids(notes) + seq![note.feature.id]
            + note.sponsorships@,
{
    assert(notes.push(note).drop_last() =~= notes);
    assert(candidate_note_ids(notes.push(note)) =~= candidate_note_ids(notes)
        + seq![note.feature.id] + note.sponsorships@);
}

/// There is one nullifier for each feature of a candidate, in order.
pub proof fn law_every_feature_has_its_nullifier(notes: Seq<SponsoredNote>, i: int)
    requires
        0 <= i < notes.len(),
    ensures
        feature_nullifiers(notes).len() == notes.len(),
        feature_nullifiers(notes)[i] == notes[i].feature.nullifier,
{
}

/// Every failed note is charged once, in order and for its own reason: to the feature that it
/// sponsors, or else to itself.
pub proof fn law_every_failure_is_charged_once<E>(
    notes: Seq<FailedNote<E>>,
    features: Map<NoteId, Nullifier>,
    i: int,
)
    requires
        0 <= i < notes.len(),
    ensures
        charges(notes, features).len() == notes.len(),
        charges(notes, features)[i].1 == notes[i].error,
        features.contains_key(notes[i].id) ==> charges(notes, features)[i].0
            == features[notes[i].id],
        !features.contains_key(notes[i].id) ==> charges(notes, features)[i].0
            == notes[i].nullifier,
{
}

} // verus!
