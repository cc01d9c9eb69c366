//! Waiting for a funding transaction to commit.

use miden_protocol::note::NoteInclusionProof;
use vstd::prelude::*;

use crate::chain::Word;

verus! {

/// The inclusion proof of a note, `miden_protocol::note::NoteInclusionProof`. The service hands it
/// on and does not look inside.
#[verifier::external_type_specification]
#[verifier::external_body]
pub struct ExNoteInclusionProof(miden_protocol::note::NoteInclusionProof);

// PROOFS
// ================================================================================================

/// The proof that one note is committed.
#[derive(Debug)]
pub struct CommittedNote {
    pub note_id: Word,
    pub proof: NoteInclusionProof,
}

/// The proofs by note ID, where a later proof replaces an earlier one.
pub open spec fn proof_map(notes: Seq<CommittedNote>) -> Map<Word, NoteInclusionProof>
    decreases notes.len(),
{
    if notes.len() == 0 {
        Map::empty()
    } else {
        proof_map(notes.drop_last()).insert(notes.last().note_id, notes.last().proof)
    }
}

/// The proofs found so far, one per note.
#[derive(Debug)]
pub struct ProofMap {
    notes: Vec<CommittedNote>,
}

impl View for ProofMap {
    type V = Map<Word, NoteInclusionProof>;

    closed spec fn view(&self) -> Map<Word, NoteInclusionProof> {
        proof_map(self.notes@)
    }
}

proof fn lemma_replaced_proof(notes: Seq<CommittedNote>, i: int, proof: NoteInclusionProof)
    requires
        0 <= i < notes.len(),
    ensures
        proof_map(notes.remove(i)).insert(notes[i].note_id, proof) == proof_map(notes).insert(
            notes[i].note_id,
            proof,
        ),
    decreases notes.len(),
{
    let id = notes[i].note_id;
    let rest = notes.drop_last();
    if i == notes.len() - 1 {
        assert(notes.remove(i) =~= rest);
    } else {
        lemma_replaced_proof(rest, i, proof);
        let removed = notes.remove(i);
        assert(removed.drop_last() =~= rest.remove(i));
        assert(removed.last() == notes.last());
        assert forall|key: Word| key != id implies (proof_map(rest.remove(i)).dom().contains(key)
            <==> proof_map(rest).dom().contains(key)) by {
            assert(proof_map(rest.remove(i)).insert(id, proof).dom().contains(key) <==> proof_map(
                rest,
            ).insert(id, proof).dom().contains(key));
        }
        assert forall|key: Word|
            key != id && proof_map(rest).dom().contains(key) implies proof_map(rest.remove(i))[key]
            == proof_map(rest)[key] by {
            assert(proof_map(rest.remove(i)).insert(id, proof)[key] == proof_map(rest).insert(
                id,
                proof,
            )[key]);
        }
    }
    assert(proof_map(notes.remove(i)).insert(id, proof) =~= proof_map(notes).insert(id, proof));
}

proof fn lemma_proof_map_domain(notes: Seq<CommittedNote>, id: Word)
    ensures
        proof_map(notes).dom().contains(id) <==> exists|i: int|
            0 <= i < notes.len() && (#[trigger] notes[i]).note_id == id,
    decreases notes.len(),
{
    if notes.len() > 0 {
        let rest = notes.drop_last();
        lemma_proof_map_domain(rest, id);
        if proof_map(rest).dom().contains(id) {
            let i = choose|i: int| 0 <= i < rest.len() && (#[trigger] rest[i]).note_id == id;
            assert(notes[i].note_id == id);
        }
        if notes.last().note_id == id {
            assert(notes[notes.len() - 1].note_id == id);
        }
        if exists|i: int| 0 <= i < notes.len() && (#[trigger] notes[i]).note_id == id {
            let i = choose|i: int| 0 <= i < notes.len() && (#[trigger] notes[i]).note_id == id;
            if i < rest.len() {
                assert(rest[i].note_id == id);
            }
        }
    }
}

impl ProofMap {
    /// No proofs.
    pub fn new() -> (proofs: ProofMap)
        ensures
            proofs@ == Map::<Word, NoteInclusionProof>::empty(),
    {
        ProofMap { notes: Vec::new() }
    }

    /// Whether there is no proof.
    pub fn is_empty(&self) -> (empty: bool)
        ensures
            empty <==> self@ == Map::<Word, NoteInclusionProof>::empty(),
    {
        proof {
            if self.notes@.len() > 0 {
                let last = self.notes@.last();
                assert(proof_map(self.notes@).dom().contains(last.note_id));
                assert(!Map::<Word, NoteInclusionProof>::empty().dom().contains(last.note_id));
            }
        }
        self.notes.len() == 0
    }

    /// Whether there is a proof for `id`.
    pub fn contains(&self, id: Word) -> (found: bool)
        ensures
            found == self@.dom().contains(id),
    {
        proof {
            lemma_proof_map_domain(self.notes@, id);
        }
        self.position(id).is_some()
    }

    /// The proof for `id`.
    pub fn get(&self, id: Word) -> (found: Option<&NoteInclusionProof>)
        ensures
            match found {
                Some(proof) => self@.dom().contains(id) && self@[id] == *proof,
                None => !self@.dom().contains(id),
            },
    {
        proof {
            lemma_proof_map_domain(self.notes@, id);
            assert(self.notes@.take(self.notes@.len() as int) =~= self.notes@);
        }
        let mut i: usize = self.notes.len();
        while i > 0
            invariant
                i <= self.notes@.len(),
                forall|k: int| i <= k < self.notes@.len() ==> self.notes@[k].note_id != id,
                proof_map(self.notes@).dom().contains(id) ==> proof_map(
                    self.notes@.take(i as int),
                ).dom().contains(id) && proof_map(self.notes@.take(i as int))[id] == proof_map(
                    self.notes@,
                )[id],
                proof_map(self.notes@).dom().contains(id) <==> exists|k: int|
                    0 <= k < self.notes@.len() && (#[trigger] self.notes@[k]).note_id == id,
            decreases i,
        {
            i = i - 1;
            proof {
                let longer = self.notes@.take(i + 1);
                assert(longer.drop_last() =~= self.notes@.take(i as int));
                assert(longer.last() == self.notes@[i as int]);
            }
            if self.notes[i].note_id == id {
                return Some(&self.notes[i].proof);
            }
        }
        None
    }

    fn position(&self, id: Word) -> (position: Option<usize>)
        ensures
            match position {
                Some(i) => i < self.notes@.len() && self.notes@[i as int].note_id == id,
                None => forall|k: int|
                    0 <= k < self.notes@.len() ==> (#[trigger] self.notes@[k]).note_id != id,
            },
    {
        let mut i: usize = 0;
        while i < self.notes.len()
            invariant
                i <= self.notes@.len(),
                forall|k: int| 0 <= k < i ==> (#[trigger] self.notes@[k]).note_id != id,
            decreases self.notes@.len() - i,
        {
            if self.notes[i].note_id == id {
                return Some(i);
            }
            i = i + 1;
        }
        None
    }

    /// Adds a proof, or replaces the one there is for the same note.
    pub fn insert(&mut self, note: CommittedNote)
        ensures
            final(self)@ == old(self)@.insert(note.note_id, note.proof),
    {
        if let Some(i) = self.position(note.note_id) {
            proof {
                lemma_replaced_proof(self.notes@, i as int, note.proof);
            }
            let _replaced = self.notes.remove(i);
        }
        let ghost before = self.notes@;
        self.notes.push(note);
        assert(self.notes@.drop_last() =~= before);
    }

    /// Adds some proofs, in order.
    pub fn extend(&mut self, notes: Vec<CommittedNote>)
        ensures
            final(self)@ == old(self)@.union_prefer_right(proof_map(notes@)),
    {
        let ghost all = notes@;
        let ghost start = self@;
        let mut rest = notes;
        let mut reversed: Vec<CommittedNote> = Vec::new();
        while rest.len() > 0
            invariant
                rest@.len() + reversed@.len() == all.len(),
                rest@ =~= all.take(rest@.len() as int),
                forall|k: int|
                    0 <= k < reversed@.len() ==> reversed@[k] == all[all.len() - 1 - k],
            decreases rest@.len(),
        {
            if let Some(note) = rest.pop() {
                reversed.push(note);
            }
        }
        let ghost mut added: int = 0;
        assert(start.union_prefer_right(proof_map(all.take(0))) =~= start);
        while reversed.len() > 0
            invariant
                0 <= added,
                added + reversed@.len() == all.len(),
                forall|k: int|
                    0 <= k < reversed@.len() ==> reversed@[k] == all[all.len() - 1 - k],
                self@ == start.union_prefer_right(proof_map(all.take(added))),
            decreases reversed@.len(),
        {
            if let Some(note) = reversed.pop() {
                assert(note == all[added]);
                let ghost before = self@;
                self.insert(note);
                proof {
                    assert(all.take(added + 1).drop_last() =~= all.take(added));
                    added = added + 1;
                    assert(self@ =~= start.union_prefer_right(proof_map(all.take(added))));
                }
            }
        }
        assert(all.take(added) =~= all);
    }
}

// AWAIT INCLUSION
// ================================================================================================

/// The outcome of waiting for a set of notes to commit.
#[derive(Debug)]
pub enum Inclusion {
    /// Every note is committed. Holds a proof for every requested note.
    Committed(ProofMap),
    /// The transaction expired without committing, so no note was created.
    Expired,
    /// The service is shutting down and stopped waiting.
    ShuttingDown,
}

/// Whether every requested note has a proof.
pub open spec fn all_committed(
    note_ids: Seq<Word>,
    found: Map<Word, NoteInclusionProof>,
) -> bool {
    forall|i: int| 0 <= i < note_ids.len() ==> found.dom().contains(#[trigger] note_ids[i])
}

/// A wait for every note in `note_ids` to commit, or for the transaction to expire.
#[derive(Debug)]
pub struct InclusionWait {
    pub note_ids: Vec<Word>,
    pub expiration_block: u32,
    pub found: ProofMap,
}

/// Starts to wait for the notes of a transaction.
pub fn await_inclusion(note_ids: Vec<Word>, expiration_block: u32) -> (wait: InclusionWait)
    ensures
        wait.note_ids@ == note_ids@,
        wait.expiration_block == expiration_block,
        wait.found@ == Map::<Word, NoteInclusionProof>::empty(),
{
    InclusionWait { note_ids, expiration_block, found: ProofMap::new() }
}

impl InclusionWait {
    /// What was found once the node answered with `proofs`, or with nothing.
    pub open spec fn found_after(
        self,
        proofs: Option<Vec<CommittedNote>>,
    ) -> Map<Word, NoteInclusionProof> {
        match proofs {
            Some(proofs) => self.found@.union_prefer_right(proof_map(proofs@)),
            None => self.found@,
        }
    }

    /// Whether `outcome` is what one poll comes to.
    pub open spec fn is_outcome(
        self,
        tip: Option<u32>,
        proofs: Option<Vec<CommittedNote>>,
        outcome: Option<Inclusion>,
    ) -> bool {
        let found = self.found_after(proofs);
        let committed = all_committed(self.note_ids@, found);
        let expired = proofs is Some && found == Map::<Word, NoteInclusionProof>::empty()
            && tip is Some && tip->0 >= self.expiration_block;
        match outcome {
            Some(Inclusion::Committed(all)) => committed && all@ == found,
            Some(Inclusion::Expired) => !committed && expired,
            Some(Inclusion::ShuttingDown) => false,
            None => !committed && !expired,
        }
    }

    /// Takes what one poll read of the node: the committed tip and then the committed notes, each
    /// `None` when it could not be read. Returns the outcome, or `None` to sleep and poll again.
    ///
    /// The tip is read before the notes. The store only moves forward, so the notes were read from a
    /// store which is at least at this height. The expiration check depends on this order.
    pub fn on_poll(
        &mut self,
        tip: Option<u32>,
        proofs: Option<Vec<CommittedNote>>,
    ) -> (outcome: Option<Inclusion>)
        ensures
            final(self).note_ids@ == old(self).note_ids@,
            final(self).expiration_block == old(self).expiration_block,
            old(self).is_outcome(tip, proofs, outcome),
            ({
                let found = old(self).found_after(proofs);
                let committed = all_committed(old(self).note_ids@, found);
                let expired = proofs is Some && found == Map::<Word, NoteInclusionProof>::empty()
                    && tip is Some && tip->0 >= old(self).expiration_block;
                match outcome {
                    Some(Inclusion::Committed(all)) => committed && all@ == found,
                    Some(Inclusion::Expired) => !committed && expired,
                    Some(Inclusion::ShuttingDown) => false,
                    None => !committed && !expired && final(self).found@ == found,
                }
            }),
    {
        let notes_read = proofs.is_some();
        if let Some(proofs) = proofs {
            self.found.extend(proofs);
        }
        if self.is_committed() {
            let mut found = ProofMap::new();
            std::mem::swap(&mut found, &mut self.found);
            return Some(Inclusion::Committed(found));
        }
        if let Some(tip) = tip {
            if notes_read && self.found.is_empty() && tip >= self.expiration_block {
                return Some(Inclusion::Expired);
            }
        }
        None
    }

    fn is_committed(&self) -> (committed: bool)
        ensures
            committed == all_committed(self.note_ids@, self.found@),
    {
        let mut i: usize = 0;
        while i < self.note_ids.len()
            invariant
                i <= self.note_ids@.len(),
                forall|k: int|
                    0 <= k < i ==> self.found@.dom().contains(#[trigger] self.note_ids@[k]),
            decreases self.note_ids@.len() - i,
        {
            if !self.found.contains(self.note_ids[i]) {
                return false;
            }
            i = i + 1;
        }
        true
    }
}

// LAWS OF WAITING
// ================================================================================================

/// A node which proves only notes it was asked for has proven all of them exactly when it has proven
/// as many as were asked for.
pub proof fn law_committed_when_as_many_proofs_as_notes(
    note_ids: Seq<Word>,
    found: Map<Word, NoteInclusionProof>,
)
    requires
        note_ids.no_duplicates(),
        found.dom().finite(),
        forall|id: Word| #[trigger] found.dom().contains(id) ==> note_ids.contains(id),
    ensures
        all_committed(note_ids, found) <==> found.dom().len() == note_ids.len(),
{
    let asked = note_ids.to_set();
    note_ids.unique_seq_to_set();
    assert(found.dom().subset_of(asked));
    if all_committed(note_ids, found) {
        assert forall|id: Word| asked.contains(id) implies found.dom().contains(id) by {
            let i = choose|i: int| 0 <= i < note_ids.len() && note_ids[i] == id;
            assert(found.dom().contains(note_ids[i]));
        }
        assert(found.dom() =~= asked);
    }
    if found.dom().len() == note_ids.len() {
        vstd::set_lib::lemma_subset_equality(found.dom(), asked);
        assert forall|i: int| 0 <= i < note_ids.len() implies found.dom().contains(
            #[trigger] note_ids[i],
        ) by {
            assert(asked.contains(note_ids[i]));
        }
    }
}

/// A proof, once found, is never lost by a later poll.
pub proof fn law_proofs_accumulate(
    wait: InclusionWait,
    proofs: Option<Vec<CommittedNote>>,
    id: Word,
)
    requires
        wait.found@.dom().contains(id),
    ensures
        wait.found_after(proofs).dom().contains(id),
{
}

/// After a poll there is a proof for a note exactly when there was one before or the node sent one.
/// The last one which the node sent for the note is kept, and one it did not send again stays.
pub proof fn law_poll_adds_what_the_node_sent(wait: InclusionWait, sent: Vec<CommittedNote>, id: Word)
    ensures
        wait.found_after(None) == wait.found@,
        wait.found_after(Some(sent)).dom().contains(id) <==> wait.found@.dom().contains(id)
            || exists|i: int| 0 <= i < sent@.len() && (#[trigger] sent@[i]).note_id == id,
        forall|i: int|
            0 <= i < sent@.len() && (#[trigger] sent@[i]).note_id == id && (forall|k: int|
                i < k < sent@.len() ==> (#[trigger] sent@[k]).note_id != id)
                ==> wait.found_after(Some(sent))[id] == sent@[i].proof,
        wait.found@.dom().contains(id) && (forall|i: int|
            0 <= i < sent@.len() ==> (#[trigger] sent@[i]).note_id != id) ==> wait.found_after(
            Some(sent),
        )[id] == wait.found@[id],
{
    lemma_proof_map_domain(sent@, id);
    assert forall|i: int|
        0 <= i < sent@.len() && (#[trigger] sent@[i]).note_id == id && (forall|k: int|
            i < k < sent@.len() ==> (#[trigger] sent@[k]).note_id != id) implies wait.found_after(
        Some(sent),
    )[id] == sent@[i].proof by {
        lemma_last_proof_is_kept(sent@, i);
        assert(proof_map(sent@).dom().contains(id));
    }
}

proof fn lemma_last_proof_is_kept(notes: Seq<CommittedNote>, i: int)
    requires
        0 <= i < notes.len(),
        forall|k: int| i < k < notes.len() ==> (#[trigger] notes[k]).note_id != notes[i].note_id,
    ensures
        proof_map(notes)[notes[i].note_id] == notes[i].proof,
    decreases notes.len(),
{
    if i < notes.len() - 1 {
        let rest = notes.drop_last();
        assert(forall|k: int| i < k < rest.len() ==> (#[trigger] rest[k]) == notes[k]);
        lemma_last_proof_is_kept(rest, i);
    }
}

/// A wait ends as committed exactly when every requested note was proven before or by this poll. It
/// ends as expired exactly when some requested note has no proof, none was ever proven, the notes
/// were read, and the tip reached the expiration. It goes on otherwise.
pub proof fn law_wait_ends_when_proven_or_expired(
    wait: InclusionWait,
    tip: u32,
    sent: Vec<CommittedNote>,
    outcome: Option<Inclusion>,
)
    requires
        wait.is_outcome(Some(tip), Some(sent), outcome),
    ensures
        ({
            let proven = forall|n: int|
                0 <= n < wait.note_ids@.len() ==> wait.found@.dom().contains(
                    #[trigger] wait.note_ids@[n],
                ) || exists|i: int|
                    0 <= i < sent@.len() && (#[trigger] sent@[i]).note_id == wait.note_ids@[n];
            let none = sent@.len() == 0 && wait.found@ == Map::<Word, NoteInclusionProof>::empty();
            &&& (outcome matches Some(Inclusion::Committed(_))) <==> proven
            &&& (outcome matches Some(Inclusion::Expired)) <==> !proven && none && tip
                >= wait.expiration_block
            &&& outcome is None <==> !proven && !(none && tip >= wait.expiration_block)
            &&& outcome matches Some(Inclusion::Committed(all)) ==> all@ == wait.found_after(
                Some(sent),
            )
        }),
{
    let found = wait.found_after(Some(sent));
    assert forall|n: int| 0 <= n < wait.note_ids@.len() implies (found.dom().contains(
        #[trigger] wait.note_ids@[n],
    ) <==> wait.found@.dom().contains(wait.note_ids@[n]) || exists|i: int|
        0 <= i < sent@.len() && (#[trigger] sent@[i]).note_id == wait.note_ids@[n]) by {
        law_poll_adds_what_the_node_sent(wait, sent, wait.note_ids@[n]);
    }
    if sent@.len() > 0 {
        law_poll_adds_what_the_node_sent(wait, sent, sent@[0].note_id);
        assert(found.dom().contains(sent@[0].note_id));
        assert(found != Map::<Word, NoteInclusionProof>::empty());
    } else {
        assert(found =~= wait.found@);
    }
}

/// A poll which could not read the notes or the tip never ends a wait as expired, and proves nothing
/// new without the notes.
pub proof fn law_unread_node_expires_nothing(
    wait: InclusionWait,
    tip: Option<u32>,
    sent: Option<Vec<CommittedNote>>,
    outcome: Option<Inclusion>,
)
    requires
        wait.is_outcome(tip, sent, outcome),
        tip is None || sent is None,
    ensures
        !(outcome matches Some(Inclusion::Expired)),
        !(outcome matches Some(Inclusion::ShuttingDown)),
        sent is None ==> ((outcome matches Some(Inclusion::Committed(_))) <==> (forall|n: int|
            0 <= n < wait.note_ids@.len() ==> wait.found@.dom().contains(
                #[trigger] wait.note_ids@[n],
            ))),
{
}

} // verus!
