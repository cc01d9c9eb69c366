//! Discovery of the deposits sent to the funding account.
//!
//! An operator refills the funding account by sending it a public pay-to-ID note which holds the
//! native asset. This module finds those notes. It submits nothing: the worker consumes the
//! deposits it finds as the input notes of the next funding transaction.

use vstd::prelude::*;

use crate::chain;
use crate::chain::AccountId;
use crate::chain::Note;
use crate::chain::NoteType;
use crate::chain::NoteView;
use crate::chain::Word;
use crate::filtering;

verus! {

// DEPOSIT FILTER
// ================================================================================================

/// Whether `note` is a deposit for `funder`.
pub open spec fn deposit_for(note: NoteView, funder: AccountId, fee_faucet_id: AccountId) -> bool {
    deposit_given_script(note, funder, fee_faucet_id, chain::is_p2id_root_of(note.script_root))
}

/// Whether `note` is a deposit for `funder`, where `is_p2id` tells whether its script is the
/// pay-to-ID script.
pub open spec fn deposit_given_script(
    note: NoteView,
    funder: AccountId,
    fee_faucet_id: AccountId,
    is_p2id: bool,
) -> bool {
    &&& note.note_type == NoteType::Public
    &&& is_p2id
    &&& chain::p2id_target(note.storage) == Some(funder@)
    &&& note.assets.len() == 1
    &&& chain::total_from(note.assets, fee_faucet_id) > 0
}

/// Returns `true` when the note is a deposit which `funder` can consume.
///
/// A deposit is a public pay-to-ID note which targets `funder` and holds nothing but the native
/// asset. Only the native asset is collected, because a note holding anything else would put an
/// asset the service cannot spend into the vault.
pub fn is_deposit(note: &Note, funder: AccountId, fee_faucet_id: AccountId) -> (deposit: bool)
    ensures
        deposit == deposit_for(note@, funder, fee_faucet_id),
{
    is_deposit_with_script(note, funder, fee_faucet_id, chain::is_p2id_root(note.script_root()))
}

/// Returns `true` when the note is a deposit which `funder` can consume, where `is_p2id` tells
/// whether its script is the pay-to-ID script.
pub fn is_deposit_with_script(
    note: &Note,
    funder: AccountId,
    fee_faucet_id: AccountId,
    is_p2id: bool,
) -> (deposit: bool)
    ensures
        deposit == deposit_given_script(note@, funder, fee_faucet_id, is_p2id),
{
    if note.note_type() != NoteType::Public {
        return false;
    }
    if !is_p2id {
        return false;
    }
    match chain::p2id_storage_target(note.storage()) {
        Some(target) => {
            proof {
                target.lemma_extensional(funder);
            }
            if target != funder {
                return false;
            }
        },
        None => {
            return false;
        },
    }
    note.assets().len() == 1 && native_amount(note, fee_faucet_id) > 0
}

/// The amount of the native asset the note holds.
pub fn native_amount(note: &Note, fee_faucet_id: AccountId) -> (amount: u64)
    ensures
        amount == chain::total_from(note@.assets, fee_faucet_id),
{
    note.amount_from(fee_faucet_id)
}

/// The deposits for `funder` among `notes`, in order.
pub open spec fn deposits_among(
    notes: Seq<Note>,
    funder: AccountId,
    fee_faucet_id: AccountId,
) -> Seq<Note> {
    notes.filter(|note: Note| deposit_for(note@, funder, fee_faucet_id))
}

/// The notes whose nullifier is not in `nullifiers`, in order.
pub open spec fn without_nullifiers(notes: Seq<Note>, nullifiers: Seq<Word>) -> Seq<Note> {
    notes.filter(|note: Note| !nullifiers.contains(note@.nullifier))
}

/// The nullifiers of some notes, in order.
pub open spec fn nullifiers_of(notes: Seq<Note>) -> Seq<Word> {
    notes.map_values(|note: Note| note@.nullifier)
}

/// Keeps the deposits for `funder`.
pub fn keep_deposits(notes: Vec<Note>, funder: AccountId, fee_faucet_id: AccountId) -> (kept: Vec<
    Note,
>)
    ensures
        kept@ == deposits_among(notes@, funder, fee_faucet_id),
{
    let ghost all = notes@;
    let ghost keep = |note: Note| deposit_for(note@, funder, fee_faucet_id);
    let mut kept = notes;
    let mut i: usize = 0;
    let ghost mut seen: int = 0;
    proof {
        filtering::lemma_filter_start(all, keep);
    }
    while i < kept.len()
        invariant
            keep == (|note: Note| deposit_for(note@, funder, fee_faucet_id)),
            filtering::filtered_so_far(all, kept@, keep, i as int, seen),
        decreases kept@.len() - i,
    {
        proof {
            filtering::lemma_filter_step(all, kept@, keep, i as int, seen);
            seen = seen + 1;
        }
        if is_deposit(&kept[i], funder, fee_faucet_id) {
            i = i + 1;
        } else {
            let _dropped = kept.remove(i);
        }
    }
    proof {
        filtering::lemma_filter_end(all, kept@, keep, seen);
    }
    kept
}

/// Drops the notes whose nullifier is in `nullifiers`.
pub fn drop_nullified(notes: Vec<Note>, nullifiers: &Vec<Word>) -> (kept: Vec<Note>)
    ensures
        kept@ == without_nullifiers(notes@, nullifiers@),
{
    let ghost all = notes@;
    let ghost keep = |note: Note| !nullifiers@.contains(note@.nullifier);
    let mut kept = notes;
    let mut i: usize = 0;
    let ghost mut seen: int = 0;
    proof {
        filtering::lemma_filter_start(all, keep);
    }
    while i < kept.len()
        invariant
            keep == (|note: Note| !nullifiers@.contains(note@.nullifier)),
            filtering::filtered_so_far(all, kept@, keep, i as int, seen),
        decreases kept@.len() - i,
    {
        proof {
            filtering::lemma_filter_step(all, kept@, keep, i as int, seen);
            seen = seen + 1;
        }
        if !contains_word(nullifiers, kept[i].nullifier()) {
            i = i + 1;
        } else {
            let _dropped = kept.remove(i);
        }
    }
    proof {
        filtering::lemma_filter_end(all, kept@, keep, seen);
    }
    kept
}

/// Whether `word` is among `words`.
pub fn contains_word(words: &Vec<Word>, word: Word) -> (found: bool)
    ensures
        found == words@.contains(word),
{
    let mut i: usize = 0;
    while i < words.len()
        invariant
            i <= words@.len(),
            forall|k: int| 0 <= k < i ==> words@[k] != word,
        decreases words@.len() - i,
    {
        if words[i] == word {
            return true;
        }
        i = i + 1;
    }
    false
}

/// Collects the nullifiers of some notes.
pub fn collect_nullifiers(notes: &Vec<Note>) -> (nullifiers: Vec<Word>)
    ensures
        nullifiers@ == nullifiers_of(notes@),
{
    let mut nullifiers: Vec<Word> = Vec::new();
    let mut i: usize = 0;
    while i < notes.len()
        invariant
            i <= notes@.len(),
            nullifiers@ =~= nullifiers_of(notes@.take(i as int)),
        decreases notes@.len() - i,
    {
        nullifiers.push(notes[i].nullifier());
        i = i + 1;
    }
    assert(notes@.take(i as int) =~= notes@);
    nullifiers
}

// DEPOSIT SCANNER
// ================================================================================================

/// What a scan asks the node for first: the notes with a tag, from a block on.
#[derive(Debug, Clone, Copy, PartialEq, Eq, Structural)]
pub struct NoteSync {
    pub tag: u32,
    pub from_block: u32,
}

/// What a scan does next.
#[derive(Debug)]
pub enum ScanStep {
    /// The scan is over and found these deposits.
    Done(Vec<Note>),
    /// The node is asked for the public notes with these IDs.
    GetNotes { note_ids: Vec<Word> },
    /// The node is asked which of these nullifiers were seen from a block on. A deposit may already
    /// be spent: an earlier run of the service consumed it, or the sender consumed it again itself.
    SyncNullifiers { candidates: Vec<Note>, nullifiers: Vec<Word>, from_block: u32 },
}

/// Finds the deposits addressed to the funding account.
#[derive(Debug)]
pub struct DepositScanner {
    /// The funding account the deposits target.
    pub funder: AccountId,
    /// The faucet which issues the chain's native asset.
    pub fee_faucet_id: AccountId,
    /// The block the next scan starts at.
    pub next_block: u32,
}

impl DepositScanner {
    /// Creates a scanner which starts at the genesis block.
    ///
    /// The scanner keeps no state on disk, so a restart scans the chain again from genesis. A
    /// deposit which is already spent is dropped by the scan, so a rescan finds only the deposits
    /// which are still there.
    pub fn new(funder: AccountId, fee_faucet_id: AccountId) -> (scanner: DepositScanner)
        ensures
            scanner == (DepositScanner { funder, fee_faucet_id, next_block: 0 }),
    {
        DepositScanner { funder, fee_faucet_id, next_block: 0 }
    }

    /// Starts a scan: the notes which target the funding account, since the previous scan.
    pub fn scan(&self) -> (request: NoteSync)
        ensures
            request.tag == chain::account_target_tag(self.funder@),
            request.from_block == self.next_block,
    {
        NoteSync { tag: chain::tag_with_account_target(self.funder), from_block: self.next_block }
    }

    /// Takes the note IDs which the node found up to `last_checked_block`, and advances the cursor.
    ///
    /// The cursor advances past a range whether or not the caller consumes what the scan returns.
    /// The caller holds every deposit it is given until the deposit is spent, so a range is never
    /// scanned twice.
    pub fn on_synced(&mut self, note_ids: Vec<Word>, last_checked_block: u32) -> (step: ScanStep)
        requires
            last_checked_block < u32::MAX,
        ensures
            *final(self) == (DepositScanner {
                next_block: (last_checked_block + 1) as u32,
                ..*old(self)
            }),
            match step {
                ScanStep::Done(found) => note_ids@.len() == 0 && found@.len() == 0,
                ScanStep::GetNotes { note_ids: asked } => note_ids@.len() > 0 && asked@
                    == note_ids@,
                ScanStep::SyncNullifiers { .. } => false,
            },
    {
        self.next_block = last_checked_block + 1;
        if note_ids.len() == 0 {
            ScanStep::Done(Vec::new())
        } else {
            ScanStep::GetNotes { note_ids }
        }
    }

    /// Takes the notes which the node holds under the synced IDs. `from_block` is the block at which
    /// the scan started: a note cannot be spent before it exists.
    pub fn on_notes(&self, notes: Vec<Note>, from_block: u32) -> (step: ScanStep)
        ensures
            ({
                let found = deposits_among(notes@, self.funder, self.fee_faucet_id);
                match step {
                    ScanStep::Done(deposits) => found.len() == 0 && deposits@.len() == 0,
                    ScanStep::GetNotes { .. } => false,
                    ScanStep::SyncNullifiers { candidates, nullifiers, from_block: from } => {
                        &&& found.len() > 0
                        &&& candidates@ == found
                        &&& nullifiers@ == nullifiers_of(found)
                        &&& from == from_block
                    },
                }
            }),
    {
        let candidates = keep_deposits(notes, self.funder, self.fee_faucet_id);
        if candidates.len() == 0 {
            return ScanStep::Done(candidates);
        }
        let nullifiers = collect_nullifiers(&candidates);
        ScanStep::SyncNullifiers { candidates, nullifiers, from_block }
    }

    /// Takes the nullifiers which the node has seen, and drops the deposits which are spent. A
    /// transaction which consumes a spent note is rejected.
    pub fn on_spent(candidates: Vec<Note>, spent: &Vec<Word>) -> (deposits: Vec<Note>)
        ensures
            deposits@ == without_nullifiers(candidates@, spent@),
    {
        drop_nullified(candidates, spent)
    }
}

// LAWS OF THE SCAN
// ================================================================================================

/// A scan returns every unspent deposit which the node handed out, and nothing else.
pub proof fn law_scan_finds_exactly_the_unspent_deposits(
    notes: Seq<Note>,
    spent: Seq<Word>,
    funder: AccountId,
    fee_faucet_id: AccountId,
    note: Note,
)
    ensures
        without_nullifiers(
            deposits_among(notes, funder, fee_faucet_id),
            spent,
        ).contains(note) <==> notes.contains(note) && deposit_for(
            note@,
            funder,
            fee_faucet_id,
        ) && !spent.contains(note@.nullifier),
{
    let is_found = |note: Note| deposit_for(note@, funder, fee_faucet_id);
    let is_unspent = |note: Note| !spent.contains(note@.nullifier);
    lemma_filter_contains(notes, is_found, note);
    lemma_filter_contains(notes.filter(is_found), is_unspent, note);
}

/// What the service pays out is what it would take in: a payment to an account is a deposit for that
/// account, as long as the amount is positive.
pub proof fn law_payment_is_a_deposit(
    note: NoteView,
    sender: AccountId,
    target: AccountId,
    fee_faucet_id: AccountId,
    amount: u64,
)
    requires
        chain::is_payment(note.content(), sender@, target@, fee_faucet_id, amount),
        chain::valid_account_id(target@.prefix, target@.suffix),
        amount > 0,
    ensures
        deposit_for(note, target, fee_faucet_id),
        chain::total_from(note.assets, fee_faucet_id) == amount,
{
    assert(note.assets.drop_last() =~= Seq::empty());
    assert(chain::total_from(note.assets.drop_last(), fee_faucet_id) == 0);
}

/// A filter keeps exactly the elements which meet its condition.
pub proof fn lemma_filter_contains(notes: Seq<Note>, keep: spec_fn(Note) -> bool, note: Note)
    ensures
        notes.filter(keep).contains(note) <==> notes.contains(note) && keep(note),
    decreases notes.len(),
{
    reveal(Seq::filter);
    if notes.len() > 0 {
        let rest = notes.drop_last();
        lemma_filter_contains(rest, keep, note);
        assert(notes =~= rest.push(notes.last()));
        if rest.contains(note) {
            let i = choose|i: int| 0 <= i < rest.len() && rest[i] == note;
            assert(notes[i] == note);
        }
        if keep(notes.last()) {
            let kept = rest.filter(keep);
            assert(notes.filter(keep) == kept.push(notes.last()));
            if kept.contains(note) {
                let i = choose|i: int| 0 <= i < kept.len() && kept[i] == note;
                assert(kept.push(notes.last())[i] == note);
            }
            assert(kept.push(notes.last())[kept.len() as int] == notes.last());
        }
    }
}

/// A deposit is a public note with the pay-to-ID script, whose storage is the suffix and the prefix of
/// the funding account, and whose only asset is a positive amount of the native one.
pub proof fn law_deposit_holds_only_the_native_asset(
    note: NoteView,
    funder: AccountId,
    fee_faucet_id: AccountId,
)
    requires
        funder@.prefix < 0xffff_ffff_0000_0001,
        funder@.prefix % 16 == 1,
        funder@.suffix < 0x8000_0000_0000_0000,
        funder@.suffix % 256 == 0,
    ensures
        deposit_for(note, funder, fee_faucet_id) <==> {
            &&& note.note_type == NoteType::Public
            &&& chain::is_p2id_root_of(note.script_root)
            &&& note.storage.len() == 2
            &&& note.storage[0] == funder@.suffix
            &&& note.storage[1] == funder@.prefix
            &&& note.assets.len() == 1
            &&& note.assets[0] matches chain::Asset::Fungible { faucet_id, amount, .. }
                && faucet_id == fee_faucet_id && amount > 0
        },
        deposit_given_script(note, funder, fee_faucet_id, true) && chain::is_p2id_root_of(
            note.script_root,
        ) <==> deposit_for(note, funder, fee_faucet_id),
        !deposit_given_script(note, funder, fee_faucet_id, false),
{
    if note.assets.len() == 1 {
        assert(note.assets.drop_last() =~= Seq::empty());
        assert(chain::total_from(note.assets.drop_last(), fee_faucet_id) == 0);
    }
}

/// A scan goes through the notes in order: one more note adds itself at the end when it is an unspent
/// deposit, and nothing otherwise.
pub proof fn law_scan_keeps_the_order(
    notes: Seq<Note>,
    note: Note,
    spent: Seq<Word>,
    funder: AccountId,
    fee_faucet_id: AccountId,
)
    ensures
        ({
            let before = without_nullifiers(deposits_among(notes, funder, fee_faucet_id), spent);
            let after = without_nullifiers(
                deposits_among(notes.push(note), funder, fee_faucet_id),
                spent,
            );
            if deposit_for(note@, funder, fee_faucet_id) && !spent.contains(note@.nullifier) {
                after == before.push(note)
            } else {
                after == before
            }
        }),
        without_nullifiers(deposits_among(Seq::empty(), funder, fee_faucet_id), spent)
            == Seq::<Note>::empty(),
        nullifiers_of(notes.push(note)) == nullifiers_of(notes).push(note@.nullifier),
        nullifiers_of(Seq::empty()) == Seq::<Word>::empty(),
{
    reveal(Seq::filter);
    assert(notes.push(note).drop_last() =~= notes);
    let is_found = |other: Note| deposit_for(other@, funder, fee_faucet_id);
    let found = notes.filter(is_found);
    assert(found.push(note).drop_last() =~= found);
    assert(nullifiers_of(notes.push(note)) =~= nullifiers_of(notes).push(note@.nullifier));
    assert(nullifiers_of(Seq::empty()) =~= Seq::<Word>::empty());
}

} // verus!
