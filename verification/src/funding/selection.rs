//! What goes into the next transaction of the funding account.

use std::collections::VecDeque;

use vstd::prelude::*;
use vstd::relations::*;
use vstd::seq_lib::*;

use crate::chain;
use crate::chain::AccountId;
use crate::chain::Note;

verus! {

/// The largest number of deposits one transaction consumes.
pub const MAX_DEPOSITS_PER_TX: usize = 16;

/// The deposits and the notes of one transaction.
#[derive(Debug)]
pub struct Selection {
    pub deposits: Vec<Note>,
    pub notes: Vec<Note>,
}

/// What one selection is bounded by.
#[derive(Debug, Clone, Copy)]
pub struct SelectionLimits {
    /// The funding account's balance of the native asset.
    pub balance: u64,
    /// The fee one transaction may cost at worst.
    pub reserve: u64,
    /// The faucet which issues the native asset.
    pub fee_faucet_id: AccountId,
    /// The largest number of notes one transaction creates.
    pub max_notes: usize,
}

// AMOUNTS
// ================================================================================================

/// The amount of the native asset which each note holds.
pub open spec fn amounts(notes: Seq<Note>, faucet: AccountId) -> Seq<nat> {
    notes.map_values(|note: Note| chain::total_from(note@.assets, faucet))
}

/// The sum of some amounts.
pub open spec fn total(amounts: Seq<nat>) -> nat
    decreases amounts.len(),
{
    if amounts.len() == 0 {
        0
    } else {
        total(amounts.drop_last()) + amounts.last()
    }
}

/// The mathematical values of some machine integers.
pub open spec fn naturals(amounts: Seq<u64>) -> Seq<nat> {
    amounts.map_values(|amount: u64| amount as nat)
}

/// `a + b`, or the largest `u64` where that is smaller.
pub open spec fn saturating_sum(a: nat, b: nat) -> nat {
    if a + b <= u64::MAX {
        a + b
    } else {
        u64::MAX as nat
    }
}

/// `a - b`, or zero where that is larger.
pub open spec fn saturating_difference(a: nat, b: nat) -> nat {
    if a >= b {
        (a - b) as nat
    } else {
        0
    }
}

/// A larger prefix holds at least as much.
pub proof fn lemma_total_of_prefix(amounts: Seq<nat>, n: int, m: int)
    requires
        0 <= n <= m <= amounts.len(),
    ensures
        total(amounts.take(n)) <= total(amounts.take(m)),
    decreases m - n,
{
    if n < m {
        lemma_total_of_prefix(amounts, n, m - 1);
        assert(amounts.take(m).drop_last() =~= amounts.take(m - 1));
    }
}

// ADMISSION
// ================================================================================================

/// The length of the longest prefix of `amounts` which `spendable` pays for.
pub open spec fn affordable(amounts: Seq<nat>, spendable: nat) -> int
    decreases amounts.len(),
{
    if amounts.len() == 0 {
        0
    } else {
        let before = affordable(amounts.drop_last(), spendable);
        if before == amounts.len() - 1 && total(amounts) <= spendable {
            amounts.len() as int
        } else {
            before
        }
    }
}

/// Admission is first-come-first-served: the admitted notes are a prefix of the queue, they fit
/// together, and the note behind them does not fit any more.
pub proof fn law_admission_is_first_come_first_served(amounts: Seq<nat>, spendable: nat)
    ensures
        0 <= affordable(amounts, spendable) <= amounts.len(),
        total(amounts.take(affordable(amounts, spendable))) <= spendable,
        affordable(amounts, spendable) < amounts.len() ==> total(
            amounts.take(affordable(amounts, spendable) + 1),
        ) > spendable,
    decreases amounts.len(),
{
    if amounts.len() > 0 {
        let rest = amounts.drop_last();
        law_admission_is_first_come_first_served(rest, spendable);
        let n = affordable(rest, spendable);
        assert(rest.take(n) =~= amounts.take(n));
        if n < rest.len() {
            assert(rest.take(n + 1) =~= amounts.take(n + 1));
        } else {
            assert(amounts.take(n + 1) =~= amounts);
        }
    }
}

/// No other prefix is both affordable and followed by a note which does not fit.
pub proof fn law_admission_is_unique(amounts: Seq<nat>, spendable: nat, count: int)
    requires
        0 <= count <= amounts.len(),
        total(amounts.take(count)) <= spendable,
        count < amounts.len() ==> total(amounts.take(count + 1)) > spendable,
    ensures
        affordable(amounts, spendable) == count,
{
    law_admission_is_first_come_first_served(amounts, spendable);
    let n = affordable(amounts, spendable);
    if n < count {
        lemma_total_of_prefix(amounts, n + 1, count);
    } else if count < n {
        lemma_total_of_prefix(amounts, count + 1, n);
    }
}

/// A larger budget never admits fewer notes.
pub proof fn law_admission_grows_with_the_budget(amounts: Seq<nat>, less: nat, more: nat)
    requires
        less <= more,
    ensures
        affordable(amounts, less) <= affordable(amounts, more),
{
    law_admission_is_first_come_first_served(amounts, less);
    law_admission_is_first_come_first_served(amounts, more);
    let n = affordable(amounts, less);
    let m = affordable(amounts, more);
    if m < n {
        lemma_total_of_prefix(amounts, m + 1, n);
    }
}

/// Returns how many of `amounts` the funding account can pay for, in order.
///
/// The transaction pays its own fee out of the same vault, so `reserve` is held back. Admission
/// stops at the first note which does not fit: a later, smaller note is not admitted ahead of it,
/// which keeps the queue first-come-first-served and stops a stream of small notes from starving a
/// large one.
pub fn admit_prefix(amounts: &[u64], balance: u64, reserve: u64) -> (admitted: usize)
    ensures
        admitted == affordable(
            naturals(amounts@),
            saturating_difference(balance as nat, reserve as nat),
        ),
{
    let mut spendable: u64 = balance.saturating_sub(reserve);
    let mut admitted: usize = 0;
    let ghost all = naturals(amounts@);
    let ghost budget = saturating_difference(balance as nat, reserve as nat);

    while admitted < amounts.len()
        invariant
            all == naturals(amounts@),
            budget == saturating_difference(balance as nat, reserve as nat),
            admitted <= amounts@.len(),
            total(all.take(admitted as int)) + spendable == budget,
        decreases amounts@.len() - admitted,
    {
        let amount: u64 = amounts[admitted];
        proof {
            let longer = all.take(admitted + 1);
            assert(longer.drop_last() =~= all.take(admitted as int));
            assert(longer.last() == amount);
        }
        match spendable.checked_sub(amount) {
            Some(remaining) => {
                spendable = remaining;
            },
            None => {
                proof {
                    law_admission_is_unique(all, budget, admitted as int);
                }
                return admitted;
            },
        }
        admitted = admitted + 1;
    }
    proof {
        law_admission_is_unique(all, budget, admitted as int);
    }
    admitted
}

// LARGEST FIRST
// ================================================================================================

/// The order which puts the larger amount first.
pub open spec fn larger_first() -> spec_fn(nat, nat) -> bool {
    |a: nat, b: nat| a >= b
}

/// Some amounts, the largest first.
pub open spec fn descending(amounts: Seq<nat>) -> Seq<nat> {
    amounts.sort_by(larger_first())
}

proof fn lemma_larger_first_is_total()
    ensures
        total_ordering(larger_first()),
{
}

/// A descending arrangement of some amounts is the only one.
pub proof fn lemma_descending_is_unique(amounts: Seq<nat>, arranged: Seq<nat>)
    requires
        sorted_by(arranged, larger_first()),
        arranged.to_multiset() == amounts.to_multiset(),
    ensures
        arranged == descending(amounts),
{
    lemma_larger_first_is_total();
    amounts.lemma_sort_by_ensures(larger_first());
    lemma_sorted_unique(arranged, descending(amounts), larger_first());
}

/// Where `amount` goes in a descending sequence: behind everything at least as large.
fn descending_position(sorted: &Vec<u64>, amount: u64) -> (position: usize)
    requires
        sorted_by(naturals(sorted@), larger_first()),
    ensures
        position <= sorted@.len(),
        sorted_by(naturals(sorted@).insert(position as int, amount as nat), larger_first()),
{
    let mut position: usize = 0;
    while position < sorted.len() && sorted[position] >= amount
        invariant
            position <= sorted@.len(),
            forall|k: int| 0 <= k < position ==> sorted@[k] >= amount,
        decreases sorted@.len() - position,
    {
        position = position + 1;
    }
    proof {
        let old_amounts = naturals(sorted@);
        let arranged = old_amounts.insert(position as int, amount as nat);
        assert forall|i: int, j: int| 0 <= i < j < arranged.len() implies #[trigger] larger_first()(
            arranged[i],
            arranged[j],
        ) by {
            let before = |k: int| if k < position { k } else { k - 1 };
            if i != position && j != position {
                assert(larger_first()(old_amounts[before(i)], old_amounts[before(j)]));
            } else if i == position {
                if j - 1 > position {
                    assert(larger_first()(old_amounts[position as int], old_amounts[j - 1]));
                }
                assert(sorted@[position as int] < amount);
            } else {
                assert(sorted@[i] >= amount);
            }
        }
    }
    position
}

/// The amounts which `notes` hold of the native asset, the largest first.
fn descending_amounts(notes: &Vec<Note>, faucet: AccountId) -> (sorted: Vec<u64>)
    ensures
        sorted@.len() == notes@.len(),
        naturals(sorted@) == descending(amounts(notes@, faucet)),
{
    broadcast use group_to_multiset_ensures;

    let mut sorted: Vec<u64> = Vec::new();
    let mut i: usize = 0;
    let ghost all = amounts(notes@, faucet);
    assert(naturals(sorted@) =~= all.take(0));
    while i < notes.len()
        invariant
            all == amounts(notes@, faucet),
            i <= notes@.len(),
            sorted@.len() == i,
            sorted_by(naturals(sorted@), larger_first()),
            naturals(sorted@).to_multiset() == all.take(i as int).to_multiset(),
        decreases notes@.len() - i,
    {
        let amount: u64 = notes[i].amount_from(faucet);
        let position: usize = descending_position(&sorted, amount);
        let ghost before = naturals(sorted@);
        sorted.insert(position, amount);
        proof {
            assert(naturals(sorted@) =~= before.insert(position as int, amount as nat));
            assert(all.take(i + 1) =~= all.take(i as int).push(amount as nat));
            to_multiset_insert(before, position as int, amount as nat);
            to_multiset_build(all.take(i as int), amount as nat);
        }
        i = i + 1;
    }
    proof {
        assert(all.take(i as int) =~= all);
        lemma_descending_is_unique(all, naturals(sorted@));
    }
    sorted
}

/// Arranges notes by the amount of the native asset they hold, the largest first.
fn sort_largest_first(notes: Vec<Note>, faucet: AccountId) -> (sorted: Vec<Note>)
    ensures
        sorted@.to_multiset() == notes@.to_multiset(),
        sorted@.len() == notes@.len(),
        amounts(sorted@, faucet) == descending(amounts(notes@, faucet)),
{
    broadcast use group_to_multiset_ensures;

    let ghost all = notes@;
    let mut rest = notes;
    let mut sorted: Vec<Note> = Vec::new();
    let mut sorted_amounts: Vec<u64> = Vec::new();
    proof {
        assert(sorted@.to_multiset().add(rest@.to_multiset()) =~= all.to_multiset());
        assert(naturals(sorted_amounts@) =~= amounts(sorted@, faucet));
        assert(amounts(sorted@, faucet).to_multiset().add(
            amounts(rest@, faucet).to_multiset(),
        ) =~= amounts(all, faucet).to_multiset());
    }
    while rest.len() > 0
        invariant
            sorted@.len() + rest@.len() == all.len(),
            sorted@.to_multiset().add(rest@.to_multiset()) == all.to_multiset(),
            naturals(sorted_amounts@) == amounts(sorted@, faucet),
            sorted_by(naturals(sorted_amounts@), larger_first()),
            amounts(sorted@, faucet).to_multiset().add(amounts(rest@, faucet).to_multiset())
                == amounts(all, faucet).to_multiset(),
        decreases rest@.len(),
    {
        let ghost rest_before = rest@;
        let ghost sorted_before = sorted@;
        let ghost amounts_before = naturals(sorted_amounts@);
        if let Some(note) = rest.pop() {
            let amount: u64 = note.amount_from(faucet);
            let position: usize = descending_position(&sorted_amounts, amount);
            sorted_amounts.insert(position, amount);
            sorted.insert(position, note);
            proof {
                assert(rest_before =~= rest@.push(note));
                assert(amounts(rest_before, faucet) =~= amounts(rest@, faucet).push(
                    amount as nat,
                ));
                assert(naturals(sorted_amounts@) =~= amounts_before.insert(
                    position as int,
                    amount as nat,
                ));
                assert(amounts(sorted@, faucet) =~= amounts(sorted_before, faucet).insert(
                    position as int,
                    amount as nat,
                ));
                to_multiset_build(rest@, note);
                to_multiset_build(amounts(rest@, faucet), amount as nat);
                to_multiset_insert(sorted_before, position as int, note);
                to_multiset_insert(
                    amounts(sorted_before, faucet),
                    position as int,
                    amount as nat,
                );
                assert(sorted@.to_multiset().add(rest@.to_multiset()) =~= all.to_multiset());
                assert(amounts(sorted@, faucet).to_multiset().add(
                    amounts(rest@, faucet).to_multiset(),
                ) =~= amounts(all, faucet).to_multiset());
            }
        }
    }
    proof {
        assert(amounts(rest@, faucet) =~= Seq::empty());
        assert(sorted@.to_multiset() =~= all.to_multiset());
        assert(amounts(sorted@, faucet).to_multiset() =~= amounts(all, faucet).to_multiset());
        lemma_descending_is_unique(amounts(all, faucet), amounts(sorted@, faucet));
    }
    sorted
}

// SELECTION
// ================================================================================================

/// How many deposits one transaction consumes.
pub open spec fn deposit_count(deposits: Seq<Note>) -> int {
    if deposits.len() <= MAX_DEPOSITS_PER_TX {
        deposits.len() as int
    } else {
        MAX_DEPOSITS_PER_TX as int
    }
}

/// What the largest deposits bring in, as many of them as one transaction consumes.
pub open spec fn collected(deposits: Seq<Note>, faucet: AccountId) -> nat {
    total(descending(amounts(deposits, faucet)).take(deposit_count(deposits)))
}

/// The notes one transaction may create: those at the head of the queue.
pub open spec fn head_of_queue(queued: Seq<Note>, max_notes: usize) -> Seq<Note> {
    if queued.len() <= max_notes {
        queued
    } else {
        queued.take(max_notes as int)
    }
}

/// How many queued notes the funding account pays for, with the deposits it collects in the same
/// transaction.
pub open spec fn note_count(
    deposits: Seq<Note>,
    queued: Seq<Note>,
    limits: SelectionLimits,
) -> int {
    let balance = saturating_sum(
        limits.balance as nat,
        collected(deposits, limits.fee_faucet_id),
    );
    affordable(
        amounts(head_of_queue(queued, limits.max_notes), limits.fee_faucet_id),
        saturating_difference(balance, limits.reserve as nat),
    )
}

/// Whether there is a transaction worth submitting: it creates a note, or it brings in more than it
/// may pay in fees.
pub open spec fn worth_submitting(
    deposits: Seq<Note>,
    queued: Seq<Note>,
    limits: SelectionLimits,
) -> bool {
    note_count(deposits, queued, limits) > 0 || collected(deposits, limits.fee_faucet_id)
        > limits.reserve
}

/// Whether `arranged` holds exactly the notes of `notes`, those with the largest amounts first.
pub open spec fn is_largest_first(notes: Seq<Note>, arranged: Seq<Note>, faucet: AccountId) -> bool {
    &&& arranged.to_multiset() == notes.to_multiset()
    &&& amounts(arranged, faucet) == descending(amounts(notes, faucet))
}

/// Whether `taken` are the largest deposits of `deposits`, as many as one transaction consumes, and
/// `left` are the others.
pub open spec fn takes_the_largest(
    deposits: Seq<Note>,
    taken: Seq<Note>,
    left: Seq<Note>,
    faucet: AccountId,
) -> bool {
    &&& is_largest_first(deposits, taken + left, faucet)
    &&& taken.len() == deposit_count(deposits)
}

/// Takes the deposits and the notes of the next transaction out of the queues.
///
/// Returns `None` when there is nothing worth submitting, and then leaves both queues untouched. A
/// note which does not fit stays in `queued`: the service already answered a requester with it, so
/// it is created later instead of being dropped.
pub fn select(
    deposits: &mut Vec<Note>,
    queued: &mut VecDeque<Note>,
    limits: SelectionLimits,
) -> (selection: Option<Selection>)
    requires
        collected(old(deposits)@, limits.fee_faucet_id) <= u64::MAX,
    ensures
        selection is Some <==> worth_submitting(old(deposits)@, old(queued)@, limits),
        match selection {
            None => final(deposits)@ == old(deposits)@ && final(queued)@ == old(queued)@,
            Some(selection) => {
                let count = note_count(old(deposits)@, old(queued)@, limits);
                &&& 0 <= count <= old(queued)@.len()
                &&& selection.notes@ == old(queued)@.take(count)
                &&& final(queued)@ == old(queued)@.skip(count)
                &&& takes_the_largest(
                    old(deposits)@,
                    selection.deposits@,
                    final(deposits)@,
                    limits.fee_faucet_id,
                )
            },
        },
{
    let faucet = limits.fee_faucet_id;
    let count: usize = if deposits.len() <= MAX_DEPOSITS_PER_TX {
        deposits.len()
    } else {
        MAX_DEPOSITS_PER_TX
    };
    // The largest deposits first, so a transaction which is capped still brings in the most.
    let sorted = descending_amounts(deposits, faucet);
    let collected_amount: u64 = sum_of_prefix(&sorted, count);

    let note_amounts = head_amounts(queued, limits.max_notes, faucet);
    let note_count: usize = admit_prefix(
        note_amounts.as_slice(),
        limits.balance.saturating_add(collected_amount),
        limits.reserve,
    );
    proof {
        law_admission_is_first_come_first_served(
            naturals(note_amounts@),
            saturating_difference(
                saturating_sum(limits.balance as nat, collected_amount as nat),
                limits.reserve as nat,
            ),
        );
    }

    // A transaction which creates no note must bring in more than it pays in fees. Anyone can send
    // a note which holds a single base unit, and consuming it on its own would cost the account
    // more than it gains.
    if note_count == 0 && collected_amount <= limits.reserve {
        return None;
    }
    let mut pool: Vec<Note> = Vec::new();
    std::mem::swap(deposits, &mut pool);
    let mut taken = sort_largest_first(pool, faucet);
    let ghost arranged = taken@;
    let mut left = taken.split_off(count);
    assert(taken@ + left@ =~= arranged);
    std::mem::swap(deposits, &mut left);

    let notes = take_front(queued, note_count);
    Some(Selection { deposits: taken, notes })
}

/// Reports whether the deposits of the next transaction add up to an amount which fits a `u64`.
pub fn collection_fits(deposits: &Vec<Note>, faucet: AccountId) -> (fits: bool)
    ensures
        fits == (collected(deposits@, faucet) <= u64::MAX),
{
    let sorted = descending_amounts(deposits, faucet);
    let ghost all = naturals(sorted@);
    let ghost count = deposit_count(deposits@);
    let mut sum: u64 = 0;
    let mut i: usize = 0;
    while i < sorted.len() && i < MAX_DEPOSITS_PER_TX
        invariant
            all == naturals(sorted@),
            all == descending(amounts(deposits@, faucet)),
            sorted@.len() == deposits@.len(),
            count == deposit_count(deposits@),
            i <= count,
            sum == total(all.take(i as int)),
        decreases sorted@.len() - i,
    {
        proof {
            assert(all.take(i + 1).drop_last() =~= all.take(i as int));
            lemma_total_of_prefix(all, i + 1, count);
        }
        match sum.checked_add(sorted[i]) {
            Some(larger) => {
                sum = larger;
            },
            None => {
                return false;
            },
        }
        i = i + 1;
    }
    true
}

/// The sum of the first `count` amounts.
fn sum_of_prefix(sorted: &Vec<u64>, count: usize) -> (sum: u64)
    requires
        count <= sorted@.len(),
        total(naturals(sorted@).take(count as int)) <= u64::MAX,
    ensures
        sum == total(naturals(sorted@).take(count as int)),
{
    let ghost all = naturals(sorted@);
    let mut sum: u64 = 0;
    let mut i: usize = 0;
    while i < count
        invariant
            all == naturals(sorted@),
            i <= count <= sorted@.len(),
            sum == total(all.take(i as int)),
            total(all.take(count as int)) <= u64::MAX,
        decreases count - i,
    {
        proof {
            lemma_total_of_prefix(all, i + 1, count as int);
            assert(all.take(i + 1).drop_last() =~= all.take(i as int));
        }
        sum = sum + sorted[i];
        i = i + 1;
    }
    sum
}

/// The amounts of the notes at the head of the queue, in order.
fn head_amounts(queued: &VecDeque<Note>, max_notes: usize, faucet: AccountId) -> (found: Vec<u64>)
    ensures
        naturals(found@) == amounts(head_of_queue(queued@, max_notes), faucet),
{
    let mut found: Vec<u64> = Vec::new();
    let mut i: usize = 0;
    let ghost all = amounts(head_of_queue(queued@, max_notes), faucet);
    while i < queued.len() && i < max_notes
        invariant
            all == amounts(head_of_queue(queued@, max_notes), faucet),
            i <= queued@.len(),
            i <= max_notes,
            naturals(found@) =~= all.take(i as int),
        decreases queued@.len() - i,
    {
        let amount: u64 = queued[i].amount_from(faucet);
        assert(all[i as int] == amount);
        let ghost before = naturals(found@);
        found.push(amount);
        assert(naturals(found@) =~= before.push(amount as nat));
        i = i + 1;
    }
    assert(all.take(i as int) =~= all);
    found
}

/// Takes the first `count` notes out of the queue.
fn take_front(queued: &mut VecDeque<Note>, count: usize) -> (taken: Vec<Note>)
    requires
        count <= old(queued)@.len(),
    ensures
        taken@ == old(queued)@.take(count as int),
        final(queued)@ == old(queued)@.skip(count as int),
{
    let ghost all = queued@;
    let mut taken: Vec<Note> = Vec::new();
    while taken.len() < count
        invariant
            taken@.len() <= count <= all.len(),
            taken@ =~= all.take(taken@.len() as int),
            queued@ =~= all.skip(taken@.len() as int),
        decreases count - taken@.len(),
    {
        if let Some(note) = queued.pop_front() {
            taken.push(note);
        }
    }
    taken
}

// LAWS OF SELECTION
// ================================================================================================

/// A transaction takes the largest deposits: none it leaves behind holds more than one it takes.
pub proof fn law_no_larger_deposit_is_left(
    deposits: Seq<Note>,
    taken: Seq<Note>,
    left: Seq<Note>,
    faucet: AccountId,
    i: int,
    j: int,
)
    requires
        takes_the_largest(deposits, taken, left, faucet),
        0 <= i < taken.len(),
        0 <= j < left.len(),
    ensures
        chain::total_from(taken[i]@.assets, faucet) >= chain::total_from(left[j]@.assets, faucet),
{
    let arranged = taken + left;
    let all = amounts(deposits, faucet);
    lemma_larger_first_is_total();
    all.lemma_sort_by_ensures(larger_first());
    assert(larger_first()(descending(all)[i], descending(all)[taken.len() + j]));
    assert(amounts(arranged, faucet)[i] == chain::total_from(taken[i]@.assets, faucet));
    assert(amounts(arranged, faucet)[taken.len() + j] == chain::total_from(
        left[j]@.assets,
        faucet,
    ));
}

/// No deposit is lost or taken twice: those taken and those left are together those there were.
pub proof fn law_deposits_are_conserved(
    deposits: Seq<Note>,
    taken: Seq<Note>,
    left: Seq<Note>,
    faucet: AccountId,
)
    requires
        takes_the_largest(deposits, taken, left, faucet),
    ensures
        taken.to_multiset().add(left.to_multiset()) == deposits.to_multiset(),
        taken.len() + left.len() == deposits.len(),
{
    lemma_multiset_commutative(taken, left);
    (taken + left).to_multiset_ensures();
    deposits.to_multiset_ensures();
}

/// The deposits a transaction takes bring in what admission counted on.
pub proof fn law_taken_deposits_bring_in_the_collected_amount(
    deposits: Seq<Note>,
    taken: Seq<Note>,
    left: Seq<Note>,
    faucet: AccountId,
)
    requires
        takes_the_largest(deposits, taken, left, faucet),
    ensures
        total(amounts(taken, faucet)) == collected(deposits, faucet),
{
    assert(amounts(taken + left, faucet).take(taken.len() as int) =~= amounts(taken, faucet));
}

/// The notes a transaction creates leave the fee reserve in the vault, as long as every queued note
/// holds a positive amount.
pub proof fn law_selection_holds_back_the_reserve(
    deposits: Seq<Note>,
    queued: Seq<Note>,
    limits: SelectionLimits,
)
    requires
        note_count(deposits, queued, limits) > 0,
        forall|i: int|
            0 <= i < queued.len() ==> chain::total_from(
                (#[trigger] queued[i])@.assets,
                limits.fee_faucet_id,
            ) > 0,
    ensures
        total(
            amounts(queued.take(note_count(deposits, queued, limits)), limits.fee_faucet_id),
        ) + limits.reserve <= limits.balance + collected(deposits, limits.fee_faucet_id),
{
    let faucet = limits.fee_faucet_id;
    let count = note_count(deposits, queued, limits);
    let head = head_of_queue(queued, limits.max_notes);
    let budget = saturating_difference(
        saturating_sum(limits.balance as nat, collected(deposits, faucet)),
        limits.reserve as nat,
    );
    law_admission_is_first_come_first_served(amounts(head, faucet), budget);
    let taken = amounts(queued.take(count), faucet);
    assert(taken =~= amounts(head, faucet).take(count));
    assert(taken.last() == chain::total_from(queued[count - 1]@.assets, faucet));
}

/// One transaction stays within its limits.
pub proof fn law_selection_respects_the_caps(
    deposits: Seq<Note>,
    queued: Seq<Note>,
    limits: SelectionLimits,
)
    ensures
        0 <= note_count(deposits, queued, limits) <= limits.max_notes,
        note_count(deposits, queued, limits) <= queued.len(),
        deposit_count(deposits) <= MAX_DEPOSITS_PER_TX,
{
    let faucet = limits.fee_faucet_id;
    law_admission_is_first_come_first_served(
        amounts(head_of_queue(queued, limits.max_notes), faucet),
        saturating_difference(
            saturating_sum(limits.balance as nat, collected(deposits, faucet)),
            limits.reserve as nat,
        ),
    );
}

// LAWS OF AMOUNTS
// ================================================================================================

/// The total of some amounts counts each of them once, and a difference or a sum is cut off at the
/// ends of a `u64`.
pub proof fn law_totals_add_up(amounts: Seq<nat>, amount: nat, a: nat, b: nat)
    ensures
        total(Seq::empty()) == 0,
        total(amounts.push(amount)) == total(amounts) + amount,
        saturating_difference(a, b) + b == (if a >= b {
            a
        } else {
            b
        }),
        saturating_sum(a, b) == (if a + b <= 0xffff_ffff_ffff_ffff {
            (a + b) as int
        } else {
            0xffff_ffff_ffff_ffff
        }),
{
    assert(amounts.push(amount).drop_last() =~= amounts);
}

/// The amount of a note is what its assets hold of the native asset.
pub proof fn law_amounts_are_those_of_the_notes(notes: Seq<Note>, faucet: AccountId, i: int)
    requires
        0 <= i < notes.len(),
    ensures
        amounts(notes, faucet).len() == notes.len(),
        amounts(notes, faucet)[i] == chain::total_from(notes[i]@.assets, faucet),
{
}

proof fn lemma_same_elements_same_total(a: Seq<nat>, b: Seq<nat>)
    requires
        a.to_multiset() == b.to_multiset(),
    ensures
        total(a) == total(b),
    decreases a.len(),
{
    broadcast use group_to_multiset_ensures;

    a.to_multiset_ensures();
    b.to_multiset_ensures();
    if a.len() > 0 {
        let last = a.last();
        assert(a.contains(last));
        assert(b.to_multiset().count(last) > 0);
        let k = choose|k: int| 0 <= k < b.len() && b[k] == last;
        assert(a.remove(a.len() - 1) =~= a.drop_last());
        to_multiset_remove(a, a.len() - 1);
        to_multiset_remove(b, k);
        lemma_same_elements_same_total(a.drop_last(), b.remove(k));
        lemma_total_without(b, k);
    }
}

proof fn lemma_total_without(amounts: Seq<nat>, k: int)
    requires
        0 <= k < amounts.len(),
    ensures
        total(amounts) == total(amounts.remove(k)) + amounts[k],
    decreases amounts.len(),
{
    if k == amounts.len() - 1 {
        assert(amounts.remove(k) =~= amounts.drop_last());
    } else {
        lemma_total_without(amounts.drop_last(), k);
        assert(amounts.remove(k).drop_last() =~= amounts.drop_last().remove(k));
        assert(amounts.remove(k).last() == amounts.last());
    }
}

proof fn lemma_same_notes_same_amounts(a: Seq<Note>, b: Seq<Note>, faucet: AccountId)
    requires
        a.to_multiset() == b.to_multiset(),
    ensures
        amounts(a, faucet).to_multiset() == amounts(b, faucet).to_multiset(),
    decreases a.len(),
{
    broadcast use group_to_multiset_ensures;

    a.to_multiset_ensures();
    b.to_multiset_ensures();
    if a.len() > 0 {
        let last = a.last();
        assert(a.contains(last));
        assert(b.to_multiset().count(last) > 0);
        let k = choose|k: int| 0 <= k < b.len() && b[k] == last;
        assert(a.remove(a.len() - 1) =~= a.drop_last());
        to_multiset_remove(a, a.len() - 1);
        to_multiset_remove(b, k);
        lemma_same_notes_same_amounts(a.drop_last(), b.remove(k), faucet);
        let amount = chain::total_from(last@.assets, faucet);
        assert(amounts(a, faucet) =~= amounts(a.drop_last(), faucet).push(amount));
        assert(amounts(b, faucet) =~= amounts(b.remove(k), faucet).insert(k, amount));
        to_multiset_build(amounts(a.drop_last(), faucet), amount);
        to_multiset_insert(amounts(b.remove(k), faucet), k, amount);
    } else {
        assert(amounts(a, faucet) =~= amounts(b, faucet));
    }
}

/// What a transaction collects is what the largest deposits hold: however the deposits are split into
/// at most sixteen which are taken and others which are left, with none left larger than one taken,
/// those taken hold together what admission counts on.
pub proof fn law_largest_deposits_are_collected(
    deposits: Seq<Note>,
    taken: Seq<Note>,
    left: Seq<Note>,
    faucet: AccountId,
)
    requires
        taken.to_multiset().add(left.to_multiset()) == deposits.to_multiset(),
        taken.len() == (if deposits.len() <= 16 {
            deposits.len()
        } else {
            16
        }),
        forall|i: int, j: int|
            0 <= i < taken.len() && 0 <= j < left.len() ==> chain::total_from(
                (#[trigger] taken[i])@.assets,
                faucet,
            ) >= chain::total_from((#[trigger] left[j])@.assets, faucet),
    ensures
        collected(deposits, faucet) == total(amounts(taken, faucet)),
{
    broadcast use group_to_multiset_ensures;

    let taken_amounts = amounts(taken, faucet);
    let left_amounts = amounts(left, faucet);
    let all = amounts(deposits, faucet);
    lemma_larger_first_is_total();
    lemma_multiset_commutative(taken, left);
    lemma_same_notes_same_amounts(taken + left, deposits, faucet);
    assert(amounts(taken + left, faucet) =~= taken_amounts + left_amounts);
    let first = descending(taken_amounts);
    let second = descending(left_amounts);
    taken_amounts.lemma_sort_by_ensures(larger_first());
    left_amounts.lemma_sort_by_ensures(larger_first());
    first.to_multiset_ensures();
    taken_amounts.to_multiset_ensures();
    lemma_multiset_commutative(taken_amounts, left_amounts);
    lemma_multiset_commutative(first, second);
    let arranged = first + second;
    assert forall|i: int, j: int| 0 <= i < j < arranged.len() implies #[trigger] larger_first()(
        arranged[i],
        arranged[j],
    ) by {
        if j < first.len() {
            assert(larger_first()(first[i], first[j]));
        } else if i >= first.len() {
            assert(larger_first()(second[i - first.len()], second[j - first.len()]));
        } else {
            assert(first.contains(first[i]));
            assert(taken_amounts.contains(first[i]));
            let k = choose|k: int| 0 <= k < taken_amounts.len() && taken_amounts[k] == first[i];
            assert(second.contains(second[j - first.len()]));
            assert(left_amounts.contains(second[j - first.len()]));
            let l = choose|l: int|
                0 <= l < left_amounts.len() && left_amounts[l] == second[j - first.len()];
            assert(chain::total_from(taken[k]@.assets, faucet) >= chain::total_from(
                left[l]@.assets,
                faucet,
            ));
        }
    }
    lemma_descending_is_unique(all, arranged);
    assert(arranged.take(taken.len() as int) =~= first);
    lemma_same_elements_same_total(first, taken_amounts);
}

/// The notes of a transaction are the longest run from the head of the queue which the account pays
/// for: no more than the limit, together with the reserve no more than the balance and the collected
/// deposits hold, and with the next note, where there is one within the limit, more than that.
pub proof fn law_notes_are_the_longest_payable_run(
    deposits: Seq<Note>,
    queued: Seq<Note>,
    limits: SelectionLimits,
)
    ensures
        ({
            let faucet = limits.fee_faucet_id;
            let count = note_count(deposits, queued, limits);
            let held = limits.balance + collected(deposits, faucet);
            let pot = if held <= 0xffff_ffff_ffff_ffff {
                held
            } else {
                0xffff_ffff_ffff_ffff
            };
            let paid = total(amounts(queued.take(count), faucet));
            &&& 0 <= count <= queued.len()
            &&& count <= limits.max_notes
            &&& paid == 0 || paid + limits.reserve <= pot
            &&& count < queued.len() && count < limits.max_notes ==> {
                let more = paid + chain::total_from(queued[count]@.assets, faucet);
                more > 0 && more + limits.reserve > pot
            }
        }),
{
    let faucet = limits.fee_faucet_id;
    let count = note_count(deposits, queued, limits);
    let head = head_of_queue(queued, limits.max_notes);
    let budget = saturating_difference(
        saturating_sum(limits.balance as nat, collected(deposits, faucet)),
        limits.reserve as nat,
    );
    law_admission_is_first_come_first_served(amounts(head, faucet), budget);
    let taken = amounts(queued.take(count), faucet);
    assert(taken =~= amounts(head, faucet).take(count));
    if count < queued.len() && count < limits.max_notes {
        let longer = amounts(head, faucet).take(count + 1);
        assert(longer.drop_last() =~= taken);
        assert(longer.last() == chain::total_from(queued[count]@.assets, faucet));
    }
}

/// A transaction is submitted for a note, or for deposits which hold more than it may cost.
pub proof fn law_transaction_pays_off(
    deposits: Seq<Note>,
    queued: Seq<Note>,
    limits: SelectionLimits,
)
    ensures
        !worth_submitting(deposits, queued, limits) <==> (collected(deposits, limits.fee_faucet_id)
            <= limits.reserve && note_count(deposits, queued, limits) == 0),
{
    law_notes_are_the_longest_payable_run(deposits, queued, limits);
}

/// Machine integers stand for themselves: as many, in the same order, with the same values.
pub proof fn law_machine_integers_keep_their_values(amounts: Seq<u64>, i: int)
    requires
        0 <= i < amounts.len(),
    ensures
        naturals(amounts).len() == amounts.len(),
        naturals(amounts)[i] == amounts[i],
{
}

/// Some amounts are admitted as long as they fit: those admitted are together with the reserve no
/// more than the balance, or nothing at all, and the next one would be more.
pub proof fn law_admitted_amounts_leave_the_reserve(amounts: Seq<u64>, balance: u64, reserve: u64)
    ensures
        ({
            let values = naturals(amounts);
            let count = affordable(
                values,
                saturating_difference(balance as nat, reserve as nat),
            );
            let paid = total(values.take(count));
            &&& 0 <= count <= amounts.len()
            &&& paid == 0 || paid + reserve <= balance
            &&& count < amounts.len() ==> paid + amounts[count] > 0 && paid + amounts[count] + reserve
                > balance
        }),
{
    let values = naturals(amounts);
    let budget = saturating_difference(balance as nat, reserve as nat);
    let count = affordable(values, budget);
    law_admission_is_first_come_first_served(values, budget);
    if count < amounts.len() {
        assert(values.take(count + 1).drop_last() =~= values.take(count));
    }
}

} // verus!
