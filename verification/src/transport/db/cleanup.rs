//! Which expired notes an insertion removes.

use vstd::prelude::*;
use vstd::relations::*;
use vstd::seq_lib::*;

use crate::filtering;
use crate::transport::db;
use crate::transport::db::StoredNote;
use crate::transport::db::StoredNoteView;

verus! {

/// What orders the expired notes: the timestamp, and the cursor among equal timestamps.
pub struct Age {
    pub created_at: int,
    pub seq: int,
}

/// The order which puts the older note first.
pub open spec fn older_first() -> spec_fn(Age, Age) -> bool {
    |a: Age, b: Age| a.created_at < b.created_at || (a.created_at == b.created_at && a.seq <= b.seq)
}

/// The ages of the notes which were created before `cutoff`.
pub open spec fn expired_ages(notes: Seq<StoredNoteView>, cutoff: i64) -> Seq<Age> {
    notes.filter(|note: StoredNoteView| note.created_at < cutoff).map_values(
        |note: StoredNoteView| Age { created_at: note.created_at as int, seq: note.seq as int },
    )
}

/// The first `limit` of some elements, or all of them where there are fewer.
pub open spec fn first_of<A>(elements: Seq<A>, limit: nat) -> Seq<A> {
    if elements.len() <= limit {
        elements
    } else {
        elements.take(limit as int)
    }
}

/// The ages of the notes to remove: up to `limit` of those created before `cutoff`, the oldest
/// first.
pub open spec fn removed_ages(notes: Seq<StoredNoteView>, cutoff: i64, limit: u32) -> Seq<Age> {
    first_of(expired_ages(notes, cutoff).sort_by(older_first()), limit as nat)
}

/// Whether the note is one of those to remove.
pub open spec fn is_removed(
    notes: Seq<StoredNoteView>,
    cutoff: i64,
    limit: u32,
    note: StoredNoteView,
) -> bool {
    removed_ages(notes, cutoff, limit).contains(
        Age { created_at: note.created_at as int, seq: note.seq as int },
    )
}

/// The notes which cleanup keeps.
pub open spec fn kept_notes(notes: Seq<StoredNoteView>, cutoff: i64, limit: u32) -> Seq<
    StoredNoteView,
> {
    notes.filter(|note: StoredNoteView| !is_removed(notes, cutoff, limit, note))
}

/// The notes which cleanup removes.
pub open spec fn removed_notes(notes: Seq<StoredNoteView>, cutoff: i64, limit: u32) -> Seq<
    StoredNoteView,
> {
    notes.filter(|note: StoredNoteView| is_removed(notes, cutoff, limit, note))
}

proof fn lemma_older_first_is_total()
    ensures
        total_ordering(older_first()),
{
}

// FINDING THE OLDEST
// ================================================================================================

/// The ages of some notes, as machine integers.
pub open spec fn ages(keys: Seq<(i64, i64)>) -> Seq<Age> {
    keys.map_values(|key: (i64, i64)| Age { created_at: key.0 as int, seq: key.1 as int })
}

/// Inserting an element into a sorted sequence and cutting off at `limit` is the same as inserting
/// it into what was already cut off at `limit`.
proof fn lemma_insert_into_first(sorted: Seq<Age>, age: Age, position: int, limit: nat)
    requires
        sorted_by(sorted, older_first()),
        0 <= position <= first_of(sorted, limit).len(),
        forall|k: int| 0 <= k < position ==> older_first()(#[trigger] sorted[k], age),
        position < first_of(sorted, limit).len() ==> !older_first()(sorted[position], age),
    ensures
        first_of(first_of(sorted, limit).insert(position, age), limit) == first_of(
            sorted.push(age).sort_by(older_first()),
            limit,
        ),
{
    lemma_older_first_is_total();
    let kept = first_of(sorted, limit);
    // The place of the new element in the whole sequence.
    let place = lemma_place(sorted, age, position);
    let whole = sorted.insert(place, age);
    lemma_insert_keeps_order(sorted, age, place);
    to_multiset_insert(sorted, place, age);
    to_multiset_build(sorted, age);
    let arranged = sorted.push(age).sort_by(older_first());
    sorted.push(age).lemma_sort_by_ensures(older_first());
    lemma_sorted_unique(whole, arranged, older_first());
    assert(first_of(kept.insert(position, age), limit) =~= first_of(whole, limit)) by {
        if position < kept.len() {
            assert(place == position);
        } else {
            assert(place >= kept.len());
        }
    }
}

/// Where `age` goes in a sorted sequence, at `from` or behind it.
proof fn lemma_place(sorted: Seq<Age>, age: Age, from: int) -> (place: int)
    requires
        0 <= from <= sorted.len(),
        forall|k: int| 0 <= k < from ==> older_first()(#[trigger] sorted[k], age),
    ensures
        from <= place <= sorted.len(),
        forall|k: int| 0 <= k < place ==> older_first()(#[trigger] sorted[k], age),
        place < sorted.len() ==> !older_first()(sorted[place], age),
        from < sorted.len() && !older_first()(sorted[from], age) ==> place == from,
    decreases sorted.len() - from,
{
    if from == sorted.len() || !older_first()(sorted[from], age) {
        from
    } else {
        lemma_place(sorted, age, from + 1)
    }
}

proof fn lemma_insert_keeps_order(sorted: Seq<Age>, age: Age, place: int)
    requires
        sorted_by(sorted, older_first()),
        0 <= place <= sorted.len(),
        forall|k: int| 0 <= k < place ==> older_first()(#[trigger] sorted[k], age),
        place < sorted.len() ==> !older_first()(sorted[place], age),
    ensures
        sorted_by(sorted.insert(place, age), older_first()),
{
    let whole = sorted.insert(place, age);
    assert forall|i: int, j: int| 0 <= i < j < whole.len() implies #[trigger] older_first()(
        whole[i],
        whole[j],
    ) by {
        if i < place && j < place {
            assert(older_first()(sorted[i], sorted[j]));
        } else if i < place && j == place {
            assert(older_first()(sorted[i], age));
        } else if i < place {
            assert(older_first()(sorted[i], sorted[j - 1]));
        } else if i == place {
            if j - 1 > place {
                assert(older_first()(sorted[place], sorted[j - 1]));
            }
        } else {
            assert(older_first()(sorted[i - 1], sorted[j - 1]));
        }
    }
}

/// Puts a key into a sorted list which never grows beyond `limit`.
fn insert_oldest(oldest: &mut Vec<(i64, i64)>, key: (i64, i64), limit: usize) -> (position: usize)
    requires
        old(oldest)@.len() <= limit,
        sorted_by(ages(old(oldest)@), older_first()),
    ensures
        position <= old(oldest)@.len(),
        final(oldest)@.len() <= limit,
        forall|k: int|
            0 <= k < position ==> older_first()(
                #[trigger] ages(old(oldest)@)[k],
                (Age { created_at: key.0 as int, seq: key.1 as int }),
            ),
        position < old(oldest)@.len() ==> !older_first()(
            ages(old(oldest)@)[position as int],
            (Age { created_at: key.0 as int, seq: key.1 as int }),
        ),
        ages(final(oldest)@) == first_of(
            ages(old(oldest)@).insert(
                position as int,
                (Age { created_at: key.0 as int, seq: key.1 as int }),
            ),
            limit as nat,
        ),
{
    let mut position: usize = 0;
    let ghost before = ages(oldest@);
    let ghost age = Age { created_at: key.0 as int, seq: key.1 as int };
    while position < oldest.len() && (oldest[position].0 < key.0 || (oldest[position].0 == key.0
        && oldest[position].1 <= key.1))
        invariant
            before == ages(oldest@),
            age == (Age { created_at: key.0 as int, seq: key.1 as int }),
            position <= oldest@.len(),
            forall|k: int| 0 <= k < position ==> older_first()(#[trigger] before[k], age),
        decreases oldest@.len() - position,
    {
        assert(older_first()(before[position as int], age));
        position = position + 1;
    }
    oldest.insert(position, key);
    assert(ages(oldest@) =~= before.insert(position as int, age));
    if oldest.len() > limit {
        oldest.truncate(limit);
    }
    assert(ages(oldest@) =~= first_of(before.insert(position as int, age), limit as nat));
    position
}

/// Finds the notes to remove: up to `limit` of those created before `cutoff`, the oldest first.
pub fn find_expired(notes: &Vec<StoredNote>, cutoff: i64, limit: u32) -> (oldest: Vec<(i64, i64)>)
    ensures
        ages(oldest@) == removed_ages(db::views(notes@), cutoff, limit),
        oldest@.len() <= limit,
{
    let ghost all = db::views(notes@);
    let ghost expired = |note: StoredNoteView| note.created_at < cutoff;
    let mut oldest: Vec<(i64, i64)> = Vec::new();
    let mut i: usize = 0;
    let bound: usize = limit as usize;
    proof {
        reveal(Seq::filter);
        assert(expired_ages(all.take(0), cutoff) =~= Seq::empty());
        lemma_older_first_is_total();
        let none = Seq::<Age>::empty();
        none.lemma_sort_by_ensures(older_first());
        to_multiset_len(none);
        to_multiset_len(none.sort_by(older_first()));
        assert(ages(oldest@) =~= removed_ages(all.take(0), cutoff, limit));
    }
    while i < notes.len()
        invariant
            all == db::views(notes@),
            expired == (|note: StoredNoteView| note.created_at < cutoff),
            i <= notes@.len(),
            bound == limit,
            oldest@.len() <= bound,
            ages(oldest@) == removed_ages(all.take(i as int), cutoff, limit),
        decreases notes@.len() - i,
    {
        let ghost seen = expired_ages(all.take(i as int), cutoff);
        let ghost sorted = seen.sort_by(older_first());
        proof {
            reveal(Seq::filter);
            lemma_older_first_is_total();
            seen.lemma_sort_by_ensures(older_first());
            assert(all.take(i + 1).drop_last() =~= all.take(i as int));
            assert(all.take(i + 1).last() == notes@[i as int]@);
        }
        if notes[i].created_at < cutoff {
            let key: (i64, i64) = (notes[i].created_at, notes[i].seq);
            let ghost age = Age { created_at: key.0 as int, seq: key.1 as int };
            let position: usize = insert_oldest(&mut oldest, key, bound);
            proof {
                assert(expired_ages(all.take(i + 1), cutoff) =~= seen.push(age));
                assert forall|k: int| 0 <= k < position implies older_first()(
                    #[trigger] sorted[k],
                    age,
                ) by {
                    assert(sorted[k] == first_of(sorted, limit as nat)[k]);
                }
                lemma_insert_into_first(sorted, age, position as int, limit as nat);
                lemma_sort_of_push(seen, age);
            }
        } else {
            assert(expired_ages(all.take(i + 1), cutoff) =~= seen);
        }
        i = i + 1;
    }
    assert(all.take(i as int) =~= all);
    oldest
}

/// Sorting some elements first does not change how they sort together with one more.
proof fn lemma_sort_of_push(seen: Seq<Age>, age: Age)
    ensures
        seen.sort_by(older_first()).push(age).sort_by(older_first()) == seen.push(age).sort_by(
            older_first(),
        ),
{
    lemma_older_first_is_total();
    let sorted = seen.sort_by(older_first());
    seen.lemma_sort_by_ensures(older_first());
    sorted.push(age).lemma_sort_by_ensures(older_first());
    seen.push(age).lemma_sort_by_ensures(older_first());
    to_multiset_build(seen, age);
    to_multiset_build(sorted, age);
    lemma_sorted_unique(
        sorted.push(age).sort_by(older_first()),
        seen.push(age).sort_by(older_first()),
        older_first(),
    );
}

// REMOVING THE OLDEST
// ================================================================================================

/// Whether the keys hold this timestamp and cursor.
fn contains_key(keys: &Vec<(i64, i64)>, created_at: i64, seq: i64) -> (found: bool)
    ensures
        found == ages(keys@).contains(Age { created_at: created_at as int, seq: seq as int }),
{
    let ghost all = ages(keys@);
    let ghost age = Age { created_at: created_at as int, seq: seq as int };
    let mut i: usize = 0;
    while i < keys.len()
        invariant
            all == ages(keys@),
            age == (Age { created_at: created_at as int, seq: seq as int }),
            i <= keys@.len(),
            forall|k: int| 0 <= k < i ==> all[k] != age,
        decreases keys@.len() - i,
    {
        if keys[i].0 == created_at && keys[i].1 == seq {
            assert(all[i as int] == age);
            return true;
        }
        i = i + 1;
    }
    false
}

/// Whether the note has one of the keys.
pub open spec fn has_key(keys: Seq<(i64, i64)>, note: StoredNoteView) -> bool {
    ages(keys).contains(Age { created_at: note.created_at as int, seq: note.seq as int })
}

proof fn lemma_size_of_prefix(notes: Seq<StoredNoteView>, n: int)
    requires
        0 <= n <= notes.len(),
    ensures
        db::total_size(notes.take(n)) <= db::total_size(notes),
    decreases notes.len() - n,
{
    if n < notes.len() {
        lemma_size_of_prefix(notes, n + 1);
        assert(notes.take(n + 1).drop_last() =~= notes.take(n));
    } else {
        assert(notes.take(n) =~= notes);
    }
}

/// The payload size of the notes with the given keys, `None` when it does not fit an `i64`.
pub fn size_of_keys(notes: &Vec<StoredNote>, keys: &Vec<(i64, i64)>) -> (size: Option<i64>)
    ensures
        ({
            let removed = db::views(notes@).filter(|note: StoredNoteView| has_key(keys@, note));
            match size {
                Some(size) => size == db::total_size(removed),
                None => db::total_size(removed) > i64::MAX,
            }
        }),
{
    let ghost all = db::views(notes@);
    let ghost keep = |note: StoredNoteView| has_key(keys@, note);
    let mut sum: u128 = 0;
    let mut i: usize = 0;
    proof {
        reveal(Seq::filter);
        assert(all.take(0).filter(keep) =~= Seq::empty());
    }
    while i < notes.len()
        invariant
            all == db::views(notes@),
            keep == (|note: StoredNoteView| has_key(keys@, note)),
            i <= notes@.len(),
            sum == db::total_size(all.take(i as int).filter(keep)),
            sum <= i64::MAX,
        decreases notes@.len() - i,
    {
        proof {
            reveal(Seq::filter);
            assert(all.take(i + 1).drop_last() =~= all.take(i as int));
            assert(all.take(i + 1).last() == notes@[i as int]@);
        }
        let ghost before = all.take(i as int).filter(keep);
        if contains_key(keys, notes[i].created_at, notes[i].seq) {
            sum = sum + notes[i].header.len() as u128 + notes[i].details.len() as u128;
            proof {
                let longer = all.take(i + 1).filter(keep);
                assert(longer == before.push(notes@[i as int]@));
                assert(longer.drop_last() =~= before);
                assert(sum == db::total_size(longer));
                filtering::lemma_filter_of_prefix(all, keep, i + 1);
                lemma_size_of_prefix(all.filter(keep), longer.len() as int);
            }
            if sum > i64::MAX as u128 {
                return None;
            }
        }
        i = i + 1;
    }
    assert(all.take(i as int) =~= all);
    Some(sum as i64)
}

/// Removes the notes with the given keys.
pub fn remove_keys(notes: &mut Vec<StoredNote>, keys: &Vec<(i64, i64)>)
    ensures
        db::views(final(notes)@) == db::views(old(notes)@).filter(
            |note: StoredNoteView| !has_key(keys@, note),
        ),
{
    let ghost all = db::views(notes@);
    let ghost keep = |note: StoredNoteView| !has_key(keys@, note);
    let mut i: usize = 0;
    let ghost mut seen: int = 0;
    proof {
        filtering::lemma_filter_start(all, keep);
    }
    while i < notes.len()
        invariant
            keep == (|note: StoredNoteView| !has_key(keys@, note)),
            filtering::filtered_so_far(all, db::views(notes@), keep, i as int, seen),
        decreases notes@.len() - i,
    {
        let ghost before = db::views(notes@);
        proof {
            assert(before[i as int] == notes@[i as int]@);
            filtering::lemma_filter_step(all, before, keep, i as int, seen);
            seen = seen + 1;
        }
        if contains_key(keys, notes[i].created_at, notes[i].seq) {
            let _removed = notes.remove(i);
            assert(db::views(notes@) =~= before.remove(i as int));
        } else {
            i = i + 1;
        }
    }
    proof {
        filtering::lemma_filter_end(all, db::views(notes@), keep, seen);
    }
}

/// A note has one of some keys exactly when one of them is its time and its cursor.
pub proof fn law_key_is_time_and_cursor(keys: Seq<(i64, i64)>, note: StoredNoteView)
    ensures
        has_key(keys, note) <==> exists|i: int|
            0 <= i < keys.len() && #[trigger] keys[i] == (note.created_at, note.seq),
{
    let age = Age { created_at: note.created_at as int, seq: note.seq as int };
    if has_key(keys, note) {
        let i = choose|i: int| 0 <= i < ages(keys).len() && ages(keys)[i] == age;
        assert(keys[i] == (note.created_at, note.seq));
    }
    if exists|i: int| 0 <= i < keys.len() && #[trigger] keys[i] == (note.created_at, note.seq) {
        let i = choose|i: int|
            0 <= i < keys.len() && #[trigger] keys[i] == (note.created_at, note.seq);
        assert(ages(keys)[i] == age);
    }
}

} // verus!
