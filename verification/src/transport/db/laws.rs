//! What holds of note storage as a whole.

use vstd::prelude::*;
use vstd::relations::*;
use vstd::seq_lib::*;

use crate::text;
use crate::transport::db;
use crate::transport::db::cleanup;
use crate::transport::db::cleanup::Age;
use crate::transport::db::fetch;
use crate::transport::db::queries;
use crate::transport::db::store;
use crate::transport::db::DatabaseView;
use crate::transport::db::NewNoteView;
use crate::transport::db::StorageErrorView;
use crate::transport::db::StoreResult;
use crate::transport::db::StoredNoteView;
use crate::transport::db::CLEANUP_MAX_NOTES;
use crate::transport::db::FETCH_NOTES_MAX_BYTES;
use crate::transport::db::FETCH_NOTES_MAX_ROWS;

verus! {

// FILTERED NOTES
// ================================================================================================

/// Whether two notes stand in the order of their cursors and are not the same note.
pub open spec fn in_order(first: StoredNoteView, second: StoredNoteView) -> bool {
    first.seq < second.seq && first.id != second.id
}

/// Whether every note stands in order with every later one.
pub open spec fn all_in_order(notes: Seq<StoredNoteView>) -> bool {
    forall|i: int, j: int|
        0 <= i < j < notes.len() ==> in_order(#[trigger] notes[i], #[trigger] notes[j])
}

/// A filter keeps elements which were there, meets its condition, and keeps the order.
pub proof fn lemma_filter(notes: Seq<StoredNoteView>, keep: spec_fn(StoredNoteView) -> bool)
    ensures
        forall|i: int|
            0 <= i < notes.filter(keep).len() ==> notes.contains(#[trigger] notes.filter(keep)[i])
                && keep(notes.filter(keep)[i]),
        all_in_order(notes) ==> all_in_order(notes.filter(keep)),
        forall|note: StoredNoteView|
            notes.contains(note) && keep(note) ==> #[trigger] notes.filter(keep).contains(note),
    decreases notes.len(),
{
    reveal(Seq::filter);
    if notes.len() > 0 {
        let rest = notes.drop_last();
        let last = notes.last();
        lemma_filter(rest, keep);
        let kept = rest.filter(keep);
        let all = notes.filter(keep);
        assert forall|i: int| 0 <= i < all.len() implies notes.contains(#[trigger] all[i]) && keep(
            all[i],
        ) by {
            if i < kept.len() {
                assert(rest.contains(kept[i]));
                let k = choose|k: int| 0 <= k < rest.len() && rest[k] == kept[i];
                assert(notes[k] == all[i]);
            } else {
                assert(notes[notes.len() - 1] == all[i]);
            }
        }
        if all_in_order(notes) {
            assert forall|i: int, j: int| 0 <= i < j < rest.len() implies in_order(
                #[trigger] rest[i],
                #[trigger] rest[j],
            ) by {
                assert(in_order(notes[i], notes[j]));
            }
            assert forall|i: int, j: int| 0 <= i < j < all.len() implies in_order(
                #[trigger] all[i],
                #[trigger] all[j],
            ) by {
                if j < kept.len() {
                    assert(in_order(kept[i], kept[j]));
                } else {
                    assert(rest.contains(kept[i]));
                    let k = choose|k: int| 0 <= k < rest.len() && rest[k] == kept[i];
                    assert(in_order(notes[k], notes[notes.len() - 1]));
                }
            }
        }
        assert forall|note: StoredNoteView| notes.contains(note) && keep(
            note,
        ) implies #[trigger] all.contains(note) by {
            let k = choose|k: int| 0 <= k < notes.len() && notes[k] == note;
            if k < rest.len() {
                assert(rest[k] == note);
                assert(kept.contains(note));
                let m = choose|m: int| 0 <= m < kept.len() && kept[m] == note;
                assert(all[m] == note);
            } else {
                assert(all[all.len() - 1] == note);
            }
        }
    }
}

/// The notes which a filter keeps and those it drops have together the size of all of them.
proof fn lemma_sizes_add_up(notes: Seq<StoredNoteView>, keep: spec_fn(StoredNoteView) -> bool)
    ensures
        db::total_size(notes.filter(keep)) + db::total_size(
            notes.filter(|note: StoredNoteView| !keep(note)),
        ) == db::total_size(notes),
    decreases notes.len(),
{
    reveal(Seq::filter);
    if notes.len() > 0 {
        let rest = notes.drop_last();
        lemma_sizes_add_up(rest, keep);
        let drop = |note: StoredNoteView| !keep(note);
        if keep(notes.last()) {
            assert(notes.filter(keep).drop_last() =~= rest.filter(keep));
        } else {
            assert(notes.filter(drop).drop_last() =~= rest.filter(drop));
        }
    }
}

// STORING
// ================================================================================================

/// Storing a note keeps the database within its schema.
pub proof fn law_store_keeps_the_schema(
    database: DatabaseView,
    note: NewNoteView,
    now: Result<i64, Seq<char>>,
    max_retained_bytes: u64,
    retention_days: u32,
)
    requires
        database.wf(),
    ensures
        store::stored_at(database, note, now, max_retained_bytes, retention_days).0.wf(),
{
    let (after, outcome) = store::stored_at(
        database,
        note,
        now,
        max_retained_bytes,
        retention_days,
    );
    if outcome == Ok::<StoreResult, StorageErrorView>(StoreResult::Inserted) {
        let cutoff = store::cutoff_of(now->Ok_0, retention_days);
        let keep = |old_note: StoredNoteView|
            !cleanup::is_removed(database.notes, cutoff, CLEANUP_MAX_NOTES, old_note);
        let kept = database.notes.filter(keep);
        assert(kept == cleanup::kept_notes(database.notes, cutoff, CLEANUP_MAX_NOTES));
        assert(all_in_order(database.notes));
        lemma_filter(database.notes, keep);
        let stored = note.stored(database.metadata.next_cursor, now->Ok_0);
        assert(after.notes == kept.push(stored));
        assert forall|i: int| 0 <= i < after.notes.len() implies 0 < (#[trigger] after.notes[i]).seq
            < after.metadata.next_cursor && after.notes[i].size() <= FETCH_NOTES_MAX_BYTES by {
            if i < kept.len() {
                assert(database.notes.contains(kept[i]));
                let k = choose|k: int| 0 <= k < database.notes.len() && database.notes[k]
                    == kept[i];
                assert(database.notes[k].seq < database.metadata.next_cursor);
            }
        }
        assert forall|i: int, j: int| 0 <= i < j < after.notes.len() implies (
        #[trigger] after.notes[i]).seq < (#[trigger] after.notes[j]).seq && after.notes[i].id
            != after.notes[j].id by {
            if j < kept.len() {
                assert(in_order(kept[i], kept[j]));
            } else {
                assert(database.notes.contains(kept[i]));
                let k = choose|k: int| 0 <= k < database.notes.len() && database.notes[k]
                    == kept[i];
                assert(database.notes[k].seq < database.metadata.next_cursor);
                assert(database.notes[k].id != note.id);
            }
        }
    }
}

/// The retained byte count always is the size of what is retained, and never underflows.
pub proof fn law_retained_bytes_are_exact(
    database: DatabaseView,
    note: NewNoteView,
    now: Result<i64, Seq<char>>,
    max_retained_bytes: u64,
    retention_days: u32,
)
    requires
        database.wf(),
        database.consistent(),
    ensures
        store::stored_at(database, note, now, max_retained_bytes, retention_days).0.consistent(),
        now matches Ok(now) ==> store::retained_after(database, note, now, retention_days) >= 0,
{
    if let Ok(time) = now {
        let cutoff = store::cutoff_of(time, retention_days);
        let removed = |old_note: StoredNoteView|
            cleanup::is_removed(database.notes, cutoff, CLEANUP_MAX_NOTES, old_note);
        lemma_sizes_add_up(database.notes, removed);
        let keep = |old_note: StoredNoteView|
            !cleanup::is_removed(database.notes, cutoff, CLEANUP_MAX_NOTES, old_note);
        assert(keep =~= (|old_note: StoredNoteView| !removed(old_note)));
        let kept = cleanup::kept_notes(database.notes, cutoff, CLEANUP_MAX_NOTES);
        let stored = note.stored(database.metadata.next_cursor, time);
        assert(kept.push(stored).drop_last() =~= kept);
    }
}

/// A store which fails changes nothing: no note, no deletion, no cursor, no byte count.
pub proof fn law_failed_store_changes_nothing(
    database: DatabaseView,
    note: NewNoteView,
    now: Result<i64, Seq<char>>,
    max_retained_bytes: u64,
    retention_days: u32,
)
    requires
        store::stored_at(database, note, now, max_retained_bytes, retention_days).1 is Err,
    ensures
        store::stored_at(database, note, now, max_retained_bytes, retention_days).0 == database,
{
}

/// A retry preserves the first record: once a note is stored, storing a note with its ID again
/// succeeds and changes nothing, at any time and under any limit.
pub proof fn law_retry_preserves_the_first_record(
    database: DatabaseView,
    note: NewNoteView,
    now: Result<i64, Seq<char>>,
    max_retained_bytes: u64,
    retention_days: u32,
    retry: NewNoteView,
    retry_now: Result<i64, Seq<char>>,
    retry_max_retained_bytes: u64,
    retry_retention_days: u32,
)
    requires
        store::stored_at(database, note, now, max_retained_bytes, retention_days).1 is Ok,
        retry.id == note.id,
    ensures
        ({
            let after = store::stored_at(
                database,
                note,
                now,
                max_retained_bytes,
                retention_days,
            ).0;
            store::stored_at(
                after,
                retry,
                retry_now,
                retry_max_retained_bytes,
                retry_retention_days,
            ) == (after, Ok::<StoreResult, StorageErrorView>(StoreResult::AlreadyPresent))
        }),
{
    let (after, outcome) = store::stored_at(
        database,
        note,
        now,
        max_retained_bytes,
        retention_days,
    );
    if outcome == Ok::<StoreResult, StorageErrorView>(StoreResult::Inserted) {
        assert(after.notes[after.notes.len() - 1].id == note.id);
    }
}

/// The retained bytes never exceed the limit which the last accepted note was stored under.
pub proof fn law_accepted_note_respects_the_limit(
    database: DatabaseView,
    note: NewNoteView,
    now: Result<i64, Seq<char>>,
    max_retained_bytes: u64,
    retention_days: u32,
)
    requires
        store::stored_at(database, note, now, max_retained_bytes, retention_days).1 == Ok::<
            StoreResult,
            StorageErrorView,
        >(StoreResult::Inserted),
    ensures
        0 <= store::stored_at(
            database,
            note,
            now,
            max_retained_bytes,
            retention_days,
        ).0.metadata.retained_bytes <= max_retained_bytes,
{
}

// CLEANUP
// ================================================================================================

proof fn lemma_removed_ages_are_expired(notes: Seq<StoredNoteView>, cutoff: i64, limit: u32)
    ensures
        forall|age: Age| #[trigger]
            cleanup::removed_ages(notes, cutoff, limit).contains(age) ==> age.created_at < cutoff,
        cleanup::removed_ages(notes, cutoff, limit).len() <= limit,
{
    let expired = cleanup::expired_ages(notes, cutoff);
    let keep = |note: StoredNoteView| note.created_at < cutoff;
    assert(total_ordering(cleanup::older_first()));
    expired.lemma_sort_by_ensures(cleanup::older_first());
    lemma_filter(notes, keep);
    let sorted = expired.sort_by(cleanup::older_first());
    assert forall|age: Age| #[trigger]
        cleanup::removed_ages(notes, cutoff, limit).contains(age) implies age.created_at
        < cutoff by {
        let removed = cleanup::removed_ages(notes, cutoff, limit);
        let i = choose|i: int| 0 <= i < removed.len() && removed[i] == age;
        assert(sorted[i] == age);
        assert(sorted.contains(age));
        assert(expired.contains(age));
        let k = choose|k: int| 0 <= k < expired.len() && expired[k] == age;
        assert(keep(notes.filter(keep)[k]));
    }
}

/// Cleanup removes only notes which were created before the cutoff. In particular a note at the
/// cutoff stays, and so does the note which is being stored.
pub proof fn law_only_expired_notes_are_removed(
    notes: Seq<StoredNoteView>,
    cutoff: i64,
    limit: u32,
    note: StoredNoteView,
)
    requires
        notes.contains(note),
        note.created_at >= cutoff,
    ensures
        cleanup::kept_notes(notes, cutoff, limit).contains(note),
        !cleanup::removed_notes(notes, cutoff, limit).contains(note),
{
    lemma_removed_ages_are_expired(notes, cutoff, limit);
    let keep = |old_note: StoredNoteView| !cleanup::is_removed(notes, cutoff, limit, old_note);
    let drop = |old_note: StoredNoteView| cleanup::is_removed(notes, cutoff, limit, old_note);
    lemma_filter(notes, keep);
    lemma_filter(notes, drop);
    assert(keep(note));
    let removed = notes.filter(drop);
    if removed.contains(note) {
        let i = choose|i: int| 0 <= i < removed.len() && removed[i] == note;
        assert(drop(removed[i]));
    }
}

/// Cleanup never removes more notes than its limit.
pub proof fn law_cleanup_is_bounded(database: DatabaseView, cutoff: i64, limit: u32)
    requires
        database.wf(),
    ensures
        cleanup::removed_notes(database.notes, cutoff, limit).len() <= limit,
{
    let notes = database.notes;
    lemma_removed_ages_are_expired(notes, cutoff, limit);
    let drop = |note: StoredNoteView| cleanup::is_removed(notes, cutoff, limit, note);
    lemma_filter(notes, drop);
    assert(all_in_order(notes));
    let removed = notes.filter(drop);
    let ages = removed.map_values(
        |note: StoredNoteView| Age { created_at: note.created_at as int, seq: note.seq as int },
    );
    assert forall|i: int, j: int| 0 <= i < ages.len() && 0 <= j < ages.len() && i
        != j implies ages[i] != ages[j] by {
        if i < j {
            assert(in_order(removed[i], removed[j]));
        } else {
            assert(in_order(removed[j], removed[i]));
        }
    }
    assert(ages.no_duplicates());
    ages.unique_seq_to_set();
    let chosen = cleanup::removed_ages(notes, cutoff, limit);
    assert forall|age: Age| ages.to_set().contains(age) implies chosen.to_set().contains(age) by {
        let i = choose|i: int| 0 <= i < ages.len() && ages[i] == age;
        assert(drop(removed[i]));
        assert(chosen.contains(age));
    }
    chosen.lemma_cardinality_of_set();
    vstd::set_lib::lemma_len_subset(ages.to_set(), chosen.to_set());
}

/// Cleanup removes the oldest notes first: no expired note it keeps is older than one it removes,
/// and equal timestamps go by their cursors.
pub proof fn law_cleanup_removes_the_oldest(
    notes: Seq<StoredNoteView>,
    cutoff: i64,
    limit: u32,
    removed: StoredNoteView,
    kept: StoredNoteView,
)
    requires
        cleanup::removed_notes(notes, cutoff, limit).contains(removed),
        cleanup::kept_notes(notes, cutoff, limit).contains(kept),
        kept.created_at < cutoff,
    ensures
        removed.created_at < kept.created_at || (removed.created_at == kept.created_at
            && removed.seq <= kept.seq),
{
    let keep = |note: StoredNoteView| !cleanup::is_removed(notes, cutoff, limit, note);
    let drop = |note: StoredNoteView| cleanup::is_removed(notes, cutoff, limit, note);
    let is_expired = |note: StoredNoteView| note.created_at < cutoff;
    lemma_filter(notes, keep);
    lemma_filter(notes, drop);
    lemma_filter(notes, is_expired);
    let removed_all = notes.filter(drop);
    let i = choose|i: int| 0 <= i < removed_all.len() && removed_all[i] == removed;
    assert(drop(removed_all[i]));
    let kept_all = notes.filter(keep);
    let j = choose|j: int| 0 <= j < kept_all.len() && kept_all[j] == kept;
    assert(keep(kept_all[j]));

    let expired = cleanup::expired_ages(notes, cutoff);
    assert(total_ordering(cleanup::older_first()));
    expired.lemma_sort_by_ensures(cleanup::older_first());
    let sorted = expired.sort_by(cleanup::older_first());
    let chosen = cleanup::removed_ages(notes, cutoff, limit);
    let removed_age = Age { created_at: removed.created_at as int, seq: removed.seq as int };
    let kept_age = Age { created_at: kept.created_at as int, seq: kept.seq as int };
    let m = choose|m: int| 0 <= m < chosen.len() && chosen[m] == removed_age;
    assert(sorted[m] == removed_age);
    assert(notes.filter(is_expired).contains(kept));
    let k = choose|k: int|
        0 <= k < notes.filter(is_expired).len() && notes.filter(is_expired)[k] == kept;
    assert(expired[k] == kept_age);
    assert(expired.contains(kept_age));
    assert(sorted.contains(kept_age)) by {
        broadcast use group_to_multiset_ensures;

        assert(expired.to_multiset().count(kept_age) > 0);
        assert(sorted.to_multiset().count(kept_age) > 0);
    }
    let n = choose|n: int| 0 <= n < sorted.len() && sorted[n] == kept_age;
    if n <= m {
        assert(chosen[n] == kept_age);
        assert(chosen.contains(kept_age));
    } else {
        assert(cleanup::older_first()(sorted[m], sorted[n]));
    }
}

/// It makes no difference whether a note is inserted before or after the cleanup of its insertion:
/// a note which has not expired takes no part in it.
pub proof fn law_cleanup_ignores_the_new_note(
    notes: Seq<StoredNoteView>,
    note: StoredNoteView,
    cutoff: i64,
    limit: u32,
)
    requires
        note.created_at >= cutoff,
    ensures
        cleanup::kept_notes(notes.push(note), cutoff, limit) == cleanup::kept_notes(
            notes,
            cutoff,
            limit,
        ).push(note),
{
    reveal(Seq::filter);
    let longer = notes.push(note);
    assert(longer.drop_last() =~= notes);
    assert(cleanup::expired_ages(longer, cutoff) =~= cleanup::expired_ages(notes, cutoff));
    let keep = |old_note: StoredNoteView| !cleanup::is_removed(notes, cutoff, limit, old_note);
    let keep_longer = |old_note: StoredNoteView|
        !cleanup::is_removed(longer, cutoff, limit, old_note);
    assert(keep =~= keep_longer);
    lemma_removed_ages_are_expired(notes, cutoff, limit);
    assert(keep(note));
}

// FETCHING
// ================================================================================================

/// A stored note is delivered as it was handed in: a fetch of its tag from just before its cursor
/// returns exactly that note, with the header, the details and the block hint of the sender.
pub proof fn law_stored_note_is_delivered(
    database: DatabaseView,
    note: NewNoteView,
    now: Result<i64, Seq<char>>,
    max_retained_bytes: u64,
    retention_days: u32,
    tags: Seq<u32>,
)
    requires
        database.wf(),
        store::stored_at(database, note, now, max_retained_bytes, retention_days).1 == Ok::<
            StoreResult,
            StorageErrorView,
        >(StoreResult::Inserted),
        tags.contains(note.tag),
    ensures
        ({
            let after = store::stored_at(
                database,
                note,
                now,
                max_retained_bytes,
                retention_days,
            ).0;
            let seq = database.metadata.next_cursor;
            let page = fetch::page_from(after, tags, seq - 1);
            &&& page.notes == seq![note.stored(seq, now->Ok_0)]
            &&& page.cursor.sequence == seq
            &&& !page.has_more
        }),
{
    let after = store::stored_at(database, note, now, max_retained_bytes, retention_days).0;
    let seq = database.metadata.next_cursor;
    let stored = note.stored(seq, now->Ok_0);
    law_store_keeps_the_schema(database, note, now, max_retained_bytes, retention_days);
    let wanted = fetch::is_wanted(tags, seq - 1);
    let found = after.notes.filter(wanted);
    let rest = after.notes.drop_last();
    assert(after.notes.last() == stored);
    assert(rest.filter(wanted).len() == 0) by {
        lemma_filter(rest, wanted);
        if rest.filter(wanted).len() > 0 {
            let first = rest.filter(wanted)[0];
            assert(rest.contains(first) && wanted(first));
            let k = choose|k: int| 0 <= k < rest.len() && rest[k] == first;
            assert(after.notes[k].seq < after.notes[after.notes.len() - 1].seq);
        }
    }
    reveal(Seq::filter);
    assert(found =~= seq![stored]);
    assert(found.drop_last() =~= Seq::empty());
    assert(db::total_size(found.drop_last()) == 0);
    assert(fetch::fits_page(found));
    assert(fetch::page_length(found.drop_last()) == 0);
    assert(found.take(1) =~= found);
}

/// A note which is stored, and has one of the tags, is on some page behind any position before it.
pub proof fn law_stored_note_is_among_the_candidates(
    database: DatabaseView,
    tags: Seq<u32>,
    sequence: int,
    note: StoredNoteView,
)
    ensures
        fetch::candidates(database.notes, tags, sequence).contains(note)
            <==> database.notes.contains(note) && note.seq > sequence && tags.contains(note.tag),
{
    let wanted = fetch::is_wanted(tags, sequence);
    lemma_filter(database.notes, wanted);
    let found = database.notes.filter(wanted);
    if found.contains(note) {
        let i = choose|i: int| 0 <= i < found.len() && found[i] == note;
        assert(wanted(found[i]) && database.notes.contains(found[i]));
    }
}

/// Pages resume without gaps and without overlap: a page and what is behind its cursor are together
/// exactly the notes behind the position, and there is more exactly when something is behind it.
pub proof fn law_pages_resume_without_gaps(database: DatabaseView, tags: Seq<u32>, sequence: int)
    requires
        database.wf(),
        0 <= sequence <= i64::MAX,
    ensures
        ({
            let page = fetch::page_from(database, tags, sequence);
            let rest = fetch::candidates(database.notes, tags, page.cursor.sequence as int);
            &&& fetch::candidates(database.notes, tags, sequence) == page.notes + rest
            &&& page.has_more <==> rest.len() > 0
        }),
{
    let found = fetch::candidates(database.notes, tags, sequence);
    let page = fetch::page_from(database, tags, sequence);
    fetch::law_page_is_bounded_and_full(found);
    let n = fetch::page_length(found);
    assert(all_in_order(database.notes));
    lemma_filter(database.notes, fetch::is_wanted(tags, sequence));
    if n > 0 {
        assert(page.notes.last() == found[n - 1]);
        assert(database.notes.contains(found[n - 1]));
        let k = choose|k: int| 0 <= k < database.notes.len() && database.notes[k] == found[n - 1];
        assert(database.notes[k].seq > 0);
        assert(page.cursor.sequence == found[n - 1].seq);
        lemma_later_candidates(database.notes, tags, sequence, n);
    } else {
        assert(found.take(0) =~= Seq::empty());
        assert(page.notes + found =~= found);
    }
    assert(found =~= found.take(n) + found.skip(n));
}

/// The candidates behind the last of the first `n` are the other candidates.
pub proof fn lemma_later_candidates(
    notes: Seq<StoredNoteView>,
    tags: Seq<u32>,
    sequence: int,
    n: int,
)
    requires
        all_in_order(notes),
        0 < n <= fetch::candidates(notes, tags, sequence).len(),
    ensures
        fetch::candidates(
            notes,
            tags,
            fetch::candidates(notes, tags, sequence)[n - 1].seq as int,
        ) == fetch::candidates(notes, tags, sequence).skip(n),
    decreases notes.len(),
{
    reveal(Seq::filter);
    let rest = notes.drop_last();
    let last = notes.last();
    let found = fetch::candidates(notes, tags, sequence);
    let found_rest = fetch::candidates(rest, tags, sequence);
    assert forall|i: int, j: int| 0 <= i < j < rest.len() implies in_order(
        #[trigger] rest[i],
        #[trigger] rest[j],
    ) by {
        assert(in_order(notes[i], notes[j]));
    }
    lemma_filter(rest, fetch::is_wanted(tags, sequence));
    let position = found[n - 1].seq as int;
    if n <= found_rest.len() {
        lemma_later_candidates(rest, tags, sequence, n);
        assert(found[n - 1] == found_rest[n - 1]);
        assert(rest.contains(found_rest[n - 1]));
        let k = choose|k: int| 0 <= k < rest.len() && rest[k] == found_rest[n - 1];
        assert(in_order(notes[k], notes[notes.len() - 1]));
        assert(fetch::candidates(notes, tags, position) =~= found.skip(n));
    } else {
        assert(found[n - 1] == last);
        let wanted = fetch::is_wanted(tags, position);
        lemma_filter(rest, wanted);
        if rest.filter(wanted).len() > 0 {
            let first = rest.filter(wanted)[0];
            assert(rest.contains(first) && wanted(first));
            let k = choose|k: int| 0 <= k < rest.len() && rest[k] == first;
            assert(in_order(notes[k], notes[notes.len() - 1]));
        }
        assert(fetch::candidates(notes, tags, position) =~= found.skip(n));
    }
}

/// Paging makes progress: when there is more to fetch, the page is not empty and its cursor is
/// behind the position.
pub proof fn law_paging_makes_progress(database: DatabaseView, tags: Seq<u32>, sequence: int)
    requires
        database.wf(),
        0 <= sequence <= i64::MAX,
        fetch::candidates(database.notes, tags, sequence).len() > 0,
    ensures
        fetch::page_from(database, tags, sequence).notes.len() > 0,
        fetch::page_from(database, tags, sequence).cursor.sequence > sequence,
{
    let found = fetch::candidates(database.notes, tags, sequence);
    let wanted = fetch::is_wanted(tags, sequence);
    fetch::law_page_is_bounded_and_full(found);
    lemma_filter(database.notes, wanted);
    assert(found[0] == database.notes.filter(wanted)[0]);
    assert(database.notes.contains(found[0]));
    let k = choose|k: int| 0 <= k < database.notes.len() && database.notes[k] == found[0];
    assert(database.notes[k].size() <= FETCH_NOTES_MAX_BYTES);
    let one = found.take(1);
    assert(one.drop_last() =~= Seq::empty());
    assert(db::total_size(one.drop_last()) == 0);
    assert(fetch::fits_page(one));
    let n = fetch::page_length(found);
    assert(found.take(n)[n - 1] == database.notes.filter(wanted)[n - 1]);
    assert(wanted(found[n - 1]));
}

/// A page is in cursor order, holds only notes which were asked for, and stays within the row and
/// the byte limit.
pub proof fn law_page_is_ordered_and_bounded(database: DatabaseView, tags: Seq<u32>, sequence: int)
    requires
        database.wf(),
    ensures
        ({
            let page = fetch::page_from(database, tags, sequence);
            &&& page.notes.len() <= FETCH_NOTES_MAX_ROWS
            &&& db::total_size(page.notes) <= FETCH_NOTES_MAX_BYTES
            &&& all_in_order(page.notes)
            &&& forall|i: int|
                0 <= i < page.notes.len() ==> (#[trigger] page.notes[i]).seq > sequence
                    && tags.contains(page.notes[i].tag)
        }),
{
    let found = fetch::candidates(database.notes, tags, sequence);
    let wanted = fetch::is_wanted(tags, sequence);
    fetch::law_page_is_bounded_and_full(found);
    assert(all_in_order(database.notes));
    lemma_filter(database.notes, wanted);
    let page = fetch::page_from(database, tags, sequence);
    assert forall|i: int| 0 <= i < page.notes.len() implies (#[trigger] page.notes[i]).seq
        > sequence && tags.contains(page.notes[i].tag) by {
        assert(wanted(found[i]));
    }
    assert forall|i: int, j: int| 0 <= i < j < page.notes.len() implies in_order(
        #[trigger] page.notes[i],
        #[trigger] page.notes[j],
    ) by {
        assert(in_order(found[i], found[j]));
    }
}

// RETENTION
// ================================================================================================

/// The cutoff lies a whole number of days before the insertion, as far as times go back.
proof fn lemma_expired_by_the_day(now: i64, retention_days: u32, created_at: i64)
    ensures
        created_at < store::cutoff_of(now, retention_days) <==> created_at < now - retention_days
            * 86_400_000_000,
        store::cutoff_of(now, retention_days) <= now,
{
    assert(0 <= retention_days * 86_400_000_000 <= 0xffff_ffff * 86_400_000_000) by (nonlinear_arith)
        requires
            0 <= retention_days <= 0xffff_ffff,
    ;
}

/// A note which is not older than the retention period is still stored after another note was handed
/// in, whatever became of that one.
pub proof fn law_retained_note_outlives_an_insertion(
    database: DatabaseView,
    note: NewNoteView,
    now: i64,
    max_retained_bytes: u64,
    retention_days: u32,
    kept: StoredNoteView,
)
    requires
        database.notes.contains(kept),
        kept.created_at >= now - retention_days * 86_400_000_000,
    ensures
        store::stored_at(
            database,
            note,
            Ok(now),
            max_retained_bytes,
            retention_days,
        ).0.notes.contains(kept),
{
    let cutoff = store::cutoff_of(now, retention_days);
    lemma_expired_by_the_day(now, retention_days, kept.created_at);
    law_only_expired_notes_are_removed(database.notes, cutoff, CLEANUP_MAX_NOTES, kept);
    let (after, outcome) = store::stored_at(
        database,
        note,
        Ok(now),
        max_retained_bytes,
        retention_days,
    );
    if outcome == Ok::<StoreResult, StorageErrorView>(StoreResult::Inserted) {
        let rest = cleanup::kept_notes(database.notes, cutoff, CLEANUP_MAX_NOTES);
        let k = choose|k: int| 0 <= k < rest.len() && rest[k] == kept;
        assert(after.notes[k] == kept);
    }
}

/// Where no more notes have expired than the limit, cleanup keeps none of them.
pub proof fn law_cleanup_removes_a_few_at_once(
    notes: Seq<StoredNoteView>,
    cutoff: i64,
    limit: u32,
    note: StoredNoteView,
)
    requires
        notes.filter(|old_note: StoredNoteView| old_note.created_at < cutoff).len() <= limit,
        cleanup::kept_notes(notes, cutoff, limit).contains(note),
    ensures
        note.created_at >= cutoff,
{
    let keep = |old_note: StoredNoteView| !cleanup::is_removed(notes, cutoff, limit, old_note);
    let is_expired = |old_note: StoredNoteView| old_note.created_at < cutoff;
    lemma_filter(notes, keep);
    lemma_filter(notes, is_expired);
    let kept_all = notes.filter(keep);
    let j = choose|j: int| 0 <= j < kept_all.len() && kept_all[j] == note;
    assert(keep(kept_all[j]));
    if note.created_at < cutoff {
        let expired = cleanup::expired_ages(notes, cutoff);
        assert(total_ordering(cleanup::older_first()));
        expired.lemma_sort_by_ensures(cleanup::older_first());
        let sorted = expired.sort_by(cleanup::older_first());
        let age = Age { created_at: note.created_at as int, seq: note.seq as int };
        assert(notes.filter(is_expired).contains(note));
        let k = choose|k: int|
            0 <= k < notes.filter(is_expired).len() && notes.filter(is_expired)[k] == note;
        assert(expired[k] == age);
        broadcast use group_to_multiset_ensures;

        assert(expired.contains(age));
        assert(expired.to_multiset().count(age) > 0);
        assert(sorted.to_multiset().count(age) > 0);
        assert(sorted.contains(age));
        to_multiset_len(sorted);
        to_multiset_len(expired);
        assert(sorted.len() == expired.len());
    }
}

/// Where at most ten stored notes are older than the retention period, an insertion removes them all.
pub proof fn law_few_expired_notes_leave_with_an_insertion(
    database: DatabaseView,
    note: NewNoteView,
    now: i64,
    max_retained_bytes: u64,
    retention_days: u32,
    left: StoredNoteView,
)
    requires
        database.notes.filter(
            |old_note: StoredNoteView|
                old_note.created_at < now - retention_days * 86_400_000_000,
        ).len() <= 10,
        store::stored_at(database, note, Ok(now), max_retained_bytes, retention_days).1 == Ok::<
            StoreResult,
            StorageErrorView,
        >(StoreResult::Inserted),
        store::stored_at(
            database,
            note,
            Ok(now),
            max_retained_bytes,
            retention_days,
        ).0.notes.contains(left),
    ensures
        left.created_at >= now - retention_days * 86_400_000_000,
{
    let after = store::stored_at(database, note, Ok(now), max_retained_bytes, retention_days).0;
    let cutoff = store::cutoff_of(now, retention_days);
    let rest = cleanup::kept_notes(database.notes, cutoff, CLEANUP_MAX_NOTES);
    let by_day = |old_note: StoredNoteView|
        old_note.created_at < now - retention_days * 86_400_000_000;
    let by_cutoff = |old_note: StoredNoteView| old_note.created_at < cutoff;
    assert forall|old_note: StoredNoteView| #[trigger] by_day(old_note) == by_cutoff(old_note) by {
        lemma_expired_by_the_day(now, retention_days, old_note.created_at);
    }
    assert(by_day =~= by_cutoff);
    lemma_expired_by_the_day(now, retention_days, left.created_at);
    let k = choose|k: int| 0 <= k < after.notes.len() && after.notes[k] == left;
    if k < rest.len() {
        assert(rest[k] == left);
        law_cleanup_removes_a_few_at_once(database.notes, cutoff, CLEANUP_MAX_NOTES, left);
    } else {
        assert(left.created_at == now);
    }
}

/// The notes which a filter keeps and those it drops are together as many as all of them.
proof fn lemma_counts_add_up(notes: Seq<StoredNoteView>, keep: spec_fn(StoredNoteView) -> bool)
    ensures
        notes.filter(keep).len() + notes.filter(|note: StoredNoteView| !keep(note)).len()
            == notes.len(),
    decreases notes.len(),
{
    reveal(Seq::filter);
    if notes.len() > 0 {
        lemma_counts_add_up(notes.drop_last(), keep);
    }
}

/// Where more notes have expired than the limit, cleanup removes no fewer than the limit.
pub proof fn law_cleanup_reaches_its_limit(database: DatabaseView, cutoff: i64, limit: u32)
    requires
        database.wf(),
        database.notes.filter(|note: StoredNoteView| note.created_at < cutoff).len() > limit,
    ensures
        cleanup::removed_notes(database.notes, cutoff, limit).len() >= limit,
{
    let notes = database.notes;
    let drop = |note: StoredNoteView| cleanup::is_removed(notes, cutoff, limit, note);
    let is_expired = |note: StoredNoteView| note.created_at < cutoff;
    lemma_filter(notes, drop);
    lemma_filter(notes, is_expired);
    assert(all_in_order(notes));
    let expired_notes = notes.filter(is_expired);
    let expired = cleanup::expired_ages(notes, cutoff);
    assert(total_ordering(cleanup::older_first()));
    expired.lemma_sort_by_ensures(cleanup::older_first());
    let sorted = expired.sort_by(cleanup::older_first());
    to_multiset_len(sorted);
    to_multiset_len(expired);
    assert forall|i: int, j: int| 0 <= i < expired.len() && 0 <= j < expired.len() && i
        != j implies expired[i] != expired[j] by {
        if i < j {
            assert(in_order(expired_notes[i], expired_notes[j]));
        } else {
            assert(in_order(expired_notes[j], expired_notes[i]));
        }
    }
    assert(expired.no_duplicates());
    expired.lemma_multiset_has_no_duplicates();
    sorted.lemma_multiset_has_no_duplicates_conv();
    let chosen = cleanup::removed_ages(notes, cutoff, limit);
    assert(chosen.no_duplicates());
    chosen.unique_seq_to_set();
    let removed = notes.filter(drop);
    let ages = removed.map_values(
        |note: StoredNoteView| Age { created_at: note.created_at as int, seq: note.seq as int },
    );
    assert forall|age: Age| chosen.to_set().contains(age) implies ages.to_set().contains(age) by {
        let m = choose|m: int| 0 <= m < chosen.len() && chosen[m] == age;
        assert(sorted[m] == age);
        broadcast use group_to_multiset_ensures;

        assert(sorted.contains(age));
        assert(sorted.to_multiset().count(age) > 0);
        assert(expired.to_multiset().count(age) > 0);
        assert(expired.contains(age));
        let k = choose|k: int| 0 <= k < expired.len() && expired[k] == age;
        assert(notes.contains(expired_notes[k]));
        assert(drop(expired_notes[k]));
        assert(removed.contains(expired_notes[k]));
        let r = choose|r: int| 0 <= r < removed.len() && removed[r] == expired_notes[k];
        assert(ages[r] == age);
    }
    ages.lemma_cardinality_of_set();
    vstd::set_lib::lemma_len_subset(chosen.to_set(), ages.to_set());
}

/// An insertion removes at most ten notes, and exactly ten where a note which is older than the
/// retention period stays.
pub proof fn law_insertion_removes_up_to_ten_notes(
    database: DatabaseView,
    note: NewNoteView,
    now: i64,
    max_retained_bytes: u64,
    retention_days: u32,
    left: StoredNoteView,
)
    requires
        database.wf(),
        store::stored_at(database, note, Ok(now), max_retained_bytes, retention_days).1 == Ok::<
            StoreResult,
            StorageErrorView,
        >(StoreResult::Inserted),
    ensures
        ({
            let after = store::stored_at(
                database,
                note,
                Ok(now),
                max_retained_bytes,
                retention_days,
            ).0;
            &&& database.notes.len() - 9 <= after.notes.len() <= database.notes.len() + 1
            &&& after.notes.contains(left) && left.created_at < now - retention_days
                * 86_400_000_000 ==> after.notes.len() == database.notes.len() - 9
        }),
{
    let after = store::stored_at(database, note, Ok(now), max_retained_bytes, retention_days).0;
    let cutoff = store::cutoff_of(now, retention_days);
    let rest = cleanup::kept_notes(database.notes, cutoff, CLEANUP_MAX_NOTES);
    let keep = |old_note: StoredNoteView|
        !cleanup::is_removed(database.notes, cutoff, CLEANUP_MAX_NOTES, old_note);
    let drop = |old_note: StoredNoteView|
        cleanup::is_removed(database.notes, cutoff, CLEANUP_MAX_NOTES, old_note);
    lemma_counts_add_up(database.notes, drop);
    assert(keep =~= (|old_note: StoredNoteView| !drop(old_note)));
    law_cleanup_is_bounded(database, cutoff, CLEANUP_MAX_NOTES);
    lemma_expired_by_the_day(now, retention_days, left.created_at);
    if after.notes.contains(left) && left.created_at < now - retention_days * 86_400_000_000 {
        let k = choose|k: int| 0 <= k < after.notes.len() && after.notes[k] == left;
        assert(k < rest.len());
        assert(rest[k] == left);
        if database.notes.filter(|old_note: StoredNoteView| old_note.created_at < cutoff).len()
            <= CLEANUP_MAX_NOTES {
            law_cleanup_removes_a_few_at_once(database.notes, cutoff, CLEANUP_MAX_NOTES, left);
        } else {
            law_cleanup_reaches_its_limit(database, cutoff, CLEANUP_MAX_NOTES);
        }
    }
}

/// An insertion removes the oldest notes: a note which leaves is older than every one which is past
/// the retention period and stays. Equal times go by the cursors.
pub proof fn law_insertion_removes_the_oldest_notes(
    database: DatabaseView,
    note: NewNoteView,
    now: i64,
    max_retained_bytes: u64,
    retention_days: u32,
    gone: StoredNoteView,
    left: StoredNoteView,
)
    requires
        database.notes.contains(gone),
        !store::stored_at(
            database,
            note,
            Ok(now),
            max_retained_bytes,
            retention_days,
        ).0.notes.contains(gone),
        store::stored_at(
            database,
            note,
            Ok(now),
            max_retained_bytes,
            retention_days,
        ).0.notes.contains(left),
        left.created_at < now - retention_days * 86_400_000_000,
    ensures
        gone.created_at < left.created_at || (gone.created_at == left.created_at && gone.seq
            <= left.seq),
{
    let after = store::stored_at(database, note, Ok(now), max_retained_bytes, retention_days).0;
    let cutoff = store::cutoff_of(now, retention_days);
    let rest = cleanup::kept_notes(database.notes, cutoff, CLEANUP_MAX_NOTES);
    let keep = |old_note: StoredNoteView|
        !cleanup::is_removed(database.notes, cutoff, CLEANUP_MAX_NOTES, old_note);
    let drop = |old_note: StoredNoteView|
        cleanup::is_removed(database.notes, cutoff, CLEANUP_MAX_NOTES, old_note);
    lemma_expired_by_the_day(now, retention_days, left.created_at);
    lemma_filter(database.notes, keep);
    lemma_filter(database.notes, drop);
    let k = choose|k: int| 0 <= k < after.notes.len() && after.notes[k] == left;
    assert(k < rest.len());
    assert(rest[k] == left);
    if keep(gone) {
        assert(rest.contains(gone));
        let m = choose|m: int| 0 <= m < rest.len() && rest[m] == gone;
        assert(after.notes[m] == gone);
    }
    assert(drop(gone));
    law_cleanup_removes_the_oldest(database.notes, cutoff, CLEANUP_MAX_NOTES, gone, left);
}

// WHAT AN INSERTION WRITES
// ================================================================================================

/// The payload of a note is its header and its details, and some notes are together as large as each
/// of them.
pub proof fn law_sizes_count_headers_and_details(notes: Seq<StoredNoteView>, note: StoredNoteView)
    ensures
        db::total_size(Seq::empty()) == 0,
        db::total_size(notes.push(note)) == db::total_size(notes) + note.header.len()
            + note.details.len(),
{
    assert(notes.push(note).drop_last() =~= notes);
}

/// An inserted note is kept last, as it was handed in, with the time of the insertion and the next
/// cursor. Cursors are never used twice, the nonce stays, every other note was there before, and the
/// retained byte count follows the notes.
pub proof fn law_inserted_note_is_kept_as_handed_in(
    database: DatabaseView,
    note: NewNoteView,
    now: i64,
    max_retained_bytes: u64,
    retention_days: u32,
)
    requires
        store::stored_at(database, note, Ok(now), max_retained_bytes, retention_days).1 == Ok::<
            StoreResult,
            StorageErrorView,
        >(StoreResult::Inserted),
    ensures
        ({
            let after = store::stored_at(
                database,
                note,
                Ok(now),
                max_retained_bytes,
                retention_days,
            ).0;
            let added = after.notes.last();
            &&& after.notes.len() > 0
            &&& added.id == note.id
            &&& added.tag == note.tag
            &&& added.header == note.header
            &&& added.details == note.details
            &&& added.after_block_num == note.after_block_num
            &&& added.created_at == now
            &&& added.seq == database.metadata.next_cursor
            &&& after.metadata.next_cursor == database.metadata.next_cursor + 1
            &&& after.metadata.nonce == database.metadata.nonce
            &&& after.metadata.retained_bytes - db::total_size(after.notes)
                == database.metadata.retained_bytes - db::total_size(database.notes)
            &&& forall|i: int|
                0 <= i < after.notes.len() - 1 ==> database.notes.contains(
                    #[trigger] after.notes[i],
                )
        }),
{
    let after = store::stored_at(database, note, Ok(now), max_retained_bytes, retention_days).0;
    let cutoff = store::cutoff_of(now, retention_days);
    let drop = |old_note: StoredNoteView|
        cleanup::is_removed(database.notes, cutoff, CLEANUP_MAX_NOTES, old_note);
    let keep = |old_note: StoredNoteView|
        !cleanup::is_removed(database.notes, cutoff, CLEANUP_MAX_NOTES, old_note);
    assert(keep =~= (|old_note: StoredNoteView| !drop(old_note)));
    lemma_sizes_add_up(database.notes, drop);
    lemma_filter(database.notes, keep);
    let kept = cleanup::kept_notes(database.notes, cutoff, CLEANUP_MAX_NOTES);
    assert(after.notes.drop_last() =~= kept);
    assert forall|i: int| 0 <= i < after.notes.len() - 1 implies database.notes.contains(
        #[trigger] after.notes[i],
    ) by {
        assert(after.notes[i] == database.notes.filter(keep)[i]);
    }
}

/// A note is already present exactly when one with its ID is stored, and then nothing changes.
pub proof fn law_note_is_present_by_its_id(
    database: DatabaseView,
    note: NewNoteView,
    now: Result<i64, Seq<char>>,
    max_retained_bytes: u64,
    retention_days: u32,
)
    ensures
        ({
            let (after, outcome) = store::stored_at(
                database,
                note,
                now,
                max_retained_bytes,
                retention_days,
            );
            &&& outcome == Ok::<StoreResult, StorageErrorView>(StoreResult::AlreadyPresent) <==> (
            exists|i: int| 0 <= i < database.notes.len() && (#[trigger] database.notes[i]).id == note.id)
            &&& outcome == Ok::<StoreResult, StorageErrorView>(StoreResult::AlreadyPresent)
                ==> after == database
        }),
{
}

/// A note which is not stored yet is refused, in this order, when it is larger than 3 MiB, when the
/// cursors are used up, and when the clock fails.
pub proof fn law_unfit_note_is_refused(
    database: DatabaseView,
    note: NewNoteView,
    now: Result<i64, Seq<char>>,
    max_retained_bytes: u64,
    retention_days: u32,
)
    requires
        forall|i: int| 0 <= i < database.notes.len() ==> (#[trigger] database.notes[i]).id != note.id,
    ensures
        ({
            let outcome = store::stored_at(
                database,
                note,
                now,
                max_retained_bytes,
                retention_days,
            ).1;
            let size = note.header.len() + note.details.len();
            &&& size > 3_145_728 ==> outcome == Err::<StoreResult, StorageErrorView>(
                StorageErrorView::Capacity("note exceeds the 3145728 byte fetch limit"@),
            )
            &&& size <= 3_145_728 && database.metadata.next_cursor == 0x7fff_ffff_ffff_ffff
                ==> outcome == Err::<StoreResult, StorageErrorView>(
                StorageErrorView::Capacity("cursor exhausted"@),
            )
            &&& size <= 3_145_728 && database.metadata.next_cursor < 0x7fff_ffff_ffff_ffff ==> (
            now matches Err(message) ==> outcome == Err::<StoreResult, StorageErrorView>(
                StorageErrorView::InvalidData(message),
            ))
        }),
{
}

/// A new note of at most 3 MiB for which there is room, beside everything that is stored, is
/// inserted.
pub proof fn law_note_with_room_is_inserted(
    database: DatabaseView,
    note: NewNoteView,
    now: i64,
    max_retained_bytes: u64,
    retention_days: u32,
)
    requires
        forall|i: int| 0 <= i < database.notes.len() ==> (#[trigger] database.notes[i]).id != note.id,
        note.header.len() + note.details.len() <= 3_145_728,
        database.metadata.next_cursor < 0x7fff_ffff_ffff_ffff,
        database.metadata.retained_bytes == db::total_size(database.notes),
        database.metadata.retained_bytes + note.header.len() + note.details.len()
            <= max_retained_bytes,
        database.metadata.retained_bytes + note.header.len() + note.details.len()
            <= 0x7fff_ffff_ffff_ffff,
    ensures
        store::stored_at(database, note, Ok(now), max_retained_bytes, retention_days).1 == Ok::<
            StoreResult,
            StorageErrorView,
        >(StoreResult::Inserted),
{
    let cutoff = store::cutoff_of(now, retention_days);
    let drop = |old_note: StoredNoteView|
        cleanup::is_removed(database.notes, cutoff, CLEANUP_MAX_NOTES, old_note);
    lemma_sizes_add_up(database.notes, drop);
}

/// Whether a note is refused for the configured limit depends on what would be retained once the
/// expired notes are gone: it is accepted, with the same effect, under every limit which that stays
/// within, and under every other limit it is refused with that limit.
pub proof fn law_limit_applies_to_what_is_left(
    database: DatabaseView,
    note: NewNoteView,
    now: i64,
    max_retained_bytes: u64,
    other_limit: u64,
    retention_days: u32,
)
    requires
        store::stored_at(database, note, Ok(now), other_limit, retention_days).1 == Ok::<
            StoreResult,
            StorageErrorView,
        >(StoreResult::Inserted),
    ensures
        ({
            let (roomy, _) = store::stored_at(database, note, Ok(now), other_limit, retention_days);
            let (after, outcome) = store::stored_at(
                database,
                note,
                Ok(now),
                max_retained_bytes,
                retention_days,
            );
            if roomy.metadata.retained_bytes <= max_retained_bytes {
                after == roomy && outcome == Ok::<StoreResult, StorageErrorView>(
                    StoreResult::Inserted,
                )
            } else {
                after == database && outcome == Err::<StoreResult, StorageErrorView>(
                    StorageErrorView::Capacity(
                        "accepting this note would exceed the "@ + text::decimal(
                            max_retained_bytes as nat,
                        ) + " byte limit"@,
                    ),
                )
            }
        }),
{
}

/// Where nothing has expired, a note is refused when the retained byte count does not hold it, or
/// holds less than nothing.
pub proof fn law_retained_byte_count_stays_in_its_range(
    database: DatabaseView,
    note: NewNoteView,
    now: i64,
    max_retained_bytes: u64,
    retention_days: u32,
)
    requires
        forall|i: int| 0 <= i < database.notes.len() ==> (#[trigger] database.notes[i]).id != note.id,
        forall|i: int|
            0 <= i < database.notes.len() ==> (#[trigger] database.notes[i]).created_at >= now
                - retention_days * 86_400_000_000,
        note.header.len() + note.details.len() <= 3_145_728,
        database.metadata.next_cursor < 0x7fff_ffff_ffff_ffff,
    ensures
        ({
            let outcome = store::stored_at(
                database,
                note,
                Ok(now),
                max_retained_bytes,
                retention_days,
            ).1;
            let retained = database.metadata.retained_bytes + note.header.len()
                + note.details.len();
            &&& retained > 0x7fff_ffff_ffff_ffff ==> outcome == Err::<
                StoreResult,
                StorageErrorView,
            >(StorageErrorView::Capacity("retained byte count overflow"@))
            &&& retained < 0 ==> outcome == Err::<StoreResult, StorageErrorView>(
                StorageErrorView::InvalidData("retained byte count underflow"@),
            )
        }),
{
    let cutoff = store::cutoff_of(now, retention_days);
    let drop = |old_note: StoredNoteView|
        cleanup::is_removed(database.notes, cutoff, CLEANUP_MAX_NOTES, old_note);
    lemma_filter(database.notes, drop);
    lemma_removed_ages_are_expired(database.notes, cutoff, CLEANUP_MAX_NOTES);
    let removed = database.notes.filter(drop);
    if removed.len() > 0 {
        assert(database.notes.contains(removed[0]) && drop(removed[0]));
        let k = choose|k: int| 0 <= k < database.notes.len() && database.notes[k] == removed[0];
        lemma_expired_by_the_day(now, retention_days, database.notes[k].created_at);
    }
}

/// What cleanup removes is named from the oldest on, by ascending times and, among equal ones, by
/// ascending cursors.
pub proof fn law_removed_notes_are_named_in_order(
    notes: Seq<StoredNoteView>,
    cutoff: i64,
    limit: u32,
    i: int,
    j: int,
)
    requires
        0 <= i < j < cleanup::removed_ages(notes, cutoff, limit).len(),
    ensures
        ({
            let first = cleanup::removed_ages(notes, cutoff, limit)[i];
            let second = cleanup::removed_ages(notes, cutoff, limit)[j];
            first.created_at < second.created_at || (first.created_at == second.created_at
                && first.seq <= second.seq)
        }),
{
    let expired = cleanup::expired_ages(notes, cutoff);
    assert(total_ordering(cleanup::older_first()));
    expired.lemma_sort_by_ensures(cleanup::older_first());
    let sorted = expired.sort_by(cleanup::older_first());
    assert(cleanup::older_first()(sorted[i], sorted[j]));
}

/// Every note is either removed or kept, and what a deletion returns is by how much the notes shrink.
pub proof fn law_deletion_returns_what_it_frees(
    notes: Seq<StoredNoteView>,
    cutoff: i64,
    limit: u32,
)
    ensures
        ({
            let kept = cleanup::kept_notes(notes, cutoff, limit);
            let freed = db::total_size(notes) - db::total_size(kept);
            &&& kept.len() + cleanup::removed_notes(notes, cutoff, limit).len() == notes.len()
            &&& freed >= 0
            &&& freed <= 0x7fff_ffff_ffff_ffff ==> queries::removed_bytes(notes, cutoff, limit)
                == Ok::<i64, StorageErrorView>(freed as i64)
            &&& freed > 0x7fff_ffff_ffff_ffff ==> queries::removed_bytes(notes, cutoff, limit)
                == Err::<i64, StorageErrorView>(
                StorageErrorView::InvalidData("removed byte count overflow"@),
            )
        }),
{
    let drop = |note: StoredNoteView| cleanup::is_removed(notes, cutoff, limit, note);
    let keep = |note: StoredNoteView| !cleanup::is_removed(notes, cutoff, limit, note);
    assert(keep =~= (|note: StoredNoteView| !drop(note)));
    lemma_sizes_add_up(notes, drop);
    lemma_counts_add_up(notes, drop);
}

} // verus!
