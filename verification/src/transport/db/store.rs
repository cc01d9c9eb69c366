//! Storing a note.

use vstd::prelude::*;

use crate::clock;
use crate::text;
use crate::transport::db;
use crate::transport::db::cleanup;
use crate::transport::db::laws;
use crate::transport::db::queries;
use crate::transport::db::Database;
use crate::transport::db::DatabaseView;
use crate::transport::db::NewNote;
use crate::transport::db::NewNoteView;
use crate::transport::db::StorageError;
use crate::transport::db::StorageErrorView;
use crate::transport::db::StorageMetadata;
use crate::transport::db::StoreResult;
use crate::transport::db::StoredNote;
use crate::transport::db::StoredNoteView;
use crate::transport::db::CLEANUP_MAX_NOTES;
use crate::transport::db::FETCH_NOTES_MAX_BYTES;

verus! {

/// The microseconds of one day.
pub const DAY_MICROS: i64 = 86_400_000_000;

// MODEL
// ================================================================================================

/// The time before which a note has expired, or the earliest time there is.
pub open spec fn cutoff_of(now: i64, retention_days: u32) -> i64 {
    let cutoff = now - retention_days * DAY_MICROS;
    if cutoff < i64::MIN {
        i64::MIN
    } else {
        cutoff as i64
    }
}

/// The clock, as a time or as the text of its failure.
pub open spec fn clock_reading(now: Result<i64, String>) -> Result<i64, Seq<char>> {
    match now {
        Ok(now) => Ok(now),
        Err(message) => Err(message@),
    }
}

/// The retained byte count after the note was added and expired notes were removed.
pub open spec fn retained_after(
    database: DatabaseView,
    note: NewNoteView,
    now: i64,
    retention_days: u32,
) -> int {
    let removed = cleanup::removed_notes(
        database.notes,
        cutoff_of(now, retention_days),
        CLEANUP_MAX_NOTES,
    );
    database.metadata.retained_bytes + note.size() - db::total_size(removed)
}

/// The text which refuses a note for want of room.
pub open spec fn over_limit_text(max_retained_bytes: u64) -> Seq<char> {
    "accepting this note would exceed the "@ + text::decimal(max_retained_bytes as nat)
        + " byte limit"@
}

/// Why a note which is not stored yet is refused, `None` when it is accepted.
pub open spec fn refusal(
    database: DatabaseView,
    note: NewNoteView,
    now: Result<i64, Seq<char>>,
    max_retained_bytes: u64,
    retention_days: u32,
) -> Option<StorageErrorView> {
    if note.size() > FETCH_NOTES_MAX_BYTES {
        Some(StorageErrorView::Capacity("note exceeds the 3145728 byte fetch limit"@))
    } else if database.metadata.next_cursor == i64::MAX {
        Some(StorageErrorView::Capacity("cursor exhausted"@))
    } else {
        match now {
            Err(message) => Some(StorageErrorView::InvalidData(message)),
            Ok(now) => {
                let retained = retained_after(database, note, now, retention_days);
                match queries::removed_bytes(
                    database.notes,
                    cutoff_of(now, retention_days),
                    CLEANUP_MAX_NOTES,
                ) {
                    Err(error) => Some(error),
                    Ok(_) => if retained < 0 {
                        Some(StorageErrorView::InvalidData("retained byte count underflow"@))
                    } else if retained > i64::MAX {
                        Some(StorageErrorView::Capacity("retained byte count overflow"@))
                    } else if retained > max_retained_bytes {
                        Some(StorageErrorView::Capacity(over_limit_text(max_retained_bytes)))
                    } else {
                        None
                    },
                }
            },
        }
    }
}

/// The database after an accepted note was added and up to ten expired notes were removed.
pub open spec fn with_note(
    database: DatabaseView,
    note: NewNoteView,
    now: i64,
    retention_days: u32,
) -> DatabaseView {
    DatabaseView {
        metadata: StorageMetadata {
            next_cursor: (database.metadata.next_cursor + 1) as i64,
            retained_bytes: retained_after(database, note, now, retention_days) as i64,
            nonce: database.metadata.nonce,
        },
        notes: cleanup::kept_notes(
            database.notes,
            cutoff_of(now, retention_days),
            CLEANUP_MAX_NOTES,
        ).push(note.stored(database.metadata.next_cursor, now)),
    }
}

/// The database after a note was handed in, and what became of the note.
pub open spec fn stored_at(
    database: DatabaseView,
    note: NewNoteView,
    now: Result<i64, Seq<char>>,
    max_retained_bytes: u64,
    retention_days: u32,
) -> (DatabaseView, Result<StoreResult, StorageErrorView>) {
    if database.contains_id(note.id) {
        (database, Ok(StoreResult::AlreadyPresent))
    } else {
        match refusal(database, note, now, max_retained_bytes, retention_days) {
            Some(error) => (database, Err(error)),
            None => (
                with_note(database, note, now->Ok_0, retention_days),
                Ok(StoreResult::Inserted),
            ),
        }
    }
}

// STORING
// ================================================================================================

/// What storing a note changes. It is decided before anything changes, so that a caller can make
/// the change durable first.
#[derive(Debug)]
pub enum StorePlan {
    /// The note is already stored, and nothing changes.
    AlreadyPresent,
    /// The note is added, and expired notes are removed.
    Insert(Insertion),
}

/// What an insertion changes.
#[derive(Debug)]
pub struct Insertion {
    /// The note, with its cursor and timestamp.
    pub note: StoredNote,
    /// The timestamp and the cursor of each expired note to remove.
    pub removed: Vec<(i64, i64)>,
    /// The counters once the insertion is done.
    pub metadata: StorageMetadata,
}

impl StorePlan {
    /// The database after the plan was carried out.
    pub open spec fn applied(self, database: DatabaseView) -> DatabaseView {
        match self {
            StorePlan::AlreadyPresent => database,
            StorePlan::Insert(insertion) => DatabaseView {
                metadata: insertion.metadata,
                notes: database.notes.filter(
                    |note: StoredNoteView| !cleanup::has_key(insertion.removed@, note),
                ).push(insertion.note@),
            },
        }
    }

    /// What becomes of the note.
    pub open spec fn result(self) -> StoreResult {
        match self {
            StorePlan::AlreadyPresent => StoreResult::AlreadyPresent,
            StorePlan::Insert(_) => StoreResult::Inserted,
        }
    }
}

fn cutoff(now: i64, retention_days: u32) -> (cutoff: i64)
    ensures
        cutoff == cutoff_of(now, retention_days),
{
    assert(0 <= retention_days * DAY_MICROS <= 0xffff_ffff * DAY_MICROS) by (nonlinear_arith)
        requires
            0 <= retention_days <= 0xffff_ffff,
            DAY_MICROS == 86_400_000_000,
    ;
    let cutoff: i128 = now as i128 - retention_days as i128 * DAY_MICROS as i128;
    if cutoff < i64::MIN as i128 {
        i64::MIN
    } else {
        cutoff as i64
    }
}

/// Decides what storing a validated note changes: the note is added and up to ten expired notes are
/// removed. A retry preserves the first record for the note ID and does not remove expired notes.
pub fn plan_store(
    database: &Database,
    note: NewNote,
    now: Result<i64, String>,
    max_retained_bytes: u64,
    retention_days: u32,
) -> (plan: Result<StorePlan, StorageError>)
    requires
        database@.wf(),
    ensures
        ({
            let expected = stored_at(
                database@,
                note@,
                clock_reading(now),
                max_retained_bytes,
                retention_days,
            );
            match plan {
                Ok(plan) => expected == (
                    plan.applied(database@),
                    Ok::<StoreResult, StorageErrorView>(plan.result()),
                ),
                Err(error) => expected == (
                    database@,
                    Err::<StoreResult, StorageErrorView>(error@),
                ),
            }
        }),
        plan matches Ok(plan) ==> plan.applied(database@).wf(),
{
    proof {
        laws::law_store_keeps_the_schema(
            database@,
            note@,
            clock_reading(now),
            max_retained_bytes,
            retention_days,
        );
    }
    if queries::note_exists(database, note.id) {
        return Ok(StorePlan::AlreadyPresent);
    }
    let metadata = database.metadata();
    if note.header.len() > FETCH_NOTES_MAX_BYTES || note.details.len() > FETCH_NOTES_MAX_BYTES
        - note.header.len() {
        return Err(
            StorageError::Capacity("note exceeds the 3145728 byte fetch limit".to_owned()),
        );
    }
    let note_bytes: usize = note.header.len() + note.details.len();
    if metadata.next_cursor == i64::MAX {
        return Err(StorageError::Capacity("cursor exhausted".to_owned()));
    }
    let now: i64 = match now {
        Ok(now) => now,
        Err(message) => {
            return Err(StorageError::InvalidData(message));
        },
    };
    let before: i64 = cutoff(now, retention_days);
    match queries::find_removed(database, before, CLEANUP_MAX_NOTES) {
        Err(error) => Err(error),
        Ok((removed, removed_bytes)) => {
            // Apply capacity to the state that will be committed, including reclaimed space.
            let next_retained: i128 = metadata.retained_bytes as i128 + note_bytes as i128
                - removed_bytes as i128;
            if next_retained < 0 {
                return Err(StorageError::InvalidData("retained byte count underflow".to_owned()));
            }
            if next_retained > i64::MAX as i128 {
                return Err(StorageError::Capacity("retained byte count overflow".to_owned()));
            }
            if next_retained > max_retained_bytes as i128 {
                return Err(StorageError::Capacity(over_limit(max_retained_bytes)));
            }
            Ok(
                StorePlan::Insert(
                    Insertion {
                        note: StoredNote {
                            id: note.id,
                            tag: note.tag,
                            header: note.header,
                            details: note.details,
                            created_at: now,
                            seq: metadata.next_cursor,
                            after_block_num: note.after_block_num,
                        },
                        removed,
                        metadata: StorageMetadata {
                            next_cursor: metadata.next_cursor + 1,
                            retained_bytes: next_retained as i64,
                            nonce: metadata.nonce,
                        },
                    },
                ),
            )
        },
    }
}

fn over_limit(max_retained_bytes: u64) -> (message: String)
    ensures
        message@ == over_limit_text(max_retained_bytes),
{
    let mut message = "accepting this note would exceed the ".to_owned();
    message.append(text::to_decimal(max_retained_bytes).as_str());
    message.append(" byte limit");
    message
}

/// Carries out a plan.
pub fn commit(database: &mut Database, plan: StorePlan) -> (result: StoreResult)
    ensures
        final(database)@ == plan.applied(old(database)@),
        result == plan.result(),
{
    match plan {
        StorePlan::AlreadyPresent => StoreResult::AlreadyPresent,
        StorePlan::Insert(insertion) => {
            database.remove_notes(&insertion.removed);
            database.push_note(insertion.note);
            database.set_metadata(insertion.metadata);
            StoreResult::Inserted
        },
    }
}

/// Stores a validated note at the given time and removes up to ten expired notes. A retry preserves
/// the first record for the note ID and does not remove expired notes.
pub fn store_note_at(
    database: &mut Database,
    note: NewNote,
    now: Result<i64, String>,
    max_retained_bytes: u64,
    retention_days: u32,
) -> (result: Result<StoreResult, StorageError>)
    requires
        old(database)@.wf(),
    ensures
        (final(database)@, db::outcome(result)) == stored_at(
            old(database)@,
            note@,
            clock_reading(now),
            max_retained_bytes,
            retention_days,
        ),
        final(database)@.wf(),
{
    match plan_store(database, note, now, max_retained_bytes, retention_days) {
        Ok(plan) => Ok(commit(database, plan)),
        Err(error) => Err(error),
    }
}

/// Stores a validated note and removes up to ten expired notes. A retry preserves the first record
/// for the note ID and does not remove expired notes.
pub fn store_note(
    database: &mut Database,
    note: NewNote,
    max_retained_bytes: u64,
    retention_days: u32,
) -> (result: Result<StoreResult, StorageError>)
    requires
        old(database)@.wf(),
    ensures
        exists|now: Result<i64, Seq<char>>|
            (now matches Ok(time) ==> time >= 0) && (final(database)@, db::outcome(result))
                == #[trigger] stored_at(
                old(database)@,
                note@,
                now,
                max_retained_bytes,
                retention_days,
            ),
        final(database)@.wf(),
{
    let now = clock::now_micros();
    store_note_at(database, note, now, max_retained_bytes, retention_days)
}

// LAWS OF A PLAN
// ================================================================================================

/// Storing goes by the time which the clock shows, and by the text of its failure.
pub proof fn law_clock_is_read_as_it_stands(now: i64, failure: String)
    ensures
        clock_reading(Ok(now)) == Ok::<i64, Seq<char>>(now),
        clock_reading(Err(failure)) == Err::<i64, Seq<char>>(failure@),
{
}

/// A plan for a note which is present changes nothing. One which inserts adds its note behind all
/// others, sets the counters, and keeps exactly the notes whose time and cursor it does not name.
pub proof fn law_plan_changes_what_it_names(
    database: DatabaseView,
    insertion: Insertion,
    kept: StoredNoteView,
)
    ensures
        StorePlan::AlreadyPresent.applied(database) == database,
        StorePlan::AlreadyPresent.result() == StoreResult::AlreadyPresent,
        StorePlan::Insert(insertion).result() == StoreResult::Inserted,
        ({
            let after = StorePlan::Insert(insertion).applied(database);
            &&& after.metadata == insertion.metadata
            &&& after.notes.len() > 0
            &&& after.notes.last() == insertion.note@
            &&& after.notes.drop_last().contains(kept) <==> database.notes.contains(kept)
                && !exists|i: int|
                0 <= i < insertion.removed@.len() && #[trigger] insertion.removed@[i] == (
                    kept.created_at,
                    kept.seq,
                )
        }),
{
    let after = StorePlan::Insert(insertion).applied(database);
    let keep = |note: StoredNoteView| !cleanup::has_key(insertion.removed@, note);
    laws::lemma_filter(database.notes, keep);
    assert(after.notes.drop_last() =~= database.notes.filter(keep));
    let rest = database.notes.filter(keep);
    cleanup::law_key_is_time_and_cursor(insertion.removed@, kept);
    if rest.contains(kept) {
        let i = choose|i: int| 0 <= i < rest.len() && rest[i] == kept;
        assert(database.notes.contains(rest[i]) && keep(rest[i]));
    }
}

} // verus!
