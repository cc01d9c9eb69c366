//! Typed note transport database queries.

use vstd::bytes::*;
use vstd::prelude::*;

use crate::chain::Word;
use crate::transport::db;
use crate::transport::db::cleanup;
use crate::transport::db::Database;
use crate::transport::db::DatabaseView;
use crate::transport::db::NewNote;
use crate::transport::db::StorageError;
use crate::transport::db::StorageErrorView;
use crate::transport::db::StorageMetadata;
use crate::transport::db::StoredNote;
use crate::transport::db::StoredNoteView;

verus! {

// METADATA ROWS
// ================================================================================================

/// The row which holds the counters and the nonce.
#[derive(Debug)]
pub struct MetadataRow {
    pub next_cursor: i64,
    pub retained_bytes: i64,
    /// The nonce in little-endian byte order.
    pub nonce: Vec<u8>,
}

/// What a metadata row holds, if there is one.
pub open spec fn metadata_of_row(row: Option<MetadataRow>) -> Result<
    StorageMetadata,
    StorageErrorView,
> {
    match row {
        None => Err(StorageErrorView::InvalidData("storage metadata is missing"@)),
        Some(row) => if row.nonce@.len() != 8 {
            Err(StorageErrorView::InvalidData("invalid database nonce length"@))
        } else {
            Ok(
                StorageMetadata {
                    next_cursor: row.next_cursor,
                    retained_bytes: row.retained_bytes,
                    nonce: spec_u64_from_le_bytes(row.nonce@),
                },
            )
        },
    }
}

/// Reads the durable cursor counter, retained payload size, and database nonce.
pub fn select_storage_metadata(row: Option<MetadataRow>) -> (metadata: Result<
    StorageMetadata,
    StorageError,
>)
    ensures
        db::outcome(metadata) == metadata_of_row(row),
{
    match row {
        None => Err(StorageError::InvalidData("storage metadata is missing".to_owned())),
        Some(row) => {
            if row.nonce.len() != 8 {
                return Err(StorageError::InvalidData("invalid database nonce length".to_owned()));
            }
            let nonce: u64 = u64_from_le_bytes(row.nonce.as_slice());
            Ok(
                StorageMetadata {
                    next_cursor: row.next_cursor,
                    retained_bytes: row.retained_bytes,
                    nonce,
                },
            )
        },
    }
}

/// Reads the retained payload size.
pub fn select_retained_bytes(row: Option<i64>) -> (retained: Result<i64, StorageError>)
    ensures
        db::outcome(retained) == (match row {
            Some(retained) => Ok::<i64, StorageErrorView>(retained),
            None => Err(StorageErrorView::InvalidData("storage metadata is missing"@)),
        }),
{
    match row {
        Some(retained) => Ok(retained),
        None => Err(StorageError::InvalidData("storage metadata is missing".to_owned())),
    }
}

/// Assigns a database nonce without changing the counters.
pub fn assign_nonce(next_cursor: i64, retained_bytes: i64, nonce: u64) -> (row: MetadataRow)
    ensures
        row.next_cursor == next_cursor,
        row.retained_bytes == retained_bytes,
        row.nonce@ == spec_u64_to_le_bytes(nonce),
{
    MetadataRow { next_cursor, retained_bytes, nonce: u64_to_le_bytes(nonce) }
}

/// Assigns a random database nonce without changing the counters.
pub fn migrate_cursor_nonce(next_cursor: i64, retained_bytes: i64) -> (row: MetadataRow)
    ensures
        row.next_cursor == next_cursor,
        row.retained_bytes == retained_bytes,
        exists|nonce: u64| row.nonce@ == #[trigger] spec_u64_to_le_bytes(nonce),
{
    assign_nonce(next_cursor, retained_bytes, random_nonce())
}

/// Draws a database nonce at random.
///
/// Calls `rand::random`. The contract claims nothing of the nonce.
#[verifier::external_body]
pub(crate) fn random_nonce() -> (nonce: u64)
{
    rand::random::<u64>()
}

/// A nonce reads back as it was assigned, and so do the counters.
pub proof fn law_assigned_nonce_reads_back(row: MetadataRow, nonce: u64)
    requires
        row.nonce@ == spec_u64_to_le_bytes(nonce),
    ensures
        metadata_of_row(Some(row)) == Ok::<StorageMetadata, StorageErrorView>(
            StorageMetadata {
                next_cursor: row.next_cursor,
                retained_bytes: row.retained_bytes,
                nonce,
            },
        ),
{
    lemma_auto_spec_u64_to_from_le_bytes();
}

/// A metadata row is read as it stands exactly when its nonce has eight bytes. A missing row and
/// another nonce are refused.
pub proof fn law_metadata_is_read_as_it_stands(row: MetadataRow)
    ensures
        metadata_of_row(Some(row)) is Ok <==> row.nonce@.len() == 8,
        metadata_of_row(Some(row)) matches Ok(metadata) ==> {
            &&& metadata.next_cursor == row.next_cursor
            &&& metadata.retained_bytes == row.retained_bytes
            &&& spec_u64_to_le_bytes(metadata.nonce) == row.nonce@
        },
        metadata_of_row(Some(row)) matches Err(error) ==> error == StorageErrorView::InvalidData(
            "invalid database nonce length"@,
        ),
        metadata_of_row(None) == Err::<StorageMetadata, StorageErrorView>(
            StorageErrorView::InvalidData("storage metadata is missing"@),
        ),
{
    lemma_auto_spec_u64_to_from_le_bytes();
}

// NOTES
// ================================================================================================

/// Returns whether the note ID is already stored.
pub fn note_exists(database: &Database, id: Word) -> (exists_: bool)
    ensures
        exists_ == database@.contains_id(id),
{
    let notes = database.notes();
    let ghost all = database@.notes;
    let mut i: usize = 0;
    while i < notes.len()
        invariant
            all == database@.notes,
            db::views(notes@) == all,
            i <= notes@.len(),
            forall|k: int| 0 <= k < i ==> (#[trigger] all[k]).id != id,
        decreases notes@.len() - i,
    {
        assert(all[i as int] == notes@[i as int]@);
        if notes[i].id == id {
            return true;
        }
        i = i + 1;
    }
    false
}

/// Inserts a note with the assigned cursor and timestamp.
pub fn insert_note(database: &mut Database, note: NewNote, seq: i64, created_at: i64)
    ensures
        final(database)@ == (DatabaseView {
            notes: old(database)@.notes.push(note@.stored(seq, created_at)),
            ..old(database)@
        }),
{
    database.push_note(
        StoredNote {
            id: note.id,
            tag: note.tag,
            header: note.header,
            details: note.details,
            created_at,
            seq,
            after_block_num: note.after_block_num,
        },
    );
}

/// Updates the cursor counter and retained payload size.
pub fn update_storage_metadata(database: &mut Database, next_cursor: i64, retained_bytes: i64)
    ensures
        final(database)@ == (DatabaseView {
            metadata: StorageMetadata {
                next_cursor,
                retained_bytes,
                nonce: old(database)@.metadata.nonce,
            },
            ..old(database)@
        }),
{
    let nonce: u64 = database.metadata().nonce;
    database.set_metadata(StorageMetadata { next_cursor, retained_bytes, nonce });
}

/// What a deletion of expired notes returns: their total payload size.
pub open spec fn removed_bytes(notes: Seq<StoredNoteView>, cutoff: i64, limit: u32) -> Result<
    i64,
    StorageErrorView,
> {
    let size = db::total_size(cleanup::removed_notes(notes, cutoff, limit));
    if size <= i64::MAX {
        Ok(size as i64)
    } else {
        Err(StorageErrorView::InvalidData("removed byte count overflow"@))
    }
}

/// Deletes up to `limit` notes created before `cutoff` and returns their total payload size. The
/// oldest timestamps are selected first. The cursor orders equal timestamps.
pub fn delete_notes_created_before(database: &mut Database, cutoff: i64, limit: u32) -> (removed:
    Result<i64, StorageError>)
    ensures
        db::outcome(removed) == removed_bytes(old(database)@.notes, cutoff, limit),
        final(database)@ == (if removed is Ok {
            DatabaseView {
                notes: cleanup::kept_notes(old(database)@.notes, cutoff, limit),
                ..old(database)@
            }
        } else {
            old(database)@
        }),
{
    let expired = find_removed(database, cutoff, limit);
    match expired {
        Ok((keys, size)) => {
            database.remove_notes(&keys);
            Ok(size)
        },
        Err(error) => Err(error),
    }
}

/// Finds up to `limit` notes created before `cutoff`, the oldest first, and their total payload
/// size.
pub fn find_removed(database: &Database, cutoff: i64, limit: u32) -> (found: Result<
    (Vec<(i64, i64)>, i64),
    StorageError,
>)
    ensures
        match found {
            Ok((keys, size)) => {
                &&& removed_bytes(database@.notes, cutoff, limit) == Ok::<i64, StorageErrorView>(
                    size,
                )
                &&& cleanup::ages(keys@) == cleanup::removed_ages(database@.notes, cutoff, limit)
                &&& cleanup::kept_notes(database@.notes, cutoff, limit) == database@.notes.filter(
                    |note: StoredNoteView| !cleanup::has_key(keys@, note),
                )
            },
            Err(error) => removed_bytes(database@.notes, cutoff, limit) == Err::<
                i64,
                StorageErrorView,
            >(error@),
        },
{
    let keys = cleanup::find_expired(database.notes(), cutoff, limit);
    proof {
        let notes = database@.notes;
        let by_key = |note: StoredNoteView| cleanup::has_key(keys@, note);
        let by_age = |note: StoredNoteView| cleanup::is_removed(notes, cutoff, limit, note);
        assert(by_key =~= by_age);
        let not_by_key = |note: StoredNoteView| !cleanup::has_key(keys@, note);
        let not_by_age = |note: StoredNoteView| !cleanup::is_removed(notes, cutoff, limit, note);
        assert(not_by_key =~= not_by_age);
    }
    match cleanup::size_of_keys(database.notes(), &keys) {
        Some(size) => Ok((keys, size)),
        None => Err(StorageError::InvalidData("removed byte count overflow".to_owned())),
    }
}

} // verus!
