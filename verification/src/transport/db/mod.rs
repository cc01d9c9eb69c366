//! Note storage.

use vstd::prelude::*;

use crate::chain::Word;

pub mod cleanup;
pub mod fetch;
pub mod laws;
pub mod queries;
pub mod store;

verus! {

/// The largest number of payload bytes one page holds, `3 * 1024 * 1024`.
pub const FETCH_NOTES_MAX_BYTES: usize = 3145728;

/// The largest number of notes one page holds.
pub const FETCH_NOTES_MAX_ROWS: usize = 500;

/// The largest number of expired notes one insertion removes.
pub const CLEANUP_MAX_NOTES: u32 = 10;

// NOTES
// ================================================================================================

/// A validated note to insert. Storage assigns its timestamp and cursor.
#[derive(Debug)]
pub struct NewNote {
    pub id: Word,
    pub tag: u32,
    /// The serialized header.
    pub header: Vec<u8>,
    /// The serialized details.
    pub details: Vec<u8>,
    pub after_block_num: Option<u32>,
}

/// A note to insert.
pub struct NewNoteView {
    pub id: Word,
    pub tag: u32,
    pub header: Seq<u8>,
    pub details: Seq<u8>,
    pub after_block_num: Option<u32>,
}

impl View for NewNote {
    type V = NewNoteView;

    open spec fn view(&self) -> NewNoteView {
        NewNoteView {
            id: self.id,
            tag: self.tag,
            header: self.header@,
            details: self.details@,
            after_block_num: self.after_block_num,
        }
    }
}

/// A persisted note with its storage timestamp and cursor.
#[derive(Debug)]
pub struct StoredNote {
    pub id: Word,
    pub tag: u32,
    /// The serialized header.
    pub header: Vec<u8>,
    /// The serialized details.
    pub details: Vec<u8>,
    /// Microseconds since the Unix epoch, assigned when storage accepts the note.
    pub created_at: i64,
    pub seq: i64,
    pub after_block_num: Option<u32>,
}

/// A persisted note.
pub struct StoredNoteView {
    pub id: Word,
    pub tag: u32,
    pub header: Seq<u8>,
    pub details: Seq<u8>,
    pub created_at: i64,
    pub seq: i64,
    pub after_block_num: Option<u32>,
}

impl View for StoredNote {
    type V = StoredNoteView;

    open spec fn view(&self) -> StoredNoteView {
        StoredNoteView {
            id: self.id,
            tag: self.tag,
            header: self.header@,
            details: self.details@,
            created_at: self.created_at,
            seq: self.seq,
            after_block_num: self.after_block_num,
        }
    }
}

impl NewNoteView {
    /// The payload size of the note, in bytes.
    pub open spec fn size(self) -> nat {
        self.header.len() + self.details.len()
    }

    /// The note as storage keeps it.
    pub open spec fn stored(self, seq: i64, created_at: i64) -> StoredNoteView {
        StoredNoteView {
            id: self.id,
            tag: self.tag,
            header: self.header,
            details: self.details,
            created_at,
            seq,
            after_block_num: self.after_block_num,
        }
    }
}

impl StoredNoteView {
    /// The payload size of the note, in bytes.
    pub open spec fn size(self) -> nat {
        self.header.len() + self.details.len()
    }
}

/// The views of some stored notes.
pub open spec fn views(notes: Seq<StoredNote>) -> Seq<StoredNoteView> {
    notes.map_values(|note: StoredNote| note@)
}

/// The payload size of some stored notes together.
pub open spec fn total_size(notes: Seq<StoredNoteView>) -> nat
    decreases notes.len(),
{
    if notes.len() == 0 {
        0
    } else {
        total_size(notes.drop_last()) + notes.last().size()
    }
}

impl StoredNote {
    /// Copies the note.
    pub fn duplicate(&self) -> (copy: StoredNote)
        ensures
            copy@ == self@,
    {
        let header = self.header.clone();
        let details = self.details.clone();
        assert(header@ =~= self.header@);
        assert(details@ =~= self.details@);
        StoredNote {
            id: self.id,
            tag: self.tag,
            header,
            details,
            created_at: self.created_at,
            seq: self.seq,
            after_block_num: self.after_block_num,
        }
    }
}

// RESULTS AND ERRORS
// ================================================================================================

/// What became of a note which was handed in.
#[derive(Debug, Clone, Copy, PartialEq, Eq, Structural)]
pub enum StoreResult {
    Inserted,
    AlreadyPresent,
}

/// Why storage refuses an operation.
#[derive(Debug)]
pub enum StorageError {
    /// The database failed.
    Database(String),
    /// There is no room for the note.
    Capacity(String),
    /// The cursor is not one storage hands out.
    InvalidCursor,
    /// The cursor was handed out by another generation of the database.
    StaleCursor,
    /// The database, or the clock, holds a value which cannot be.
    InvalidData(String),
}

/// Why storage refuses an operation.
pub enum StorageErrorView {
    Database(Seq<char>),
    Capacity(Seq<char>),
    InvalidCursor,
    StaleCursor,
    InvalidData(Seq<char>),
}

impl View for StorageError {
    type V = StorageErrorView;

    open spec fn view(&self) -> StorageErrorView {
        match *self {
            StorageError::Database(message) => StorageErrorView::Database(message@),
            StorageError::Capacity(message) => StorageErrorView::Capacity(message@),
            StorageError::InvalidCursor => StorageErrorView::InvalidCursor,
            StorageError::StaleCursor => StorageErrorView::StaleCursor,
            StorageError::InvalidData(message) => StorageErrorView::InvalidData(message@),
        }
    }
}

impl StorageErrorView {
    /// The text of the error.
    pub open spec fn message(self) -> Seq<char> {
        match self {
            StorageErrorView::Database(message) => message,
            StorageErrorView::Capacity(message) => message,
            StorageErrorView::InvalidCursor => "invalid cursor"@,
            StorageErrorView::StaleCursor =>
                "cursor belongs to another database generation; clear the cursor and retry"@,
            StorageErrorView::InvalidData(message) => message,
        }
    }
}

impl StorageError {
    /// Renders the error.
    pub fn message(&self) -> (message: String)
        ensures
            message@ == self@.message(),
    {
        match self {
            StorageError::Database(message) => message.clone(),
            StorageError::Capacity(message) => message.clone(),
            StorageError::InvalidCursor => "invalid cursor".to_owned(),
            StorageError::StaleCursor =>
                "cursor belongs to another database generation; clear the cursor and retry".to_owned(),
            StorageError::InvalidData(message) => message.clone(),
        }
    }
}

/// An error is rendered as the text it holds, and the two which hold none as what is wrong with the
/// cursor.
pub proof fn law_error_is_rendered_as_its_text(text: Seq<char>)
    ensures
        StorageErrorView::Database(text).message() == text,
        StorageErrorView::Capacity(text).message() == text,
        StorageErrorView::InvalidData(text).message() == text,
        StorageErrorView::InvalidCursor.message() == "invalid cursor"@,
        StorageErrorView::StaleCursor.message()
            == "cursor belongs to another database generation; clear the cursor and retry"@,
{
}

/// The outcome of an operation, with the error by its view.
pub open spec fn outcome<T>(result: Result<T, StorageError>) -> Result<T, StorageErrorView> {
    match result {
        Ok(value) => Ok(value),
        Err(error) => Err(error@),
    }
}

/// A position in one database generation.
#[derive(Debug, Clone, Copy, PartialEq, Eq, Structural)]
pub struct Cursor {
    pub nonce: u64,
    pub sequence: u64,
}

// DATABASE
// ================================================================================================

/// The durable cursor counter, the retained payload size, and the database nonce.
#[derive(Debug, Clone, Copy, PartialEq, Eq, Structural)]
pub struct StorageMetadata {
    pub next_cursor: i64,
    pub retained_bytes: i64,
    pub nonce: u64,
}

/// The notes in storage, in cursor order, and the counters.
#[derive(Debug)]
pub struct Database {
    metadata: StorageMetadata,
    notes: Vec<StoredNote>,
}

/// The notes in storage, in cursor order, and the counters.
#[verifier::ext_equal]
pub struct DatabaseView {
    pub metadata: StorageMetadata,
    pub notes: Seq<StoredNoteView>,
}

impl View for Database {
    type V = DatabaseView;

    closed spec fn view(&self) -> DatabaseView {
        DatabaseView { metadata: self.metadata, notes: views(self.notes@) }
    }
}

impl DatabaseView {
    /// Whether the database holds what its schema admits: positive cursors below the counter, in
    /// order, no note twice, and no note which exceeds a page.
    pub open spec fn wf(self) -> bool {
        &&& self.metadata.next_cursor > 0
        &&& self.metadata.retained_bytes >= 0
        &&& forall|i: int|
            0 <= i < self.notes.len() ==> 0 < (#[trigger] self.notes[i]).seq
                < self.metadata.next_cursor && self.notes[i].size() <= FETCH_NOTES_MAX_BYTES
        &&& forall|i: int, j: int|
            0 <= i < j < self.notes.len() ==> (#[trigger] self.notes[i]).seq < (
            #[trigger] self.notes[j]).seq && self.notes[i].id != self.notes[j].id
    }

    /// Whether the retained byte count is the size of what is retained.
    pub open spec fn consistent(self) -> bool {
        self.metadata.retained_bytes == total_size(self.notes)
    }

    /// Whether a note with this ID is stored.
    pub open spec fn contains_id(self, id: Word) -> bool {
        exists|i: int| 0 <= i < self.notes.len() && (#[trigger] self.notes[i]).id == id
    }
}

impl Database {
    /// Creates an empty database.
    pub fn bootstrap(nonce: u64) -> (database: Database)
        ensures
            database@ == (DatabaseView {
                metadata: StorageMetadata { next_cursor: 1, retained_bytes: 0, nonce },
                notes: Seq::empty(),
            }),
            database@.wf(),
            database@.consistent(),
    {
        let database = Database {
            metadata: StorageMetadata { next_cursor: 1, retained_bytes: 0, nonce },
            notes: Vec::new(),
        };
        assert(database@.notes =~= Seq::empty());
        database
    }

    /// Loads a database from its rows, the notes in cursor order. Returns `None` when the rows are
    /// not ones the schema admits.
    pub fn load(metadata: StorageMetadata, notes: Vec<StoredNote>) -> (database: Option<Database>)
        ensures
            database is Some <==> (DatabaseView { metadata, notes: views(notes@) }).wf(),
            database matches Some(database) ==> database@ == (DatabaseView {
                metadata,
                notes: views(notes@),
            }),
    {
        let database = Database { metadata, notes };
        if database.schema_holds() {
            Some(database)
        } else {
            None
        }
    }

    fn schema_holds(&self) -> (holds: bool)
        ensures
            holds == self@.wf(),
    {
        if self.metadata.next_cursor <= 0 || self.metadata.retained_bytes < 0 {
            return false;
        }
        let ghost all = self@.notes;
        let mut i: usize = 0;
        while i < self.notes.len()
            invariant
                all == self@.notes,
                all.len() == self.notes@.len(),
                i <= all.len(),
                forall|k: int|
                    0 <= k < i ==> 0 < (#[trigger] all[k]).seq < self.metadata.next_cursor
                        && all[k].size() <= FETCH_NOTES_MAX_BYTES,
                forall|k: int, l: int|
                    0 <= k < l < i ==> (#[trigger] all[k]).seq < (#[trigger] all[l]).seq
                        && all[k].id != all[l].id,
            decreases all.len() - i,
        {
            let note = &self.notes[i];
            assert(all[i as int] == note@);
            if note.seq <= 0 || note.seq >= self.metadata.next_cursor {
                return false;
            }
            if note.header.len() > FETCH_NOTES_MAX_BYTES || note.details.len()
                > FETCH_NOTES_MAX_BYTES - note.header.len() {
                return false;
            }
            let mut j: usize = 0;
            while j < i
                invariant
                    all == self@.notes,
                    all.len() == self.notes@.len(),
                    j <= i < all.len(),
                    note@ == all[i as int],
                    forall|k: int|
                        0 <= k < j ==> (#[trigger] all[k]).seq < all[i as int].seq && all[k].id
                            != all[i as int].id,
                decreases i - j,
            {
                assert(all[j as int] == self.notes@[j as int]@);
                if self.notes[j].seq >= note.seq || self.notes[j].id == note.id {
                    return false;
                }
                j = j + 1;
            }
            i = i + 1;
        }
        true
    }

    /// The counters.
    pub fn metadata(&self) -> (metadata: StorageMetadata)
        ensures
            metadata == self@.metadata,
    {
        self.metadata
    }

    /// The notes, in cursor order.
    pub fn notes(&self) -> (notes: &Vec<StoredNote>)
        ensures
            views(notes@) == self@.notes,
    {
        &self.notes
    }

    /// Adds a note at the end.
    pub(crate) fn push_note(&mut self, note: StoredNote)
        ensures
            final(self)@ == (DatabaseView { notes: old(self)@.notes.push(note@), ..old(self)@ }),
    {
        let ghost before = self@.notes;
        self.notes.push(note);
        assert(self@.notes =~= before.push(note@));
    }

    /// Removes the notes with the given timestamps and cursors.
    pub(crate) fn remove_notes(&mut self, keys: &Vec<(i64, i64)>)
        ensures
            final(self)@ == (DatabaseView {
                notes: old(self)@.notes.filter(
                    |note: StoredNoteView| !cleanup::has_key(keys@, note),
                ),
                ..old(self)@
            }),
    {
        cleanup::remove_keys(&mut self.notes, keys);
    }

    /// Replaces the counters.
    pub(crate) fn set_metadata(&mut self, metadata: StorageMetadata)
        ensures
            final(self)@ == (DatabaseView { metadata, ..old(self)@ }),
    {
        self.metadata = metadata;
    }
}

// LAWS OF THE MODEL
// ================================================================================================

/// A note which is handed in is seen with all its fields.
pub proof fn law_new_note_is_seen_whole(note: NewNote)
    ensures
        note@.id == note.id,
        note@.tag == note.tag,
        note@.header == note.header@,
        note@.details == note.details@,
        note@.after_block_num == note.after_block_num,
{
}

/// A stored note is seen with all its fields, and some stored notes are seen one by one, in order.
pub proof fn law_stored_note_is_seen_whole(notes: Seq<StoredNote>, i: int)
    requires
        0 <= i < notes.len(),
    ensures
        views(notes).len() == notes.len(),
        views(notes)[i] == notes[i]@,
        notes[i]@.id == notes[i].id,
        notes[i]@.tag == notes[i].tag,
        notes[i]@.header == notes[i].header@,
        notes[i]@.details == notes[i].details@,
        notes[i]@.created_at == notes[i].created_at,
        notes[i]@.seq == notes[i].seq,
        notes[i]@.after_block_num == notes[i].after_block_num,
{
}

/// An error is seen as its variant, with the text it holds, and an outcome by its value or its error.
pub proof fn law_error_is_seen_whole(message: String, error: StorageError, value: StoreResult)
    ensures
        StorageError::Database(message)@ == StorageErrorView::Database(message@),
        StorageError::Capacity(message)@ == StorageErrorView::Capacity(message@),
        StorageError::InvalidCursor@ == StorageErrorView::InvalidCursor,
        StorageError::StaleCursor@ == StorageErrorView::StaleCursor,
        StorageError::InvalidData(message)@ == StorageErrorView::InvalidData(message@),
        outcome(Err::<StoreResult, StorageError>(error)) == Err::<StoreResult, StorageErrorView>(
            error@,
        ),
        outcome(Ok::<StoreResult, StorageError>(value)) == Ok::<StoreResult, StorageErrorView>(
            value,
        ),
{
}

/// A database is within its schema exactly when its cursors are positive, ascending and below the
/// counter, no ID occurs twice, no note is larger than 3 MiB, and the counters are not negative.
pub proof fn law_schema_of_a_database(database: DatabaseView)
    ensures
        database.wf() <==> {
            let notes = database.notes;
            &&& database.metadata.next_cursor >= 1
            &&& database.metadata.retained_bytes >= 0
            &&& forall|i: int|
                0 <= i < notes.len() ==> 1 <= (#[trigger] notes[i]).seq
                    < database.metadata.next_cursor && notes[i].header.len() + notes[i].details.len()
                    <= 3_145_728
            &&& forall|i: int, j: int|
                0 <= i < j < notes.len() ==> (#[trigger] notes[i]).seq < (#[trigger] notes[j]).seq
            &&& forall|i: int, j: int|
                0 <= i < j < notes.len() ==> (#[trigger] notes[i]).id != (#[trigger] notes[j]).id
        },
{
}

} // verus!
