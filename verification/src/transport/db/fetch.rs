//! Fetching notes, one page at a time.

use vstd::prelude::*;

use crate::filtering;
use crate::transport::db;
use crate::transport::db::laws;
use crate::transport::db::Cursor;
use crate::transport::db::Database;
use crate::transport::db::DatabaseView;
use crate::transport::db::StorageError;
use crate::transport::db::StorageErrorView;
use crate::transport::db::StoredNote;
use crate::transport::db::StoredNoteView;
use crate::transport::db::FETCH_NOTES_MAX_BYTES;
use crate::transport::db::FETCH_NOTES_MAX_ROWS;

verus! {

// MODEL
// ================================================================================================

/// One page of notes, and the position to go on from.
#[derive(Debug)]
pub struct FetchPage {
    pub cursor: Cursor,
    pub notes: Vec<StoredNote>,
    pub has_more: bool,
}

/// One page of notes.
#[verifier::ext_equal]
pub struct FetchPageView {
    pub cursor: Cursor,
    pub notes: Seq<StoredNoteView>,
    pub has_more: bool,
}

impl View for FetchPage {
    type V = FetchPageView;

    open spec fn view(&self) -> FetchPageView {
        FetchPageView {
            cursor: self.cursor,
            notes: db::views(self.notes@),
            has_more: self.has_more,
        }
    }
}

/// Whether a note is behind the position and has one of the tags.
pub open spec fn is_wanted(tags: Seq<u32>, sequence: int) -> spec_fn(StoredNoteView) -> bool {
    |note: StoredNoteView| note.seq > sequence && tags.contains(note.tag)
}

/// The notes behind the position which have one of the tags, in cursor order.
pub open spec fn candidates(notes: Seq<StoredNoteView>, tags: Seq<u32>, sequence: int) -> Seq<
    StoredNoteView,
> {
    notes.filter(is_wanted(tags, sequence))
}

/// Whether the notes fit on one page.
pub open spec fn fits_page(notes: Seq<StoredNoteView>) -> bool {
    notes.len() <= FETCH_NOTES_MAX_ROWS && db::total_size(notes) <= FETCH_NOTES_MAX_BYTES
}

/// The length of the longest prefix which fits on one page.
pub open spec fn page_length(notes: Seq<StoredNoteView>) -> int
    decreases notes.len(),
{
    if notes.len() == 0 {
        0
    } else {
        let before = page_length(notes.drop_last());
        if before == notes.len() - 1 && fits_page(notes) {
            notes.len() as int
        } else {
            before
        }
    }
}

/// The page which starts at the position.
pub open spec fn page_from(database: DatabaseView, tags: Seq<u32>, sequence: int) -> FetchPageView {
    let found = candidates(database.notes, tags, sequence);
    let notes = found.take(page_length(found));
    FetchPageView {
        cursor: Cursor {
            nonce: database.metadata.nonce,
            sequence: if notes.len() > 0 {
                notes.last().seq as u64
            } else {
                sequence as u64
            },
        },
        notes,
        has_more: page_length(found) < found.len(),
    }
}

/// What a fetch returns.
pub open spec fn fetched(
    database: DatabaseView,
    tags: Seq<u32>,
    cursor: Option<Cursor>,
) -> Result<FetchPageView, StorageErrorView> {
    match cursor {
        None => Ok(page_from(database, tags, 0)),
        Some(cursor) => if cursor.sequence > i64::MAX {
            Err(StorageErrorView::InvalidCursor)
        } else if cursor.nonce != database.metadata.nonce {
            Err(StorageErrorView::StaleCursor)
        } else {
            Ok(page_from(database, tags, cursor.sequence as int))
        },
    }
}

// PAGES
// ================================================================================================

proof fn lemma_size_of_prefix(notes: Seq<StoredNoteView>, n: int, m: int)
    requires
        0 <= n <= m <= notes.len(),
    ensures
        db::total_size(notes.take(n)) <= db::total_size(notes.take(m)),
    decreases m - n,
{
    if n < m {
        lemma_size_of_prefix(notes, n, m - 1);
        assert(notes.take(m).drop_last() =~= notes.take(m - 1));
    }
}

/// A page holds the longest run of notes which fits: it stays within the row and the byte limit, and
/// the next note would not.
pub proof fn law_page_is_bounded_and_full(notes: Seq<StoredNoteView>)
    ensures
        0 <= page_length(notes) <= notes.len(),
        fits_page(notes.take(page_length(notes))),
        page_length(notes) < notes.len() ==> !fits_page(notes.take(page_length(notes) + 1)),
    decreases notes.len(),
{
    if notes.len() > 0 {
        let rest = notes.drop_last();
        law_page_is_bounded_and_full(rest);
        let n = page_length(rest);
        assert(rest.take(n) =~= notes.take(n));
        if n < rest.len() {
            assert(rest.take(n + 1) =~= notes.take(n + 1));
        } else {
            assert(notes.take(n + 1) =~= notes);
        }
    } else {
        assert(notes.take(0) =~= Seq::empty());
    }
}

proof fn lemma_page_is_unique(notes: Seq<StoredNoteView>, count: int)
    requires
        0 <= count <= notes.len(),
        fits_page(notes.take(count)),
        count < notes.len() ==> !fits_page(notes.take(count + 1)),
    ensures
        page_length(notes) == count,
{
    law_page_is_bounded_and_full(notes);
    let n = page_length(notes);
    if n < count {
        lemma_size_of_prefix(notes, n + 1, count);
    } else if count < n {
        lemma_size_of_prefix(notes, count + 1, n);
    }
}

/// Whether the tag is among those asked for.
fn contains_tag(tags: &Vec<u32>, tag: u32) -> (found: bool)
    ensures
        found == tags@.contains(tag),
{
    let mut i: usize = 0;
    while i < tags.len()
        invariant
            i <= tags@.len(),
            forall|k: int| 0 <= k < i ==> tags@[k] != tag,
        decreases tags@.len() - i,
    {
        if tags[i] == tag {
            return true;
        }
        i = i + 1;
    }
    false
}

/// Returns a page in cursor order.
pub fn page(database: &Database, tags: &Vec<u32>, sequence: i64) -> (page: FetchPage)
    requires
        database@.wf(),
        sequence >= 0,
    ensures
        page@ == page_from(database@, tags@, sequence as int),
{
    let notes = database.notes();
    let nonce: u64 = database.metadata().nonce;
    let ghost all = database@.notes;
    let ghost wanted = is_wanted(tags@, sequence as int);
    let mut found: Vec<StoredNote> = Vec::new();
    let mut bytes: usize = 0;
    let mut last: i64 = sequence;
    let mut i: usize = 0;
    proof {
        reveal(Seq::filter);
        assert(all.take(0).filter(wanted) =~= Seq::empty());
        assert(db::views(found@) =~= Seq::empty());
    }
    while i < notes.len()
        invariant
            database@.wf(),
            all == database@.notes,
            all == db::views(notes@),
            wanted == is_wanted(tags@, sequence as int),
            nonce == database@.metadata.nonce,
            sequence >= 0,
            i <= notes@.len(),
            db::views(found@) == all.take(i as int).filter(wanted),
            fits_page(db::views(found@)),
            bytes == db::total_size(db::views(found@)),
            last >= 0,
            last == (if found@.len() > 0 {
                db::views(found@).last().seq
            } else {
                sequence
            }),
        decreases notes@.len() - i,
    {
        let note = &notes[i];
        let ghost before = db::views(found@);
        proof {
            reveal(Seq::filter);
            assert(all[i as int] == note@);
            assert(all.take(i + 1).drop_last() =~= all.take(i as int));
            assert(all.take(i + 1).last() == note@);
        }
        if note.seq > sequence && contains_tag(tags, note.tag) {
            let size: usize = note.header.len() + note.details.len();
            let ghost longer = all.take(i + 1).filter(wanted);
            proof {
                assert(longer == before.push(note@));
                assert(longer.drop_last() =~= before);
                filtering::lemma_filter_of_prefix(all, wanted, i as int);
                filtering::lemma_filter_of_prefix(all, wanted, i + 1);
            }
            if found.len() == FETCH_NOTES_MAX_ROWS || size > FETCH_NOTES_MAX_BYTES - bytes {
                proof {
                    let total = all.filter(wanted);
                    assert(total.take(before.len() as int) == before);
                    assert(total.take(before.len() as int + 1) == longer);
                    lemma_page_is_unique(total, before.len() as int);
                }
                return FetchPage {
                    cursor: Cursor { nonce, sequence: last as u64 },
                    notes: found,
                    has_more: true,
                };
            }
            let copy = note.duplicate();
            found.push(copy);
            bytes = bytes + size;
            last = note.seq;
            assert(db::views(found@) =~= before.push(note@));
        }
        i = i + 1;
    }
    proof {
        assert(all.take(i as int) =~= all);
        let total = all.filter(wanted);
        assert(total.take(total.len() as int) =~= total);
        lemma_page_is_unique(total, total.len() as int);
    }
    FetchPage { cursor: Cursor { nonce, sequence: last as u64 }, notes: found, has_more: false }
}

/// Returns one page of one snapshot, in cursor order.
pub fn fetch_notes(database: &Database, tags: &Vec<u32>, cursor: Option<Cursor>) -> (fetched_page:
    Result<FetchPage, StorageError>)
    requires
        database@.wf(),
    ensures
        match fetched_page {
            Ok(page) => fetched(database@, tags@, cursor) == Ok::<FetchPageView, StorageErrorView>(
                page@,
            ),
            Err(error) => fetched(database@, tags@, cursor) == Err::<
                FetchPageView,
                StorageErrorView,
            >(error@),
        },
{
    match cursor {
        None => Ok(page(database, tags, 0)),
        Some(cursor) => {
            if cursor.sequence > i64::MAX as u64 {
                return Err(StorageError::InvalidCursor);
            }
            if cursor.nonce != database.metadata().nonce {
                return Err(StorageError::StaleCursor);
            }
            Ok(page(database, tags, cursor.sequence as i64))
        },
    }
}

// LAWS OF FETCHING
// ================================================================================================

/// A page holds at most 500 notes and 3 MiB, from the start of what was asked for. Where something is
/// left, the next note would have exceeded one of the two. Its cursor is that of its last note, or the
/// position, with the nonce of the database.
pub proof fn law_page_is_the_longest_which_fits(
    database: DatabaseView,
    tags: Seq<u32>,
    sequence: int,
)
    requires
        database.wf(),
        0 <= sequence <= i64::MAX,
    ensures
        ({
            let page = page_from(database, tags, sequence);
            let found = candidates(database.notes, tags, sequence);
            let count = page.notes.len() as int;
            &&& count <= found.len()
            &&& page.notes == found.take(count)
            &&& count <= 500
            &&& db::total_size(page.notes) <= 3_145_728
            &&& page.has_more <==> count < found.len()
            &&& page.has_more ==> count == 500 || db::total_size(page.notes)
                + found[count].header.len() + found[count].details.len() > 3_145_728
            &&& count == 0 ==> page.cursor.sequence == sequence
            &&& count > 0 ==> page.cursor.sequence == found[count - 1].seq
            &&& page.cursor.nonce == database.metadata.nonce
        }),
{
    let found = candidates(database.notes, tags, sequence);
    law_page_is_bounded_and_full(found);
    let count = page_length(found);
    if count < found.len() {
        assert(found.take(count + 1).drop_last() =~= found.take(count));
    }
    if count > 0 {
        laws::lemma_filter(database.notes, is_wanted(tags, sequence));
        assert(database.notes.contains(found[count - 1]));
        let k = choose|k: int| 0 <= k < database.notes.len() && database.notes[k] == found[count
            - 1];
        assert(database.notes[k].seq > 0);
    }
}

/// The candidates follow the notes: one more note is a candidate, and then the last one, exactly when
/// it is behind the position and has one of the tags.
pub proof fn law_candidates_follow_the_notes(
    notes: Seq<StoredNoteView>,
    note: StoredNoteView,
    tags: Seq<u32>,
    sequence: int,
)
    ensures
        candidates(Seq::empty(), tags, sequence) == Seq::<StoredNoteView>::empty(),
        note.seq > sequence && (exists|i: int| 0 <= i < tags.len() && tags[i] == note.tag)
            ==> candidates(notes.push(note), tags, sequence) == candidates(
            notes,
            tags,
            sequence,
        ).push(note),
        note.seq <= sequence || (forall|i: int| 0 <= i < tags.len() ==> tags[i] != note.tag)
            ==> candidates(notes.push(note), tags, sequence) == candidates(notes, tags, sequence),
{
    reveal(Seq::filter);
    assert(notes.push(note).drop_last() =~= notes);
}

/// A cursor is invalid exactly when its sequence is beyond every one which storage hands out, and
/// stale exactly when another generation of the database handed it out. Every other one, and none, is
/// answered with the page behind it.
pub proof fn law_cursor_belongs_to_its_database(
    database: DatabaseView,
    tags: Seq<u32>,
    cursor: Cursor,
)
    ensures
        fetched(database, tags, Some(cursor)) == Err::<FetchPageView, StorageErrorView>(
            StorageErrorView::InvalidCursor,
        ) <==> cursor.sequence >= 0x8000_0000_0000_0000,
        fetched(database, tags, Some(cursor)) == Err::<FetchPageView, StorageErrorView>(
            StorageErrorView::StaleCursor,
        ) <==> cursor.sequence < 0x8000_0000_0000_0000 && cursor.nonce != database.metadata.nonce,
        fetched(database, tags, Some(cursor)) is Ok <==> cursor.sequence < 0x8000_0000_0000_0000
            && cursor.nonce == database.metadata.nonce,
        fetched(database, tags, Some(cursor)) matches Ok(page) ==> page == page_from(
            database,
            tags,
            cursor.sequence as int,
        ),
        fetched(database, tags, None) matches Ok(page) && page == page_from(database, tags, 0),
{
}

/// A page is seen with its cursor, its notes in order, and whether there is more.
pub proof fn law_page_is_seen_whole(page: FetchPage)
    ensures
        page@.cursor == page.cursor,
        page@.has_more == page.has_more,
        page@.notes.len() == page.notes@.len(),
        forall|i: int| 0 <= i < page.notes@.len() ==> page@.notes[i] == (#[trigger] page.notes@[i])@,
{
}

} // verus!
