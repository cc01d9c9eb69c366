use miden_services::chain::Word;
use miden_services::clock::now_micros;
use miden_services::transport::db::fetch::{fetch_notes, page, FetchPage};
use miden_services::transport::db::queries::{
    assign_nonce,
    delete_notes_created_before,
    insert_note,
    migrate_cursor_nonce,
    note_exists,
    select_retained_bytes,
    select_storage_metadata,
    update_storage_metadata,
    MetadataRow,
};
use miden_services::transport::db::store::{commit, plan_store, store_note_at, StorePlan};
use miden_services::transport::db::{
    Cursor,
    Database,
    NewNote,
    StorageError,
    StorageMetadata,
    StoreResult,
    StoredNote,
    CLEANUP_MAX_NOTES,
    FETCH_NOTES_MAX_BYTES,
    FETCH_NOTES_MAX_ROWS,
};

const NONCE: u64 = 0x0102_0304_0506_0708;

fn id(seed: u32) -> Word {
    Word { e0: u64::from(seed), e1: 0, e2: 0, e3: 0 }
}

fn note(seed: u32, tag: u32) -> NewNote {
    note_with_advice(seed, tag, 0)
}

fn note_with_advice(seed: u32, tag: u32, elements: usize) -> NewNote {
    let mut details = vec![7; 120];
    details.resize(120 + 8 * elements, 1);
    NewNote {
        id: id(seed),
        tag,
        header: seed.to_le_bytes().repeat(20),
        details,
        after_block_num: Some(10),
    }
}

fn size(note: &NewNote) -> u64 {
    (note.header.len() + note.details.len()) as u64
}

fn database() -> Database {
    Database::bootstrap(NONCE)
}

fn reopen(database: Database) -> Database {
    let notes = database.notes().iter().map(StoredNote::duplicate).collect();
    Database::load(database.metadata(), notes).expect("the rows are those of a database")
}

fn store_note(database: &mut Database, note: NewNote, limit: u64) -> Result<StoreResult, StorageError> {
    miden_services::transport::db::store::store_note(database, note, limit, 30)
}

fn cursor(sequence: u64) -> Option<Cursor> {
    Some(Cursor { nonce: NONCE, sequence })
}

fn fetch(database: &Database, tags: Vec<u32>, sequence: u64) -> FetchPage {
    fetch_notes(database, &tags, cursor(sequence)).expect("the page is fetched")
}

fn seqs(page: &FetchPage) -> Vec<i64> {
    page.notes.iter().map(|note| note.seq).collect()
}

/// Stores a note which was created at `timestamp`.
fn seed_expired(database: &mut Database, seed: u32, timestamp: i64, limit: u64) {
    store_note_at(database, note(seed, 42), Ok(timestamp), limit, u32::MAX).unwrap();
}

#[test]
fn retained_note_roundtrips_after_reopening() {
    let mut database = database();
    let mut original = note(7, u32::MAX);
    let before = now_micros().unwrap();
    original.after_block_num = Some(u32::MAX);
    let (header, details) = (original.header.clone(), original.details.clone());
    store_note(&mut database, original, u64::MAX).unwrap();

    let database = reopen(database);
    let page = fetch(&database, vec![u32::MAX], 0);
    assert_eq!(page.notes.len(), 1);
    let retained = &page.notes[0];
    assert_eq!(retained.header, header);
    assert_eq!(retained.details, details);
    assert_eq!(retained.after_block_num, Some(u32::MAX));
    assert!((before..=now_micros().unwrap()).contains(&retained.created_at));
    assert_eq!(retained.seq, 1);
    assert!(!page.has_more);
}

#[test]
fn retry_at_capacity_preserves_first_write() {
    let mut database = database();
    let original = note(1, 42);
    let limit = size(&original);
    assert_eq!(store_note(&mut database, original, limit).unwrap(), StoreResult::Inserted);
    let created_at = fetch(&database, vec![42], 0).notes[0].created_at;
    let mut retry = note(1, 42);
    retry.after_block_num = Some(99);
    assert_eq!(store_note(&mut database, retry, limit).unwrap(), StoreResult::AlreadyPresent);
    assert!(matches!(
        store_note(&mut database, note(2, 42), limit),
        Err(StorageError::Capacity(_))
    ));
    let page = fetch(&database, vec![42], 0);
    assert_eq!(page.notes.len(), 1);
    assert_eq!(page.notes[0].after_block_num, Some(10));
    assert_eq!(page.notes[0].created_at, created_at);
    assert_eq!(page.notes[0].seq, 1);
    assert!(!page.has_more);
}

#[test]
fn multi_tag_fetch_has_stable_bounded_pages() {
    let mut database = database();
    for seed in 1..=503 {
        store_note(&mut database, note(seed, seed % 2), u64::MAX).unwrap();
    }
    let page = fetch(&database, vec![1, 0, 1], 0);
    assert_eq!(page.notes.len(), FETCH_NOTES_MAX_ROWS);
    assert!(page.has_more);
    assert_eq!(seqs(&page), (1..=500).collect::<Vec<_>>());
    assert_eq!(page.cursor, Cursor { nonce: NONCE, sequence: 500 });
    let page = fetch(&database, vec![0, 1], 500);
    assert_eq!(page.notes.len(), 3);
    assert!(!page.has_more);
    assert!(fetch(&database, vec![], 0).notes.is_empty());
    assert!(matches!(
        fetch_notes(&database, &vec![1], cursor(u64::MAX)),
        Err(StorageError::InvalidCursor)
    ));
}

#[test]
fn fetch_byte_limit_and_oversize_rejection() {
    let mut database = database();
    let elements = FETCH_NOTES_MAX_BYTES / 3 / 8;
    for seed in 1..=4 {
        store_note(&mut database, note_with_advice(seed, 42, elements), u64::MAX).unwrap();
    }
    let page = fetch(&database, vec![42], 0);
    assert_eq!(page.notes.len(), 2);
    assert!(page.has_more);
    assert_eq!(fetch(&database, vec![42], 2).notes.len(), 2);
    let oversized = note_with_advice(5, 42, FETCH_NOTES_MAX_BYTES / 8);
    let refused = store_note(&mut database, oversized, u64::MAX).unwrap_err();
    assert!(matches!(&refused, StorageError::Capacity(_)));
    assert_eq!(refused.message(), "note exceeds the 3145728 byte fetch limit");
}

#[test]
fn cursor_exhaustion_rejects_insert_without_losing_existing_notes() {
    let mut database = database();
    store_note(&mut database, note(1, 42), u64::MAX).unwrap();
    let retained = database.metadata().retained_bytes;
    update_storage_metadata(&mut database, i64::MAX, retained);
    let refused = store_note(&mut database, note(2, 42), u64::MAX).unwrap_err();
    assert!(matches!(&refused, StorageError::Capacity(_)));
    assert_eq!(refused.message(), "cursor exhausted");
    assert_eq!(
        store_note(&mut database, note(1, 42), u64::MAX).unwrap(),
        StoreResult::AlreadyPresent
    );
    assert_eq!(fetch(&database, vec![42], 0).notes.len(), 1);
}

#[test]
fn failed_insert_rolls_back_capacity_and_cursor() {
    let mut database = database();
    let limit = size(&note(1, 42));
    // The insertion is planned, and then never committed.
    let plan = plan_store(&database, note(1, 42), now_micros(), limit, 30).unwrap();
    assert!(matches!(plan, StorePlan::Insert(_)));
    drop(plan);
    assert_eq!(database.metadata().next_cursor, 1);
    store_note(&mut database, note(1, 42), limit).unwrap();
    assert_eq!(fetch(&database, vec![42], 0).notes[0].seq, 1);
}

#[test]
fn concurrent_writes_share_capacity() {
    let mut database = database();
    let limit = size(&note(1, 42));
    let first = store_note(&mut database, note(1, 42), limit);
    let second = store_note(&mut database, note(2, 42), limit);
    assert_eq!(usize::from(first.is_ok()) + usize::from(second.is_ok()), 1);
    assert_eq!(fetch(&database, vec![42], 0).notes.len(), 1);
}

#[test]
fn insertion_deletes_at_most_ten_oldest_notes_with_cursor_ties() {
    let mut database = database();
    for seed in 1..=13 {
        let timestamp = match seed {
            1 => 3,
            2..=4 => 2,
            _ => 1,
        };
        seed_expired(&mut database, seed, timestamp, u64::MAX);
    }
    store_note(&mut database, note(14, 42), u64::MAX).unwrap();
    let page = fetch(&database, vec![42], 0);
    assert_eq!(seqs(&page), vec![1, 3, 4, 14]);
    store_note(&mut database, note(15, 42), u64::MAX).unwrap();
    let page = fetch(&database, vec![42], 0);
    assert_eq!(seqs(&page), vec![14, 15]);
}

#[test]
fn insertion_uses_cleanup_capacity_and_preserves_cursor_after_reopen() {
    let mut database = database();
    let size = size(&note(1, 42));
    for seed in 1..=2 {
        seed_expired(&mut database, seed, 0, size * 2);
    }
    store_note(&mut database, note(3, 42), size * 2).unwrap();
    let mut database = reopen(database);
    store_note(&mut database, note(4, 42), size * 2).unwrap();
    assert!(matches!(
        store_note(&mut database, note(5, 42), size * 2),
        Err(StorageError::Capacity(_))
    ));
    let page = fetch(&database, vec![42], 0);
    assert_eq!(seqs(&page), vec![3, 4]);
}

#[test]
fn insufficient_reclaimed_capacity_rolls_back_deletions_and_cursor() {
    let mut database = database();
    let size = size(&note(1, 42)) as usize;
    let limit = (size * 12) as u64;
    for seed in 1..=12 {
        seed_expired(&mut database, seed, 0, limit);
    }
    let oversized = note_with_advice(13, 42, size * 11 / 8);
    let refused = store_note(&mut database, oversized, limit).unwrap_err();
    assert!(matches!(&refused, StorageError::Capacity(_)));
    assert_eq!(
        refused.message(),
        format!("accepting this note would exceed the {limit} byte limit")
    );
    let page = fetch(&database, vec![42], 0);
    assert_eq!(seqs(&page), (1..=12).collect::<Vec<_>>());
    store_note(&mut database, note(13, 42), limit).unwrap();
    let page = fetch(&database, vec![42], 0);
    assert_eq!(seqs(&page), vec![11, 12, 13]);
}

#[test]
fn duplicate_retry_and_reads_do_not_delete_expired_notes() {
    let mut database = database();
    for seed in 1..=12 {
        seed_expired(&mut database, seed, 0, u64::MAX);
    }
    assert_eq!(fetch(&database, vec![42], 0).notes.len(), 12);
    assert_eq!(
        store_note(&mut database, note(1, 42), 1).unwrap(),
        StoreResult::AlreadyPresent
    );
    assert_eq!(fetch(&database, vec![42], 0).notes.len(), 12);
}

#[test]
fn failed_cleanup_rolls_back_insert_and_deletions() {
    let mut database = database();
    seed_expired(&mut database, 1, 0, u64::MAX);
    seed_expired(&mut database, 2, 0, u64::MAX);
    let plan = plan_store(&database, note(3, 42), now_micros(), u64::MAX, 30).unwrap();
    let StorePlan::Insert(insertion) = &plan else {
        panic!("expected an insertion");
    };
    assert_eq!(insertion.removed, vec![(0, 1), (0, 2)]);
    drop(plan);
    assert_eq!(seqs(&fetch(&database, vec![42], 0)), vec![1, 2]);

    let plan = plan_store(&database, note(3, 42), now_micros(), u64::MAX, 30).unwrap();
    assert_eq!(commit(&mut database, plan), StoreResult::Inserted);
    assert_eq!(fetch(&database, vec![42], 0).notes[0].seq, 3);
}

#[test]
fn cleanup_preserves_notes_at_the_retention_boundary() {
    let mut database = database();
    for seed in 1..=3 {
        seed_expired(&mut database, seed, i64::from(seed), u64::MAX);
    }
    let removed = delete_notes_created_before(&mut database, 2, CLEANUP_MAX_NOTES).unwrap();
    assert_eq!(removed, size(&note(1, 42)) as i64);
    let retained = select_retained_bytes(Some(database.metadata().retained_bytes)).unwrap();
    update_storage_metadata(&mut database, 4, retained - removed);
    let page = fetch(&database, vec![42], 0);
    assert_eq!(seqs(&page), vec![2, 3]);
}

#[test]
fn insertion_uses_the_configured_retention_period() {
    let mut database = database();
    let day = 86_400_000_000;
    let now = now_micros().unwrap();
    seed_expired(&mut database, 1, now - 8 * day, u64::MAX);
    seed_expired(&mut database, 2, now - 6 * day, u64::MAX);
    miden_services::transport::db::store::store_note(&mut database, note(3, 42), u64::MAX, 7)
        .unwrap();
    let page = fetch(&database, vec![42], 0);
    assert_eq!(seqs(&page), vec![2, 3]);
}

#[test]
fn a_note_is_stored_whatever_the_retention_period() {
    let mut database = database();
    store_note_at(&mut database, note(1, 42), Ok(100), u64::MAX, 0).unwrap();
    assert_eq!(fetch(&database, vec![42], 0).notes.len(), 1);
    // Without retention, everything older than the new note has expired.
    store_note_at(&mut database, note(2, 42), Ok(101), u64::MAX, 0).unwrap();
    assert_eq!(seqs(&fetch(&database, vec![42], 0)), vec![2]);
    // The earliest cutoff there is keeps everything.
    store_note_at(&mut database, note(3, 42), Ok(0), u64::MAX, u32::MAX).unwrap();
    assert_eq!(seqs(&fetch(&database, vec![42], 0)), vec![2, 3]);
}

#[test]
fn a_broken_clock_stores_nothing() {
    let mut database = database();
    let failed = Err("before the epoch".to_string());
    let refused = store_note_at(&mut database, note(1, 42), failed, u64::MAX, 30).unwrap_err();
    assert!(matches!(&refused, StorageError::InvalidData(_)));
    assert_eq!(refused.message(), "before the epoch");
    assert!(database.notes().is_empty());
    assert_eq!(database.metadata().next_cursor, 1);
}

#[test]
fn inconsistent_byte_counts_are_noticed() {
    let mut database = database();
    seed_expired(&mut database, 1, 0, u64::MAX);
    seed_expired(&mut database, 2, 0, u64::MAX);
    update_storage_metadata(&mut database, 3, 0);
    let refused = store_note(&mut database, note(3, 42), u64::MAX).unwrap_err();
    assert!(matches!(&refused, StorageError::InvalidData(_)));
    assert_eq!(refused.message(), "retained byte count underflow");

    update_storage_metadata(&mut database, 3, i64::MAX);
    let refused = store_note_at(&mut database, note(3, 42), Ok(0), u64::MAX, 1).unwrap_err();
    assert!(matches!(&refused, StorageError::Capacity(_)));
    assert_eq!(refused.message(), "retained byte count overflow");
}

#[test]
fn the_byte_count_is_the_size_of_what_is_retained() {
    let mut database = database();
    for seed in 1..=12 {
        seed_expired(&mut database, seed, 0, u64::MAX);
    }
    let one = size(&note(1, 42)) as i64;
    assert_eq!(database.metadata().retained_bytes, 12 * one);
    store_note(&mut database, note(13, 42), u64::MAX).unwrap();
    assert_eq!(database.metadata().retained_bytes, 3 * one);
    assert_eq!(database.metadata().next_cursor, 14);
}

#[test]
fn a_cursor_of_another_generation_is_stale() {
    let database = database();
    let foreign = Some(Cursor { nonce: NONCE + 1, sequence: 1 });
    let refused = fetch_notes(&database, &vec![42], foreign).unwrap_err();
    assert!(matches!(&refused, StorageError::StaleCursor));
    assert_eq!(
        refused.message(),
        "cursor belongs to another database generation; clear the cursor and retry"
    );
    assert_eq!(StorageError::InvalidCursor.message(), "invalid cursor");
    assert_eq!(StorageError::Database("locked".to_string()).message(), "locked");
    let fresh = fetch_notes(&database, &vec![42], None).unwrap();
    assert_eq!(fresh.cursor, Cursor { nonce: NONCE, sequence: 0 });
}

#[test]
fn pages_resume_without_gaps() {
    let mut database = database();
    let elements = FETCH_NOTES_MAX_BYTES / 4 / 8;
    for seed in 1..=10 {
        let tag = if seed % 3 == 0 { 9 } else { 42 };
        store_note(&mut database, note_with_advice(seed, tag, elements), u64::MAX).unwrap();
    }
    let mut seen = Vec::new();
    let mut sequence = 0;
    loop {
        let fetched = page(&database, &vec![42], sequence);
        assert!(!fetched.notes.is_empty());
        seen.extend(seqs(&fetched));
        sequence = fetched.cursor.sequence as i64;
        if !fetched.has_more {
            break;
        }
    }
    assert_eq!(seen, vec![1, 2, 4, 5, 7, 8, 10]);
}

#[test]
fn metadata_rows_are_read() {
    let row = assign_nonce(5, 6, NONCE);
    assert_eq!(row.nonce, NONCE.to_le_bytes());
    let metadata = select_storage_metadata(Some(row)).unwrap();
    assert_eq!(
        metadata,
        StorageMetadata { next_cursor: 5, retained_bytes: 6, nonce: NONCE }
    );
    let migrated = migrate_cursor_nonce(5, 6);
    assert_eq!((migrated.next_cursor, migrated.retained_bytes), (5, 6));
    assert_eq!(migrated.nonce.len(), 8);

    let missing = select_storage_metadata(None).unwrap_err();
    assert_eq!(missing.message(), "storage metadata is missing");
    let short = MetadataRow { next_cursor: 1, retained_bytes: 0, nonce: vec![1; 7] };
    let refused = select_storage_metadata(Some(short)).unwrap_err();
    assert_eq!(refused.message(), "invalid database nonce length");
    assert_eq!(
        select_retained_bytes(None).unwrap_err().message(),
        "storage metadata is missing"
    );
    // Two databases never share a nonce, except by chance.
    assert_ne!(migrate_cursor_nonce(1, 0).nonce, migrate_cursor_nonce(1, 0).nonce);
}

#[test]
fn rows_which_the_schema_does_not_admit_are_refused() {
    let stored = |seed: u32, seq: i64| {
        let mut database = database();
        insert_note(&mut database, note(seed, 42), seq, 0);
        database.notes()[0].duplicate()
    };
    let metadata = StorageMetadata { next_cursor: 5, retained_bytes: 0, nonce: NONCE };
    assert!(Database::load(metadata, vec![stored(1, 1), stored(2, 4)]).is_some());
    assert!(Database::load(metadata, vec![stored(1, 5)]).is_none());
    assert!(Database::load(metadata, vec![stored(1, 0)]).is_none());
    assert!(Database::load(metadata, vec![stored(1, 2), stored(2, 2)]).is_none());
    assert!(Database::load(metadata, vec![stored(1, 1), stored(1, 2)]).is_none());
    let negative = StorageMetadata { retained_bytes: -1, ..metadata };
    assert!(Database::load(negative, vec![]).is_none());
    let unset = StorageMetadata { next_cursor: 0, ..metadata };
    assert!(Database::load(unset, vec![]).is_none());
}

#[test]
fn stored_ids_are_found() {
    let mut database = database();
    store_note(&mut database, note(1, 42), u64::MAX).unwrap();
    assert!(note_exists(&database, id(1)));
    assert!(!note_exists(&database, id(2)));
}
