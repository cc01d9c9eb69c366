use miden_protocol::account::AccountId;
use miden_protocol::note::{
    Note,
    NoteAssets,
    NoteDetails,
    NoteRecipient,
    NoteStorage,
    NoteTag,
    NoteType,
    PartialNoteMetadata,
};
use miden_protocol::utils::serde::Serializable;
use miden_protocol::{Felt, Word};
use miden_services::status::Code;
use miden_services::transport::db::fetch::FetchPage;
use miden_services::transport::db::{Cursor, Database, StorageError, StoreResult, StoredNote};
use miden_services::transport::envelope::TransportNote;
use miden_services::transport::server::{
    decode_fetch,
    decode_send,
    fetch_notes,
    fetch_page,
    respond,
    storage_status,
    wire_size,
    Config,
    FetchNotesRequest,
    FetchNotesResponse,
    SendNoteRequest,
    Server,
    MAX_RESPONSE_BYTES,
};
use miden_services::status::Status;
use miden_standards::note::P2idNote;

const SENDER: &str = "0x1122334455667711010203040506ff";

fn note_with_storage(serial: u32, tag: u32, elements: usize) -> TransportNote {
    let recipient = NoteRecipient::new(
        Word::from([serial, 0, 0, 0]),
        P2idNote::script(),
        NoteStorage::new(vec![Felt::from(1_u32); elements]).unwrap(),
    );
    let metadata = PartialNoteMetadata::new(AccountId::from_hex(SENDER).unwrap(), NoteType::Private)
        .with_tag(NoteTag::new(tag));
    let note = Note::new(NoteAssets::default(), metadata, recipient);
    TransportNote {
        header: Some(note.header().to_bytes()),
        details: Some(NoteDetails::from(note).to_bytes()),
        after_block_num: None,
    }
}

fn note(serial: u32, tag: u32) -> TransportNote {
    note_with_storage(serial, tag, 0)
}

fn copy(note: &TransportNote) -> TransportNote {
    TransportNote {
        header: note.header.clone(),
        details: note.details.clone(),
        after_block_num: note.after_block_num,
    }
}

fn server(config: Config) -> (Database, Server) {
    (Database::bootstrap(9), Server::new(config).unwrap())
}

fn send(
    server: &Server,
    database: &mut Database,
    note: TransportNote,
) -> Result<StoreResult, Status> {
    server.send_note(database, SendNoteRequest { note: Some(note) })
}

fn fetch(database: &Database, tags: Vec<u32>, cursor: u64) -> Result<FetchNotesResponse, Status> {
    fetch_notes(database, FetchNotesRequest { tags, cursor })
}

/// The notes of a response, as they were sent.
fn envelopes(response: &FetchNotesResponse) -> Vec<(Vec<u8>, Vec<u8>, Option<u32>)> {
    response
        .notes
        .iter()
        .map(|note| (note.header.clone(), note.details.clone(), note.after_block_num))
        .collect()
}

fn envelope(note: &TransportNote) -> (Vec<u8>, Vec<u8>, Option<u32>) {
    (note.header.clone().unwrap(), note.details.clone().unwrap(), note.after_block_num)
}

#[test]
fn send_fetch_preserves_optional_hint_presence() {
    let (mut database, server) = server(Config::default());
    let first = note(1, 7);
    let mut second = note(2, 8);
    second.after_block_num = Some(0);
    for note in [&first, &second] {
        send(&server, &mut database, copy(note)).unwrap();
    }
    let page = fetch(&database, vec![8, 7, 7], 0).unwrap();
    assert_eq!(envelopes(&page), vec![envelope(&first), envelope(&second)]);
    assert!(!page.has_more);
    assert!(page.cursor > 0);
    let empty = fetch(&database, vec![7, 8], page.cursor).unwrap();
    assert!(empty.notes.is_empty());
    assert_eq!(empty.cursor, page.cursor);
}

#[test]
fn duplicate_send_preserves_first_note_and_cursor() {
    let (mut database, server) = server(Config::default());

    let mut first = note(1, 7);
    first.after_block_num = Some(100);
    assert_eq!(send(&server, &mut database, copy(&first)).unwrap(), StoreResult::Inserted);
    let before = fetch(&database, vec![7], 0).unwrap();

    // Retry sending the same note with a different `after_block_num` and assert that it's not
    // updated.
    let mut retry = copy(&first);
    retry.after_block_num = None;
    assert_eq!(send(&server, &mut database, retry).unwrap(), StoreResult::AlreadyPresent);
    let after = fetch(&database, vec![7], 0).unwrap();
    assert_eq!(envelopes(&after), vec![envelope(&first)]);
    assert_eq!(after.cursor, before.cursor);
    assert!(!after.has_more);
}

#[test]
fn rejects_missing_note() {
    let (mut database, server) = server(Config::default());
    let error = server.send_note(&mut database, SendNoteRequest { note: None }).unwrap_err();
    assert_eq!(error.code, Code::InvalidArgument);
}

#[test]
fn invalid_cursor_has_generic_message() {
    let (database, _server) = server(Config::default());
    let error = fetch(&database, vec![7], u64::MAX).unwrap_err();
    assert_eq!(error.code, Code::InvalidArgument);
    assert_eq!(error.message, "invalid cursor");
    let error = storage_status(StorageError::InvalidCursor);
    assert_eq!(error.code, Code::InvalidArgument);
    assert_eq!(error.message, "invalid cursor");
}

#[test]
fn rejects_missing_or_mismatched_note_fields() {
    let (mut database, server) = server(Config::default());
    let valid = note(1, 7);
    let mut no_header = copy(&valid);
    no_header.header = None;
    let mut no_details = copy(&valid);
    no_details.details = None;
    let mut mismatch = valid;
    mismatch.details = note(2, 7).details;
    let empty = TransportNote { header: None, details: None, after_block_num: None };
    for (note, message) in [
        (empty, "missing header"),
        (no_header, "missing header"),
        (no_details, "missing details"),
        (mismatch, "note details do not match the header"),
    ] {
        let error = send(&server, &mut database, note).unwrap_err();
        assert_eq!(error.code, Code::InvalidArgument);
        assert_eq!(error.message, message);
    }
    assert!(database.notes().is_empty());
}

#[test]
fn rejects_malformed_nested_note_fields() {
    let (mut database, server) = server(Config::default());
    let mut note = note(1, 7);
    note.details.as_mut().unwrap().truncate(3);
    let error = send(&server, &mut database, note).unwrap_err();
    assert_eq!(error.code, Code::InvalidArgument);
    assert_eq!(error.message, "malformed details");
}

#[test]
fn rejects_invalid_note_metadata() {
    let (mut database, server) = server(Config::default());
    let mut note = note(1, 7);
    // The note type follows the commitment to the details, which takes 32 bytes.
    note.header.as_mut().unwrap()[32] = 0xff;
    let error = send(&server, &mut database, note).unwrap_err();
    assert_eq!(error.code, Code::InvalidArgument);
    assert_eq!(error.message, "malformed header");
}

#[test]
fn rejects_oversized_notes_and_invalid_fetches() {
    let (mut database, server) = server(Config { max_note_size: 1, ..Config::default() });
    let error = send(&server, &mut database, note(1, 7)).unwrap_err();
    assert_eq!(error.code, Code::ResourceExhausted);
    assert_eq!(error.message, "note exceeds max-note-size");
    let error = fetch(&database, vec![7; 129], 0).unwrap_err();
    assert_eq!(error.code, Code::InvalidArgument);
    assert_eq!(error.message, "at most 128 tags are allowed");
    let error = fetch(&database, vec![], u64::MAX).unwrap_err();
    assert_eq!(error.code, Code::InvalidArgument);
    assert!(fetch(&database, vec![7; 128], 0).is_ok());
}

#[test]
fn capacity_failure_does_not_store_the_note() {
    let (mut database, server) = server(Config { max_storage_bytes: 1, ..Config::default() });
    let error = send(&server, &mut database, note(1, 7)).unwrap_err();
    assert_eq!(error.code, Code::ResourceExhausted);
    assert_eq!(error.message, "accepting this note would exceed the 1 byte limit");
    assert!(fetch(&database, vec![7], 0).unwrap().notes.is_empty());
}

#[test]
fn large_pages_fit_default_grpc_client_and_resume_without_gaps() {
    let (mut database, server) = server(Config::default());
    for serial in 1_u32..=400 {
        send(&server, &mut database, note_with_storage(serial, 77, 1024)).unwrap();
    }
    let first = fetch(&database, vec![77], 0).unwrap();
    assert!(first.has_more);
    assert!(!first.notes.is_empty());
    let second = fetch(&database, vec![77], first.cursor).unwrap();
    assert!(!second.has_more);
    assert_eq!(first.notes.len() + second.notes.len(), 400);
    let ids = first
        .notes
        .iter()
        .chain(&second.notes)
        .map(|note| (note.id.e0, note.id.e1, note.id.e2, note.id.e3))
        .collect::<std::collections::BTreeSet<_>>();
    assert_eq!(ids.len(), 400);
}

#[test]
fn decoded_notes_hold_what_their_header_says() {
    let sent = note(3, 55);
    let header = sent.header.clone().unwrap();
    let decoded = decode_send(SendNoteRequest { note: Some(sent) }).unwrap();
    assert_eq!(decoded.tag, 55);
    assert_eq!(decoded.header, header);
    // Bytes behind the header are not part of it.
    let mut padded = note(3, 55);
    padded.header.as_mut().unwrap().push(0);
    let again = decode_send(SendNoteRequest { note: Some(padded) }).unwrap();
    assert_eq!(again.id, decoded.id);
    assert_eq!(again.header, header);
}

#[test]
fn tags_are_sorted_and_distinct() {
    let request = FetchNotesRequest { tags: vec![9, 1, 5, 1, 9], cursor: 3 };
    let decoded = decode_fetch(request).unwrap();
    assert_eq!(decoded.tags, vec![1, 5, 9]);
    assert_eq!(decoded.cursor, 3);
}

#[test]
fn storage_errors_are_answered_without_their_details() {
    let capacity = storage_status(StorageError::Capacity("full".to_string()));
    assert_eq!((capacity.code, capacity.message.as_str()), (Code::ResourceExhausted, "full"));
    for error in [
        StorageError::StaleCursor,
        StorageError::Database("locked".to_string()),
        StorageError::InvalidData("negative".to_string()),
    ] {
        let status = storage_status(error);
        assert_eq!(status.code, Code::Internal);
        assert_eq!(status.message, "note storage operation failed");
    }
}

#[test]
fn configurations_are_checked() {
    assert!(Server::new(Config::default()).is_ok());
    for (config, message) in [
        (
            Config { max_note_size: 0, ..Config::default() },
            "max-note-size must be between 1 and 3145728 bytes",
        ),
        (
            Config { max_note_size: 3_145_729, ..Config::default() },
            "max-note-size must be between 1 and 3145728 bytes",
        ),
        (Config { max_connections: 0, ..Config::default() }, "max-connections must be positive"),
        (Config { request_timeout: 0, ..Config::default() }, "grpc.timeout must be positive"),
    ] {
        assert_eq!(Server::new(config).unwrap_err(), message);
    }
    let largest = Config { max_note_size: 3_145_728, ..Config::default() };
    assert!(Server::new(largest).is_ok());
    assert_eq!(Config::default().max_note_size, 512_000);
    assert_eq!(Config::default().max_storage_bytes, 1024 * 1024 * 1024);
    assert_eq!(Config::default().retention_days, 30);
    assert_eq!(Config::default().max_connections, 4096);
}

// RESPONSES
// ================================================================================================

/// A page with notes whose details can be read.
fn page(seqs: &[i64]) -> FetchPage {
    let details = note(1, 7).details.unwrap();
    let notes = seqs
        .iter()
        .map(|seq| StoredNote {
            id: miden_services::chain::Word { e0: 1, e1: 2, e2: 3, e3: 4 },
            tag: 7,
            header: vec![],
            details: details.clone(),
            created_at: 0,
            seq: *seq,
            after_block_num: None,
        })
        .collect();
    FetchPage { cursor: Cursor { nonce: 9, sequence: 0 }, notes, has_more: false }
}

fn sized(header: usize, details: usize, after_block_num: Option<u32>) -> StoredNote {
    StoredNote {
        id: miden_services::chain::Word { e0: 1, e1: 2, e2: 3, e3: 4 },
        tag: 7,
        header: vec![0; header],
        details: vec![0; details],
        created_at: 0,
        seq: 1,
        after_block_num,
    }
}

#[test]
fn an_encoded_note_holds_its_fields() {
    assert_eq!(wire_size(&sized(0, 0, None)), 4);
    // A size below 128 takes one byte, and a larger one takes two.
    assert_eq!(wire_size(&sized(127, 128, None)), 129 + 131);
    assert_eq!(wire_size(&sized(0, 0, Some(0))), 6);
    // A block number takes a message of its own, which is empty for zero.
    assert_eq!(wire_size(&sized(0, 0, Some(1))), 8);
    assert_eq!(wire_size(&sized(0, 0, Some(u32::MAX))), 12);
    assert_eq!(wire_size(&sized(3_145_728, 0, None)), 3_145_728 + 5 + 2);
}

#[test]
fn every_fetch_of_stored_notes_is_answered() {
    let (mut database, server) = server(Config::default());
    let mut sent = note(1, 7);
    sent.after_block_num = Some(300);
    send(&server, &mut database, copy(&sent)).unwrap();
    let request = FetchNotesRequest { tags: vec![9, 7, 7], cursor: 0 };
    let response = fetch_notes(&database, request).unwrap();
    assert_eq!(envelopes(&response), vec![envelope(&sent)]);
    assert_eq!((response.cursor, response.has_more), (1, false));

    // The parts give the same answer as the whole.
    let request = decode_fetch(FetchNotesRequest { tags: vec![7], cursor: 0 }).unwrap();
    let page = fetch_page(&database, &request).unwrap();
    let sizes = page.notes.iter().map(wire_size).collect();
    let parts = respond(page, &sizes, 0).unwrap();
    assert_eq!(envelopes(&parts), envelopes(&response));
}

#[test]
fn a_response_is_cut_at_its_limit() {
    // One byte for the tag of the field, four for the size, and eleven for the rest.
    let exact = MAX_RESPONSE_BYTES - 11 - 5;
    let fitting = respond(page(&[4]), &vec![exact], 3).unwrap();
    assert_eq!((fitting.notes.len(), fitting.cursor, fitting.has_more), (1, 4, false));

    let error = respond(page(&[4]), &vec![exact + 1], 3).unwrap_err();
    assert_eq!(error.code, Code::ResourceExhausted);
    assert_eq!(error.message, "stored note exceeds the response limit");
    let error = respond(page(&[4]), &vec![usize::MAX], 3).unwrap_err();
    assert_eq!(error.code, Code::ResourceExhausted);

    let cut = respond(page(&[4, 5, 6]), &vec![127, 128, exact], 3).unwrap();
    assert_eq!((cut.notes.len(), cut.cursor, cut.has_more), (2, 5, true));

    // The fields of the first two notes take 129 and 131 bytes.
    let rest = MAX_RESPONSE_BYTES - 11 - 129 - 131 - 5;
    let full = respond(page(&[4, 5, 6]), &vec![127, 128, rest], 3).unwrap();
    assert_eq!((full.notes.len(), full.cursor, full.has_more), (3, 6, false));
    let cut = respond(page(&[4, 5, 6]), &vec![127, 128, rest + 1], 3).unwrap();
    assert_eq!((cut.notes.len(), cut.cursor, cut.has_more), (2, 5, true));
}

#[test]
fn an_empty_page_keeps_the_cursor() {
    let mut more = page(&[]);
    more.has_more = true;
    let response = respond(more, &vec![], 3).unwrap();
    assert_eq!((response.notes.len(), response.cursor, response.has_more), (0, 3, true));
}

#[test]
fn broken_rows_are_answered_as_failures() {
    let error = respond(page(&[4, -1]), &vec![10, 10], 3).unwrap_err();
    assert_eq!((error.code, error.message.as_str()), (Code::Internal, "invalid stored cursor"));

    let mut broken = page(&[4]);
    broken.notes[0].details.truncate(3);
    let error = respond(broken, &vec![10], 3).unwrap_err();
    assert_eq!(error.code, Code::Internal);
    assert_eq!(error.message, "invalid stored note details");

    // A row behind the cut is looked at only as far as the cut.
    let cut = respond(page(&[4, 5, -1]), &vec![10, MAX_RESPONSE_BYTES, 10], 3).unwrap();
    assert_eq!((cut.notes.len(), cut.cursor, cut.has_more), (1, 4, true));
}
