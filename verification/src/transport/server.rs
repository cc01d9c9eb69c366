//! The requests which the service answers.

use vstd::prelude::*;

use crate::transport::db;
use crate::transport::db::fetch;
use crate::transport::db::fetch::FetchPage;
use crate::transport::db::fetch::FetchPageView;
use crate::transport::db::laws;
use crate::transport::db::store;
use crate::transport::db::Cursor;
use crate::transport::db::Database;
use crate::transport::db::DatabaseView;
use crate::transport::db::NewNote;
use crate::transport::db::NewNoteView;
use crate::transport::db::StorageError;
use crate::transport::db::StorageErrorView;
use crate::transport::db::StoreResult;
use crate::transport::db::StoredNote;
use crate::transport::db::StoredNoteView;
use crate::transport::db::FETCH_NOTES_MAX_BYTES;
use crate::transport::envelope;
use crate::transport::envelope::TransportNote;
use crate::status::Code;
use crate::status::Status;
use crate::status::StatusView;

verus! {

/// The largest response in bytes, `4 * 1024 * 1024`. It keeps responses within the default gRPC
/// client decoding limit.
pub const MAX_RESPONSE_BYTES: usize = 4194304;

/// The bytes of a response besides its notes: the fixed64 cursor and the boolean continuation field.
pub const RESPONSE_OVERHEAD_BYTES: usize = 11;

/// The largest number of tags one fetch asks for.
pub const MAX_TAGS: usize = 128;

// CONFIGURATION
// ================================================================================================

/// The limits of the service.
#[derive(Debug, Clone, Copy, PartialEq, Eq, Structural)]
pub struct Config {
    /// Maximum canonical header and detail bytes in one note.
    pub max_note_size: usize,
    /// Maximum number of concurrent requests.
    pub max_connections: usize,
    /// Maximum retained canonical header and detail bytes.
    pub max_storage_bytes: u64,
    /// Number of days to retain notes.
    pub retention_days: u32,
    /// How long one request may take, in nanoseconds.
    pub request_timeout: u128,
}

impl Config {
    /// The limits which apply where nothing else is configured. The request timeout of ten seconds is
    /// chosen here.
    pub open spec fn default_config() -> Config {
        Config {
            max_note_size: 512_000,
            max_connections: 4096,
            max_storage_bytes: 1_073_741_824,
            retention_days: 30,
            request_timeout: 10_000_000_000,
        }
    }

    /// Why the limits cannot be applied, `None` when they can.
    pub open spec fn defect(self) -> Option<Seq<char>> {
        if !(1 <= self.max_note_size <= FETCH_NOTES_MAX_BYTES) {
            Some("max-note-size must be between 1 and 3145728 bytes"@)
        } else if self.max_connections == 0 {
            Some("max-connections must be positive"@)
        } else if self.request_timeout == 0 {
            Some("grpc.timeout must be positive"@)
        } else {
            None
        }
    }
}

impl Default for Config {
    fn default() -> (config: Config)
        ensures
            config == Config::default_config(),
            config.max_note_size == 512_000,
            config.max_connections == 4096,
            config.max_storage_bytes == 1_073_741_824,
            config.retention_days == 30,
            config.request_timeout == 10_000_000_000,
    {
        Config {
            max_note_size: 512_000,
            max_connections: 4096,
            max_storage_bytes: 1_073_741_824,
            retention_days: 30,
            request_timeout: 10_000_000_000,
        }
    }
}

/// The service.
#[derive(Debug)]
pub struct Server {
    pub config: Config,
}

impl Server {
    /// Creates the service. Fails with a text when the limits cannot be applied.
    pub fn new(config: Config) -> (server: Result<Server, String>)
        ensures
            match server {
                Ok(server) => config.defect() is None && server.config == config,
                Err(message) => config.defect() == Some(message@),
            },
    {
        if config.max_note_size < 1 || config.max_note_size > FETCH_NOTES_MAX_BYTES {
            return Err("max-note-size must be between 1 and 3145728 bytes".to_owned());
        }
        if config.max_connections == 0 {
            return Err("max-connections must be positive".to_owned());
        }
        if config.request_timeout == 0 {
            return Err("grpc.timeout must be positive".to_owned());
        }
        Ok(Server { config })
    }
}

// STORAGE ERRORS
// ================================================================================================

/// How a storage error is answered.
pub open spec fn status_of(error: StorageErrorView) -> StatusView {
    match error {
        StorageErrorView::Capacity(message) => StatusView {
            code: Code::ResourceExhausted,
            message,
        },
        StorageErrorView::InvalidCursor => StatusView {
            code: Code::InvalidArgument,
            message: "invalid cursor"@,
        },
        _ => StatusView { code: Code::Internal, message: "note storage operation failed"@ },
    }
}

/// Answers a storage error.
pub fn storage_status(error: StorageError) -> (status: Status)
    ensures
        status@ == status_of(error@),
{
    match error {
        StorageError::Capacity(message) => Status { code: Code::ResourceExhausted, message },
        StorageError::InvalidCursor => Status::invalid_argument("invalid cursor"),
        _ => Status::internal("note storage operation failed"),
    }
}

// SENDING NOTES
// ================================================================================================

/// A request to store a note.
#[derive(Debug)]
pub struct SendNoteRequest {
    pub note: Option<TransportNote>,
}

/// The note which a request hands in, or why the request is refused.
pub open spec fn decoded_note(request: SendNoteRequest) -> Result<NewNoteView, StatusView> {
    match request.note {
        None => Err(StatusView { code: Code::InvalidArgument, message: "missing note"@ }),
        Some(sent) => match sent.header {
            None => Err(StatusView { code: Code::InvalidArgument, message: "missing header"@ }),
            Some(header) => match envelope::header_of_bytes(header@) {
                None => Err(
                    StatusView { code: Code::InvalidArgument, message: "malformed header"@ },
                ),
                Some(header) => match sent.details {
                    None => Err(
                        StatusView { code: Code::InvalidArgument, message: "missing details"@ },
                    ),
                    Some(details) => match envelope::details_of_bytes(details@) {
                        None => Err(
                            StatusView {
                                code: Code::InvalidArgument,
                                message: "malformed details"@,
                            },
                        ),
                        Some(details) => decoded_parts(header, details, sent.after_block_num),
                    },
                },
            },
        },
    }
}

/// The note with the given header and details, or why it is refused.
pub open spec fn decoded_parts(
    header: envelope::HeaderView,
    details: envelope::DetailsView,
    after_block_num: Option<u32>,
) -> Result<NewNoteView, StatusView> {
    if details.commitment != header.details_commitment {
        Err(
            StatusView {
                code: Code::InvalidArgument,
                message: "note details do not match the header"@,
            },
        )
    } else {
        Ok(
            NewNoteView {
                id: header.id,
                tag: header.tag,
                header: header.bytes,
                details: details.bytes,
                after_block_num,
            },
        )
    }
}

/// Reads the note which a request hands in.
pub fn decode_send(request: SendNoteRequest) -> (decoded: Result<NewNote, Status>)
    ensures
        match decoded {
            Ok(decoded) => decoded_note(request) == Ok::<NewNoteView, StatusView>(decoded@)
                && envelope::details_of_bytes(decoded.details@) is Some,
            Err(status) => decoded_note(request) == Err::<NewNoteView, StatusView>(status@),
        },
{
    let sent = match request.note {
        Some(sent) => sent,
        None => {
            return Err(Status::invalid_argument("missing note"));
        },
    };
    let header = match sent.header {
        Some(header) => header,
        None => {
            return Err(Status::invalid_argument("missing header"));
        },
    };
    let header = match envelope::read_header(header.as_slice()) {
        Some(header) => header,
        None => {
            return Err(Status::invalid_argument("malformed header"));
        },
    };
    let details = match sent.details {
        Some(details) => details,
        None => {
            return Err(Status::invalid_argument("missing details"));
        },
    };
    let details = match envelope::read_details(details.as_slice()) {
        Some(details) => details,
        None => {
            return Err(Status::invalid_argument("malformed details"));
        },
    };
    decode_parts(header, details, sent.after_block_num)
}

/// Joins a header and details. They must belong together.
pub fn decode_parts(
    header: envelope::Header,
    details: envelope::Details,
    after_block_num: Option<u32>,
) -> (decoded: Result<NewNote, Status>)
    ensures
        match decoded {
            Ok(decoded) => decoded_parts(header@, details@, after_block_num) == Ok::<
                NewNoteView,
                StatusView,
            >(decoded@),
            Err(status) => decoded_parts(header@, details@, after_block_num) == Err::<
                NewNoteView,
                StatusView,
            >(status@),
        },
{
    if details.commitment != header.details_commitment {
        return Err(Status::invalid_argument("note details do not match the header"));
    }
    Ok(
        NewNote {
            id: header.id,
            tag: header.tag,
            header: header.bytes,
            details: details.bytes,
            after_block_num,
        },
    )
}

/// The database after a note was sent, and how the sender is answered.
pub open spec fn sent_at(
    config: Config,
    database: DatabaseView,
    note: NewNoteView,
    now: Result<i64, Seq<char>>,
) -> (DatabaseView, Result<StoreResult, StatusView>) {
    if note.size() > config.max_note_size {
        (
            database,
            Err(
                StatusView {
                    code: Code::ResourceExhausted,
                    message: "note exceeds max-note-size"@,
                },
            ),
        )
    } else {
        let (after, outcome) = store::stored_at(
            database,
            note,
            now,
            config.max_storage_bytes,
            config.retention_days,
        );
        match outcome {
            Ok(result) => (after, Ok(result)),
            Err(error) => (after, Err(status_of(error))),
        }
    }
}

/// The answer to a sender, with the refusal by its view.
pub open spec fn answer<T>(result: Result<T, Status>) -> Result<T, StatusView> {
    match result {
        Ok(value) => Ok(value),
        Err(status) => Err(status@),
    }
}

impl Server {
    /// Decides what storing a note changes, and refuses a note which is too large. The change is
    /// carried out by [`store::commit`].
    pub fn plan_send(
        &self,
        database: &Database,
        note: NewNote,
        now: Result<i64, String>,
    ) -> (plan: Result<store::StorePlan, Status>)
        requires
            database@.wf(),
        ensures
            ({
                let expected = sent_at(self.config, database@, note@, store::clock_reading(now));
                match plan {
                    Ok(plan) => expected == (
                        plan.applied(database@),
                        Ok::<StoreResult, StatusView>(plan.result()),
                    ),
                    Err(status) => expected == (
                        database@,
                        Err::<StoreResult, StatusView>(status@),
                    ),
                }
            }),
            plan matches Ok(plan) ==> plan.applied(database@).wf(),
    {
        if note.header.len() > self.config.max_note_size || note.details.len()
            > self.config.max_note_size - note.header.len() {
            return Err(Status::resource_exhausted("note exceeds max-note-size"));
        }
        match store::plan_store(
            database,
            note,
            now,
            self.config.max_storage_bytes,
            self.config.retention_days,
        ) {
            Ok(plan) => Ok(plan),
            Err(error) => Err(storage_status(error)),
        }
    }

    /// Stores a note at the given time.
    pub fn send_note_at(
        &self,
        database: &mut Database,
        note: NewNote,
        now: Result<i64, String>,
    ) -> (sent: Result<StoreResult, Status>)
        requires
            old(database)@.wf(),
        ensures
            (final(database)@, answer(sent)) == sent_at(
                self.config,
                old(database)@,
                note@,
                store::clock_reading(now),
            ),
            final(database)@.wf(),
    {
        match self.plan_send(database, note, now) {
            Ok(plan) => Ok(store::commit(database, plan)),
            Err(status) => Err(status),
        }
    }

    /// Stores the note of a request.
    pub fn send_note(&self, database: &mut Database, request: SendNoteRequest) -> (sent: Result<
        StoreResult,
        Status,
    >)
        requires
            old(database)@.wf(),
        ensures
            match decoded_note(request) {
                Err(status) => answer(sent) == Err::<StoreResult, StatusView>(status)
                    && final(database)@ == old(database)@,
                Ok(note) => exists|now: Result<i64, Seq<char>>|
                    (now matches Ok(time) ==> time >= 0) && (final(database)@, answer(sent))
                        == #[trigger] sent_at(
                        self.config,
                        old(database)@,
                        note,
                        now,
                    ),
            },
            final(database)@.wf(),
    {
        match decode_send(request) {
            Err(status) => Err(status),
            Ok(note) => {
                let now = crate::clock::now_micros();
                self.send_note_at(database, note, now)
            },
        }
    }
}

// FETCHING NOTES
// ================================================================================================

/// A request for notes.
#[derive(Debug)]
pub struct FetchNotesRequest {
    pub tags: Vec<u32>,
    /// The cursor of the previous response, or zero.
    pub cursor: u64,
}

/// The notes of one response, and the cursor to go on from.
#[derive(Debug)]
pub struct FetchNotesResponse {
    pub notes: Vec<StoredNote>,
    pub cursor: u64,
    pub has_more: bool,
}

/// Why a fetch is refused before storage is asked, `None` when it is not.
pub open spec fn fetch_defect(tags: Seq<u32>, cursor: u64) -> Option<StatusView> {
    if tags.len() > MAX_TAGS {
        Some(
            StatusView {
                code: Code::InvalidArgument,
                message: "at most 128 tags are allowed"@,
            },
        )
    } else if cursor > i64::MAX {
        Some(StatusView { code: Code::InvalidArgument, message: "invalid cursor"@ })
    } else {
        None
    }
}

/// Whether `sorted` are the tags of `tags`, each once and in ascending order.
pub open spec fn is_tag_set(tags: Seq<u32>, sorted: Seq<u32>) -> bool {
    &&& forall|i: int, j: int| 0 <= i < j < sorted.len() ==> sorted[i] < sorted[j]
    &&& forall|tag: u32| #[trigger] tags.contains(tag) <==> sorted.contains(tag)
}

/// Puts a tag into a list of distinct tags in ascending order.
fn insert_tag(sorted: &mut Vec<u32>, tag: u32)
    requires
        forall|i: int, j: int| 0 <= i < j < old(sorted)@.len() ==> old(sorted)@[i] < old(sorted)@[j],
    ensures
        forall|i: int, j: int|
            0 <= i < j < final(sorted)@.len() ==> final(sorted)@[i] < final(sorted)@[j],
        forall|other: u32| #[trigger]
            final(sorted)@.contains(other) <==> old(sorted)@.contains(other) || other == tag,
{
    let ghost before = sorted@;
    let mut i: usize = 0;
    while i < sorted.len() && sorted[i] < tag
        invariant
            sorted@ == before,
            i <= sorted@.len(),
            forall|k: int| 0 <= k < i ==> sorted@[k] < tag,
        decreases sorted@.len() - i,
    {
        i = i + 1;
    }
    if i < sorted.len() && sorted[i] == tag {
        assert(before[i as int] == tag);
        return;
    }
    sorted.insert(i, tag);
    proof {
        let after = sorted@;
        assert(after == before.insert(i as int, tag));
        assert forall|other: u32| #[trigger] after.contains(other) <==> before.contains(other)
            || other == tag by {
            if before.contains(other) {
                let k = choose|k: int| 0 <= k < before.len() && before[k] == other;
                assert(after[if k < i { k } else { k + 1 }] == other);
            }
            assert(after[i as int] == tag);
            if after.contains(other) {
                let k = choose|k: int| 0 <= k < after.len() && after[k] == other;
                if k < i {
                    assert(before[k] == other);
                } else if k > i {
                    assert(before[k - 1] == other);
                }
            }
        }
    }
}

/// Checks a request for notes, and sorts its tags.
pub fn decode_fetch(request: FetchNotesRequest) -> (decoded: Result<FetchNotesRequest, Status>)
    ensures
        match decoded {
            Ok(decoded) => {
                &&& fetch_defect(request.tags@, request.cursor) is None
                &&& is_tag_set(request.tags@, decoded.tags@)
                &&& decoded.cursor == request.cursor
            },
            Err(status) => fetch_defect(request.tags@, request.cursor) == Some(status@),
        },
{
    if request.tags.len() > MAX_TAGS {
        return Err(Status::invalid_argument("at most 128 tags are allowed"));
    }
    if request.cursor > i64::MAX as u64 {
        return Err(Status::invalid_argument("invalid cursor"));
    }
    let tags = &request.tags;
    let mut sorted: Vec<u32> = Vec::new();
    let mut i: usize = 0;
    while i < tags.len()
        invariant
            i <= tags@.len(),
            forall|k: int, l: int| 0 <= k < l < sorted@.len() ==> sorted@[k] < sorted@[l],
            forall|tag: u32| #[trigger]
                tags@.take(i as int).contains(tag) <==> sorted@.contains(tag),
        decreases tags@.len() - i,
    {
        let ghost before = sorted@;
        insert_tag(&mut sorted, tags[i]);
        proof {
            let shorter = tags@.take(i as int);
            let longer = tags@.take(i + 1);
            assert forall|tag: u32| #[trigger] longer.contains(tag) <==> sorted@.contains(tag) by {
                if longer.contains(tag) {
                    let k = choose|k: int| 0 <= k < longer.len() && longer[k] == tag;
                    if k < i {
                        assert(shorter[k] == tag);
                        assert(shorter.contains(tag));
                    }
                }
                if shorter.contains(tag) {
                    let k = choose|k: int| 0 <= k < shorter.len() && shorter[k] == tag;
                    assert(longer[k] == tag);
                }
                assert(longer[i as int] == tags@[i as int]);
                assert(before.contains(tag) <==> shorter.contains(tag));
            }
        }
        i = i + 1;
    }
    assert(tags@.take(i as int) =~= tags@);
    Ok(FetchNotesRequest { tags: sorted, cursor: request.cursor })
}

/// The page which a checked request asks for.
pub fn fetch_page(database: &Database, request: &FetchNotesRequest) -> (page: Result<
    FetchPage,
    Status,
>)
    requires
        database@.wf(),
        request.cursor <= i64::MAX,
    ensures
        page matches Ok(page) && page@ == fetch::page_from(
            database@,
            request.tags@,
            request.cursor as int,
        ),
{
    let nonce: u64 = database.metadata().nonce;
    let cursor = if request.cursor == 0 {
        None
    } else {
        Some(Cursor { nonce, sequence: request.cursor })
    };
    match fetch::fetch_notes(database, &request.tags, cursor) {
        Ok(page) => Ok(page),
        Err(error) => Err(storage_status(error)),
    }
}

// RESPONSES
// ================================================================================================

/// The length of a variable-length integer: one byte for each seven bits.
pub open spec fn varint_length(value: nat) -> nat
    decreases value,
{
    if value < 128 {
        1
    } else {
        1 + varint_length(value / 128)
    }
}

/// Returns the length of a variable-length integer.
///
/// Calls `prost::encoding::encoded_len_varint`. The contract claims that the length is that of the
/// LEB128 format: one byte for each group of seven bits, and one byte for zero.
#[verifier::external_body]
pub(crate) fn encoded_len_varint(value: u64) -> (length: usize)
    ensures
        length == varint_length(value as nat),
{
    prost::encoding::encoded_len_varint(value)
}

/// The bytes which a note of the given encoded size adds to a response: a tag, the size, and the
/// note.
pub open spec fn field_size(note_bytes: usize) -> nat {
    1 + varint_length(note_bytes as nat) + note_bytes as nat
}

/// The bytes of a response with notes of the given encoded sizes.
pub open spec fn response_size(sizes: Seq<usize>) -> nat
    decreases sizes.len(),
{
    if sizes.len() == 0 {
        RESPONSE_OVERHEAD_BYTES as nat
    } else {
        response_size(sizes.drop_last()) + field_size(sizes.last())
    }
}

/// How many notes fit into one response: the longest prefix.
pub open spec fn response_length(sizes: Seq<usize>) -> int
    decreases sizes.len(),
{
    if sizes.len() == 0 {
        0
    } else {
        let before = response_length(sizes.drop_last());
        if before == sizes.len() - 1 && response_size(sizes) <= MAX_RESPONSE_BYTES {
            sizes.len() as int
        } else {
            before
        }
    }
}

/// What is wrong with a stored note, `None` when nothing is.
pub open spec fn stored_defect(stored: StoredNoteView) -> Option<StatusView> {
    if stored.seq < 0 {
        Some(StatusView { code: Code::Internal, message: "invalid stored cursor"@ })
    } else if envelope::details_of_bytes(stored.details) is None {
        Some(StatusView { code: Code::Internal, message: "invalid stored note details"@ })
    } else {
        None
    }
}

/// What is wrong with the first stored note which is not as it should be.
pub open spec fn first_defect(notes: Seq<StoredNoteView>) -> Option<StatusView>
    decreases notes.len(),
{
    if notes.len() == 0 {
        None
    } else {
        match first_defect(notes.drop_last()) {
            Some(status) => Some(status),
            None => stored_defect(notes.last()),
        }
    }
}

/// The notes which are looked at for one response: those which fit, and the one behind them.
pub open spec fn examined(notes: Seq<StoredNoteView>, sizes: Seq<usize>) -> Seq<StoredNoteView> {
    if response_length(sizes) < notes.len() {
        notes.take(response_length(sizes) + 1)
    } else {
        notes
    }
}

/// Whether `response` answers a request at `cursor` with `page`, whose notes have the given encoded
/// sizes.
pub open spec fn is_response(
    page: FetchPageView,
    sizes: Seq<usize>,
    cursor: u64,
    response: Result<FetchNotesResponse, Status>,
) -> bool {
    let count = response_length(sizes);
    match first_defect(examined(page.notes, sizes)) {
        Some(status) => response matches Err(found) && found@ == status,
        None => if count == 0 && page.notes.len() > 0 {
            response matches Err(found) && found@ == (StatusView {
                code: Code::ResourceExhausted,
                message: "stored note exceeds the response limit"@,
            })
        } else {
            &&& response is Ok
            &&& db::views(response->Ok_0.notes@) == page.notes.take(count)
            &&& response->Ok_0.cursor == (if count > 0 {
                page.notes[count - 1].seq as u64
            } else {
                cursor
            })
            &&& response->Ok_0.has_more == (page.has_more || count < page.notes.len())
        },
    }
}

proof fn lemma_response_size_of_prefix(sizes: Seq<usize>, n: int, m: int)
    requires
        0 <= n <= m <= sizes.len(),
    ensures
        response_size(sizes.take(n)) <= response_size(sizes.take(m)),
    decreases m - n,
{
    if n < m {
        lemma_response_size_of_prefix(sizes, n, m - 1);
        assert(sizes.take(m).drop_last() =~= sizes.take(m - 1));
    }
}

/// A response is as full as it can be: it stays within its limit, and with the next note it would
/// not.
pub proof fn law_response_is_bounded_and_full(sizes: Seq<usize>)
    ensures
        0 <= response_length(sizes) <= sizes.len(),
        response_size(sizes.take(response_length(sizes))) <= MAX_RESPONSE_BYTES,
        response_length(sizes) < sizes.len() ==> response_size(
            sizes.take(response_length(sizes) + 1),
        ) > MAX_RESPONSE_BYTES,
    decreases sizes.len(),
{
    if sizes.len() > 0 {
        let rest = sizes.drop_last();
        law_response_is_bounded_and_full(rest);
        let n = response_length(rest);
        assert(rest.take(n) =~= sizes.take(n));
        if n < rest.len() {
            assert(rest.take(n + 1) =~= sizes.take(n + 1));
        } else {
            assert(sizes.take(n + 1) =~= sizes);
        }
    } else {
        assert(sizes.take(0) =~= Seq::empty());
    }
}

proof fn lemma_response_is_unique(sizes: Seq<usize>, count: int)
    requires
        0 <= count <= sizes.len(),
        response_size(sizes.take(count)) <= MAX_RESPONSE_BYTES,
        count < sizes.len() ==> response_size(sizes.take(count + 1)) > MAX_RESPONSE_BYTES,
    ensures
        response_length(sizes) == count,
{
    law_response_is_bounded_and_full(sizes);
    let n = response_length(sizes);
    if n < count {
        lemma_response_size_of_prefix(sizes, n + 1, count);
    } else if count < n {
        lemma_response_size_of_prefix(sizes, count + 1, n);
    }
}

proof fn lemma_varint_length_is_small(value: nat)
    requires
        value <= MAX_RESPONSE_BYTES,
    ensures
        1 <= varint_length(value) <= 4,
{
    reveal_with_fuel(varint_length, 5);
}

proof fn lemma_first_defect_of_prefix(notes: Seq<StoredNoteView>, n: int)
    requires
        0 <= n <= notes.len(),
        first_defect(notes.take(n)) is Some,
    ensures
        first_defect(notes) == first_defect(notes.take(n)),
    decreases notes.len() - n,
{
    if n < notes.len() {
        assert(notes.take(n + 1).drop_last() =~= notes.take(n));
        lemma_first_defect_of_prefix(notes, n + 1);
    } else {
        assert(notes.take(n) =~= notes);
    }
}

/// Answers a request with a page, as far as it fits into one response. `sizes` are the encoded
/// sizes of the notes on the page, and `cursor` is the position the request asked for.
pub fn respond(page: FetchPage, sizes: &Vec<usize>, cursor: u64) -> (response: Result<
    FetchNotesResponse,
    Status,
>)
    requires
        sizes@.len() == page.notes@.len(),
    ensures
        is_response(page@, sizes@, cursor, response),
{
    let mut notes = page.notes;
    let ghost all = page@.notes;
    let mut response_bytes: usize = RESPONSE_OVERHEAD_BYTES;
    let mut last: u64 = cursor;
    let mut i: usize = 0;
    assert(sizes@.take(0) =~= Seq::empty());
    assert(all.take(0) =~= Seq::empty());
    while i < notes.len()
        invariant
            all == page@.notes,
            page@.notes == db::views(page.notes@),
            notes@ == page.notes@,
            sizes@.len() == notes@.len() == all.len(),
            i <= notes@.len(),
            response_bytes == response_size(sizes@.take(i as int)),
            response_bytes <= MAX_RESPONSE_BYTES,
            first_defect(all.take(i as int)) is None,
            last == (if i > 0 {
                all[i - 1].seq as u64
            } else {
                cursor
            }),
        decreases notes@.len() - i,
    {
        proof {
            assert(all[i as int] == notes@[i as int]@);
            assert(all.take(i + 1).drop_last() =~= all.take(i as int));
            assert(all.take(i + 1).last() == all[i as int]);
            assert(sizes@.take(i + 1).drop_last() =~= sizes@.take(i as int));
            law_response_is_bounded_and_full(sizes@);
            if response_length(sizes@) < i {
                lemma_response_size_of_prefix(sizes@, response_length(sizes@) + 1, i as int);
            }
            assert(response_length(sizes@) >= i);
        }
        let seq: i64 = notes[i].seq;
        let defect = check_stored(&notes[i]);
        if let Some(status) = defect {
            proof {
                let looked_at = examined(all, sizes@);
                assert(looked_at.take(i + 1) =~= all.take(i + 1));
                lemma_first_defect_of_prefix(looked_at, i + 1);
            }
            return Err(status);
        }
        let note_bytes: usize = sizes[i];
        let fits = if note_bytes > MAX_RESPONSE_BYTES {
            false
        } else {
            proof {
                lemma_varint_length_is_small(note_bytes as nat);
            }
            let field_bytes: usize = 1 + encoded_len_varint(note_bytes as u64) + note_bytes;
            if response_bytes + field_bytes > MAX_RESPONSE_BYTES {
                false
            } else {
                response_bytes = response_bytes + field_bytes;
                true
            }
        };
        if !fits {
            proof {
                lemma_response_is_unique(sizes@, i as int);
                assert(examined(all, sizes@) =~= all.take(i + 1));
            }
            if i == 0 {
                return Err(Status::resource_exhausted("stored note exceeds the response limit"));
            }
            notes.truncate(i);
            assert(db::views(notes@) =~= all.take(i as int));
            return Ok(FetchNotesResponse { notes, cursor: last, has_more: true });
        }
        last = seq as u64;
        i = i + 1;
    }
    proof {
        assert(sizes@.take(i as int) =~= sizes@);
        assert(all.take(i as int) =~= all);
        lemma_response_is_unique(sizes@, i as int);
    }
    Ok(FetchNotesResponse { notes, cursor: last, has_more: page.has_more })
}

/// The bytes of a block number message: a tag and the number, none where the number is zero.
pub open spec fn block_number_size(block_num: u32) -> nat {
    if block_num == 0 {
        0
    } else {
        1 + varint_length(block_num as nat)
    }
}

/// The bytes of the block number in a note: a tag, the size of the message and the message, none
/// where there is no block number.
pub open spec fn hint_size(after_block_num: Option<u32>) -> nat {
    match after_block_num {
        Some(block_num) => 1 + varint_length(block_number_size(block_num)) + block_number_size(
            block_num,
        ),
        None => 0,
    }
}

/// The encoded size of a note: its header, its details and the block number, where there is one, each
/// as a message with a tag and its size. The messages of the header and of the details are taken to
/// be as long as their serialized forms.
pub open spec fn wire_size_of(note: StoredNoteView) -> nat {
    1 + varint_length(note.header.len()) + note.header.len() + 1 + varint_length(
        note.details.len(),
    ) + note.details.len() + hint_size(note.after_block_num)
}

/// The encoded sizes of some notes.
pub open spec fn wire_sizes(notes: Seq<StoredNoteView>) -> Seq<usize> {
    notes.map_values(|note: StoredNoteView| wire_size_of(note) as usize)
}

/// Computes the encoded size of a note.
pub fn wire_size(note: &StoredNote) -> (size: usize)
    requires
        wire_size_of(note@) <= usize::MAX,
    ensures
        size == wire_size_of(note@),
{
    let header: usize = note.header.len();
    let details: usize = note.details.len();
    let parts: usize = 1 + encoded_len_varint(header as u64) + header + 1 + encoded_len_varint(
        details as u64,
    ) + details;
    match note.after_block_num {
        Some(block_num) => {
            proof {
                assert(varint_length(block_num as nat) <= 5) by {
                    reveal_with_fuel(varint_length, 6);
                }
            }
            let message: usize = if block_num == 0 {
                0
            } else {
                1 + encoded_len_varint(block_num as u64)
            };
            parts + 1 + encoded_len_varint(message as u64) + message
        },
        None => parts,
    }
}

/// A note which fits on a page fits into a response.
proof fn lemma_wire_size_is_bounded(note: StoredNoteView)
    requires
        note.size() <= FETCH_NOTES_MAX_BYTES,
    ensures
        wire_size_of(note) <= note.size() + 18,
        RESPONSE_OVERHEAD_BYTES + field_size(wire_size_of(note) as usize) <= MAX_RESPONSE_BYTES,
{
    lemma_varint_length_is_small(note.header.len());
    lemma_varint_length_is_small(note.details.len());
    if let Some(block_num) = note.after_block_num {
        assert(varint_length(block_num as nat) <= 5) by {
            reveal_with_fuel(varint_length, 6);
        }
    }
    lemma_varint_length_is_small(wire_size_of(note));
}

/// Every note on a page fits on a page by itself.
proof fn lemma_notes_of_page_fit(database: DatabaseView, tags: Seq<u32>, sequence: int)
    requires
        database.wf(),
    ensures
        ({
            let notes = fetch::page_from(database, tags, sequence).notes;
            forall|i: int|
                0 <= i < notes.len() ==> (#[trigger] notes[i]).size() <= FETCH_NOTES_MAX_BYTES
        }),
{
    let wanted = fetch::is_wanted(tags, sequence);
    let found = fetch::candidates(database.notes, tags, sequence);
    fetch::law_page_is_bounded_and_full(found);
    laws::lemma_filter(database.notes, wanted);
    let notes = fetch::page_from(database, tags, sequence).notes;
    assert forall|i: int| 0 <= i < notes.len() implies (#[trigger] notes[i]).size()
        <= FETCH_NOTES_MAX_BYTES by {
        assert(notes[i] == database.notes.filter(wanted)[i]);
        assert(database.notes.contains(notes[i]));
        let k = choose|k: int| 0 <= k < database.notes.len() && database.notes[k] == notes[i];
        assert(database.notes[k].size() <= FETCH_NOTES_MAX_BYTES);
    }
}

/// Answers a request for notes.
pub fn fetch_notes(database: &Database, request: FetchNotesRequest) -> (response: Result<
    FetchNotesResponse,
    Status,
>)
    requires
        database@.wf(),
    ensures
        match fetch_defect(request.tags@, request.cursor) {
            Some(status) => response matches Err(found) && found@ == status,
            None => {
                let page = fetch::page_from(database@, request.tags@, request.cursor as int);
                is_response(page, wire_sizes(page.notes), request.cursor, response)
            },
        },
{
    let ghost asked = request.tags@;
    let request = match decode_fetch(request) {
        Ok(request) => request,
        Err(status) => {
            return Err(status);
        },
    };
    let page = match fetch_page(database, &request) {
        Ok(page) => page,
        Err(status) => {
            return Err(status);
        },
    };
    proof {
        law_tags_are_a_set(database@, asked, request.tags@, request.cursor as int);
        lemma_notes_of_page_fit(database@, asked, request.cursor as int);
    }
    let ghost notes = page@.notes;
    let mut sizes: Vec<usize> = Vec::new();
    while sizes.len() < page.notes.len()
        invariant
            notes == page@.notes,
            sizes@.len() <= notes.len(),
            notes.len() == page.notes@.len(),
            forall|i: int|
                0 <= i < notes.len() ==> (#[trigger] notes[i]).size() <= FETCH_NOTES_MAX_BYTES,
            sizes@ =~= wire_sizes(notes.take(sizes@.len() as int)),
        decreases notes.len() - sizes@.len(),
    {
        let note = &page.notes[sizes.len()];
        proof {
            assert(note@ == notes[sizes@.len() as int]);
            lemma_wire_size_is_bounded(note@);
        }
        let size: usize = wire_size(note);
        sizes.push(size);
    }
    assert(notes.take(sizes@.len() as int) =~= notes);
    respond(page, &sizes, request.cursor)
}

/// Checks that a stored note can be delivered.
fn check_stored(stored: &StoredNote) -> (defect: Option<Status>)
    ensures
        match defect {
            Some(status) => stored_defect(stored@) == Some(status@),
            None => stored_defect(stored@) is None,
        },
{
    if stored.seq < 0 {
        return Some(Status::internal("invalid stored cursor"));
    }
    match envelope::read_details(stored.details.as_slice()) {
        Some(_) => None,
        None => Some(Status::internal("invalid stored note details")),
    }
}

// LAWS OF THE SERVICE
// ================================================================================================

/// It makes no difference in which order tags are asked for, nor how often.
pub proof fn law_tags_are_a_set(
    database: DatabaseView,
    tags: Seq<u32>,
    sorted: Seq<u32>,
    sequence: int,
)
    requires
        is_tag_set(tags, sorted),
    ensures
        fetch::page_from(database, sorted, sequence) == fetch::page_from(
            database,
            tags,
            sequence,
        ),
{
    assert(fetch::is_wanted(sorted, sequence) =~= fetch::is_wanted(tags, sequence)) by {
        assert forall|stored: StoredNoteView| #[trigger]
            fetch::is_wanted(sorted, sequence)(stored) == fetch::is_wanted(tags, sequence)(
                stored,
            ) by {
            assert(tags.contains(stored.tag) <==> sorted.contains(stored.tag));
        }
    }
}

/// A refused request changes nothing.
pub proof fn law_refused_send_changes_nothing(
    config: Config,
    database: DatabaseView,
    note: NewNoteView,
    now: Result<i64, Seq<char>>,
)
    requires
        sent_at(config, database, note, now).1 is Err,
    ensures
        sent_at(config, database, note, now).0 == database,
{
}

/// Whether the details of every stored note can be read.
pub open spec fn deliverable(database: DatabaseView) -> bool {
    forall|i: int|
        0 <= i < database.notes.len() ==> envelope::details_of_bytes(
            (#[trigger] database.notes[i]).details,
        ) is Some
}

/// Every note which the service accepts can be delivered: as long as what is handed in can be read,
/// so can everything which is stored.
pub proof fn law_stored_notes_stay_deliverable(
    config: Config,
    database: DatabaseView,
    note: NewNoteView,
    now: Result<i64, Seq<char>>,
)
    requires
        deliverable(database),
        envelope::details_of_bytes(note.details) is Some,
    ensures
        deliverable(sent_at(config, database, note, now).0),
{
    let after = sent_at(config, database, note, now).0;
    if after != database {
        let cutoff = store::cutoff_of(now->Ok_0, config.retention_days);
        let keep = |old_note: StoredNoteView|
            !db::cleanup::is_removed(database.notes, cutoff, db::CLEANUP_MAX_NOTES, old_note);
        let kept = database.notes.filter(keep);
        laws::lemma_filter(database.notes, keep);
        assert forall|i: int| 0 <= i < after.notes.len() implies envelope::details_of_bytes(
            (#[trigger] after.notes[i]).details,
        ) is Some by {
            if i < kept.len() {
                assert(database.notes.contains(kept[i]));
                let k = choose|k: int| 0 <= k < database.notes.len() && database.notes[k]
                    == kept[i];
                assert(envelope::details_of_bytes(database.notes[k].details) is Some);
            }
        }
    }
}

proof fn lemma_no_defect(notes: Seq<StoredNoteView>)
    requires
        forall|i: int| 0 <= i < notes.len() ==> stored_defect(#[trigger] notes[i]) is None,
    ensures
        first_defect(notes) is None,
    decreases notes.len(),
{
    if notes.len() > 0 {
        let rest = notes.drop_last();
        assert forall|i: int| 0 <= i < rest.len() implies stored_defect(#[trigger] rest[i])
            is None by {
            assert(stored_defect(notes[i]) is None);
        }
        lemma_no_defect(rest);
        assert(stored_defect(notes[notes.len() - 1]) is None);
    }
}

/// A page of deliverable notes, of which the first fits into a response, is always answered.
pub proof fn law_deliverable_page_is_answered(
    database: DatabaseView,
    tags: Seq<u32>,
    cursor: u64,
    sizes: Seq<usize>,
    response: Result<FetchNotesResponse, Status>,
)
    requires
        database.wf(),
        deliverable(database),
        ({
            let page = fetch::page_from(database, tags, cursor as int);
            &&& sizes.len() == page.notes.len()
            &&& sizes.len() > 0 ==> RESPONSE_OVERHEAD_BYTES + field_size(sizes[0])
                <= MAX_RESPONSE_BYTES
            &&& is_response(page, sizes, cursor, response)
        }),
    ensures
        response is Ok,
{
    let page = fetch::page_from(database, tags, cursor as int);
    let wanted = fetch::is_wanted(tags, cursor as int);
    let found = fetch::candidates(database.notes, tags, cursor as int);
    laws::lemma_filter(database.notes, wanted);
    fetch::law_page_is_bounded_and_full(found);
    law_response_is_bounded_and_full(sizes);
    let looked_at = examined(page.notes, sizes);
    assert forall|i: int| 0 <= i < looked_at.len() implies stored_defect(#[trigger] looked_at[i])
        is None by {
        assert(looked_at[i] == database.notes.filter(wanted)[i]);
        assert(database.notes.contains(looked_at[i]));
        let k = choose|k: int| 0 <= k < database.notes.len() && database.notes[k] == looked_at[i];
        assert(database.notes[k].seq > 0);
        assert(envelope::details_of_bytes(database.notes[k].details) is Some);
    }
    lemma_no_defect(looked_at);
    if sizes.len() > 0 && response_length(sizes) == 0 {
        let one = sizes.take(1);
        assert(one.drop_last() =~= Seq::empty());
        assert(response_size(one.drop_last()) == RESPONSE_OVERHEAD_BYTES);
    }
}

/// A fetch is refused only for what it asks: as long as the details of every stored note can be
/// read, every request for at most so many tags, at a cursor within range, is answered with notes.
pub proof fn law_fetch_is_answered(
    database: DatabaseView,
    tags: Seq<u32>,
    cursor: u64,
    response: Result<FetchNotesResponse, Status>,
)
    requires
        database.wf(),
        deliverable(database),
        fetch_defect(tags, cursor) is None,
        ({
            let page = fetch::page_from(database, tags, cursor as int);
            is_response(page, wire_sizes(page.notes), cursor, response)
        }),
    ensures
        response is Ok,
{
    let page = fetch::page_from(database, tags, cursor as int);
    lemma_notes_of_page_fit(database, tags, cursor as int);
    if page.notes.len() > 0 {
        lemma_wire_size_is_bounded(page.notes[0]);
    }
    law_deliverable_page_is_answered(
        database,
        tags,
        cursor,
        wire_sizes(page.notes),
        response,
    );
}

/// Responses resume without gaps and without overlap: the notes of a response and those behind its
/// cursor are together exactly the notes behind the position which was asked for, and there is more
/// exactly when something is behind the cursor.
pub proof fn law_responses_resume_without_gaps(
    database: DatabaseView,
    tags: Seq<u32>,
    cursor: u64,
    sizes: Seq<usize>,
    response: Result<FetchNotesResponse, Status>,
)
    requires
        database.wf(),
        cursor <= i64::MAX,
        ({
            let page = fetch::page_from(database, tags, cursor as int);
            sizes.len() == page.notes.len() && is_response(page, sizes, cursor, response)
        }),
        response is Ok,
    ensures
        ({
            let answered = response->Ok_0;
            let rest = fetch::candidates(database.notes, tags, answered.cursor as int);
            &&& fetch::candidates(database.notes, tags, cursor as int) == db::views(
                answered.notes@,
            ) + rest
            &&& answered.has_more <==> rest.len() > 0
        }),
{
    let page = fetch::page_from(database, tags, cursor as int);
    let found = fetch::candidates(database.notes, tags, cursor as int);
    let count = response_length(sizes);
    let answered = response->Ok_0;
    fetch::law_page_is_bounded_and_full(found);
    law_response_is_bounded_and_full(sizes);
    assert(laws::all_in_order(database.notes));
    laws::lemma_filter(database.notes, fetch::is_wanted(tags, cursor as int));
    if count > 0 {
        assert(page.notes[count - 1] == found[count - 1]);
        assert(database.notes.contains(found[count - 1]));
        let k = choose|k: int|
            0 <= k < database.notes.len() && database.notes[k] == found[count - 1];
        assert(database.notes[k].seq > 0);
        laws::lemma_later_candidates(database.notes, tags, cursor as int, count);
        assert(page.notes.take(count) =~= found.take(count));
        assert(found =~= found.take(count) + found.skip(count));
    } else {
        if found.len() > 0 {
            laws::law_paging_makes_progress(database, tags, cursor as int);
        }
        assert(found =~= page.notes.take(0) + found);
    }
}

/// What is sent is fetched: right after the service accepted a note for the first time, a fetch of
/// its tag from just before its cursor returns that note as it was sent.
pub proof fn law_sent_note_is_fetched(
    config: Config,
    database: DatabaseView,
    note: NewNoteView,
    now: Result<i64, Seq<char>>,
    tags: Seq<u32>,
)
    requires
        database.wf(),
        sent_at(config, database, note, now).1 == Ok::<StoreResult, StatusView>(
            StoreResult::Inserted,
        ),
        tags.contains(note.tag),
    ensures
        ({
            let seq = database.metadata.next_cursor;
            let page = fetch::page_from(sent_at(config, database, note, now).0, tags, seq - 1);
            &&& page.notes == seq![note.stored(seq, now->Ok_0)]
            &&& page.cursor.sequence == seq
            &&& !page.has_more
        }),
{
    laws::law_stored_note_is_delivered(
        database,
        note,
        now,
        config.max_storage_bytes,
        config.retention_days,
        tags,
    );
}

// LAWS OF LIMITS AND REFUSALS
// ================================================================================================

/// Limits can be applied exactly when a note may have a size, at most that of a page, and when at
/// least one request may be served for some time. Otherwise the first of them which is wrong is named.
pub proof fn law_limits_are_positive(config: Config)
    ensures
        config.defect() is None <==> 1 <= config.max_note_size <= 3_145_728 && config.max_connections
            > 0 && config.request_timeout > 0,
        config.max_note_size < 1 || config.max_note_size > 3_145_728 ==> config.defect() == Some(
            "max-note-size must be between 1 and 3145728 bytes"@,
        ),
        1 <= config.max_note_size <= 3_145_728 && config.max_connections == 0 ==> config.defect()
            == Some("max-connections must be positive"@),
        1 <= config.max_note_size <= 3_145_728 && config.max_connections > 0
            && config.request_timeout == 0 ==> config.defect() == Some(
            "grpc.timeout must be positive"@,
        ),
{
}

/// A sender learns of a want of room in the words of storage, a caller of a cursor which storage does
/// not hand out, and nobody of what else went wrong inside.
pub proof fn law_storage_errors_are_answered(message: Seq<char>, error: StorageErrorView)
    ensures
        status_of(StorageErrorView::Capacity(message)).code == Code::ResourceExhausted,
        status_of(StorageErrorView::Capacity(message)).message == message,
        status_of(StorageErrorView::InvalidCursor).code == Code::InvalidArgument,
        status_of(StorageErrorView::InvalidCursor).message == "invalid cursor"@,
        !(error is Capacity) && !(error is InvalidCursor) ==> status_of(error).code
            == Code::Internal && status_of(error).message == "note storage operation failed"@,
{
}

/// A request hands in a note exactly when its header and its details are there, can be read, and
/// belong together. The note then has the ID and the tag of the header, both parts as they are
/// serialized again, and the block of the request.
pub proof fn law_request_hands_in_a_whole_note(request: SendNoteRequest)
    ensures
        decoded_note(request) is Ok <==> {
            &&& request.note is Some
            &&& request.note->0.header is Some
            &&& envelope::header_of_bytes(request.note->0.header->0@) is Some
            &&& request.note->0.details is Some
            &&& envelope::details_of_bytes(request.note->0.details->0@) is Some
            &&& envelope::header_of_bytes(request.note->0.header->0@)->0.details_commitment
                == envelope::details_of_bytes(request.note->0.details->0@)->0.commitment
        },
        decoded_note(request) matches Ok(note) ==> {
            let header = envelope::header_of_bytes(request.note->0.header->0@)->0;
            let details = envelope::details_of_bytes(request.note->0.details->0@)->0;
            &&& note.id == header.id
            &&& note.tag == header.tag
            &&& note.header == header.bytes
            &&& note.details == details.bytes
            &&& note.after_block_num == request.note->0.after_block_num
        },
        decoded_note(request) matches Err(status) ==> status.code == Code::InvalidArgument,
{
}

/// What a request lacks is named, the header before the details.
pub proof fn law_unreadable_request_is_refused(
    request: SendNoteRequest,
    sent: TransportNote,
    header: Vec<u8>,
    details: Vec<u8>,
)
    ensures
        decoded_note(SendNoteRequest { note: None }) matches Err(status) && status.message
            == "missing note"@,
        request.note == Some(sent) && sent.header is None ==> (decoded_note(request) matches Err(
            status,
        ) && status.message == "missing header"@),
        request.note == Some(sent) && sent.header == Some(header) && envelope::header_of_bytes(
            header@,
        ) is None ==> (decoded_note(request) matches Err(status) && status.message
            == "malformed header"@),
        request.note == Some(sent) && sent.header == Some(header) && envelope::header_of_bytes(
            header@,
        ) is Some && sent.details is None ==> (decoded_note(request) matches Err(status)
            && status.message == "missing details"@),
        request.note == Some(sent) && sent.header == Some(header) && envelope::header_of_bytes(
            header@,
        ) is Some && sent.details == Some(details) && envelope::details_of_bytes(details@) is None
            ==> (decoded_note(request) matches Err(status) && status.message
            == "malformed details"@),
        request.note == Some(sent) && sent.header == Some(header) && envelope::header_of_bytes(
            header@,
        ) is Some && sent.details == Some(details) && envelope::details_of_bytes(details@) is Some
            && envelope::details_of_bytes(details@)->0.commitment != envelope::header_of_bytes(
            header@,
        )->0.details_commitment ==> (decoded_note(request) matches Err(status) && status.message
            == "note details do not match the header"@),
{
}

/// A header and details join to a note exactly when the header commits to the details.
pub proof fn law_parts_join_when_they_belong_together(
    header: envelope::HeaderView,
    details: envelope::DetailsView,
    after_block_num: Option<u32>,
)
    ensures
        decoded_parts(header, details, after_block_num) is Ok <==> header.details_commitment
            == details.commitment,
        decoded_parts(header, details, after_block_num) matches Ok(note) ==> note.id == header.id
            && note.tag == header.tag && note.header == header.bytes && note.details
            == details.bytes && note.after_block_num == after_block_num,
        decoded_parts(header, details, after_block_num) matches Err(status) ==> status.code
            == Code::InvalidArgument && status.message == "note details do not match the header"@,
{
}

/// The service refuses a note whose header and details are together larger than configured, and
/// hands every other one to storage, with the configured room and retention.
pub proof fn law_service_applies_its_limits(
    config: Config,
    database: DatabaseView,
    note: NewNoteView,
    now: Result<i64, Seq<char>>,
)
    ensures
        ({
            let (after, answered) = sent_at(config, database, note, now);
            let (stored, outcome) = store::stored_at(
                database,
                note,
                now,
                config.max_storage_bytes,
                config.retention_days,
            );
            let too_large = note.header.len() + note.details.len() > config.max_note_size;
            &&& too_large ==> after == database
            &&& too_large ==> (answered matches Err(status) && status.code
                == Code::ResourceExhausted && status.message == "note exceeds max-note-size"@)
            &&& !too_large ==> after == stored
            &&& !too_large ==> (answered is Ok <==> outcome is Ok)
            &&& !too_large && outcome is Ok ==> answered->Ok_0 == outcome->Ok_0
            &&& !too_large ==> (outcome matches Err(StorageErrorView::Capacity(message)) ==> (
            answered matches Err(status) && status.code == Code::ResourceExhausted && status.message
                == message))
            &&& !too_large ==> (outcome matches Err(StorageErrorView::InvalidData(_)) ==> (
            answered matches Err(status) && status.code == Code::Internal))
        }),
{
}

/// A fetch is refused before storage is asked exactly when it names more than 128 tags or a cursor
/// beyond every one which storage hands out.
pub proof fn law_fetch_is_limited(tags: Seq<u32>, cursor: u64)
    ensures
        fetch_defect(tags, cursor) is None <==> tags.len() <= 128 && cursor < 0x8000_0000_0000_0000,
        fetch_defect(tags, cursor) matches Some(status) ==> status.code == Code::InvalidArgument,
        tags.len() > 128 ==> fetch_defect(tags, cursor)->0.message
            == "at most 128 tags are allowed"@,
        tags.len() <= 128 && cursor >= 0x8000_0000_0000_0000 ==> fetch_defect(tags, cursor)->0.message
            == "invalid cursor"@,
{
}

// LAWS OF RESPONSES
// ================================================================================================

/// A variable-length integer takes as many bytes as it has groups of seven bits, and at least one.
pub proof fn law_varint_has_a_byte_for_seven_bits(value: nat)
    ensures
        varint_length(value) >= 1,
        value < vstd::arithmetic::power::pow(128, varint_length(value)),
        varint_length(value) > 1 ==> value >= vstd::arithmetic::power::pow(
            128,
            (varint_length(value) - 1) as nat,
        ),
    decreases value,
{
    reveal(vstd::arithmetic::power::pow);
    if value >= 128 {
        law_varint_has_a_byte_for_seven_bits(value / 128);
        assert(varint_length(value) == 1 + varint_length(value / 128));
        if varint_length(value / 128) == 1 {
            assert(vstd::arithmetic::power::pow(128, 1) == 128 * vstd::arithmetic::power::pow(128, 0));
        }
    } else {
        assert(vstd::arithmetic::power::pow(128, 1) == 128 * vstd::arithmetic::power::pow(128, 0));
    }
}

/// A response takes eleven bytes, and for each note a tag, the length of its size, and its size.
pub proof fn law_response_counts_each_note(sizes: Seq<usize>, note_bytes: usize)
    ensures
        response_size(Seq::empty()) == 11,
        response_size(sizes.push(note_bytes)) == response_size(sizes) + 1 + varint_length(
            note_bytes as nat,
        ) + note_bytes,
{
    assert(sizes.push(note_bytes).drop_last() =~= sizes);
}

/// A note is encoded as its header, its details and its block number, each with a tag and a length.
/// A block number which is zero is an empty message, and one which is missing takes nothing.
pub proof fn law_encoded_note_holds_its_parts(note: StoredNoteView)
    ensures
        ({
            let header = note.header.len();
            let details = note.details.len();
            let parts = 2 + varint_length(header) + header + varint_length(details) + details;
            &&& note.after_block_num is None ==> wire_size_of(note) == parts
            &&& note.after_block_num == Some(0u32) ==> wire_size_of(note) == parts + 2
            &&& note.after_block_num matches Some(block_num) ==> block_num > 0 ==> wire_size_of(note)
                == parts + 3 + varint_length(block_num as nat)
        }),
{
    if let Some(block_num) = note.after_block_num {
        assert(varint_length(block_num as nat) <= 5) by {
            reveal_with_fuel(varint_length, 6);
        }
    }
}

/// A response holds the longest run of the page, from its start, which keeps it within 4 MiB. Its
/// cursor is that of its last note, or the one which was asked for, and there is more exactly when
/// notes of the page were left out or the page says so.
pub proof fn law_response_is_the_longest_which_fits(
    page: FetchPageView,
    sizes: Seq<usize>,
    cursor: u64,
    response: Result<FetchNotesResponse, Status>,
)
    requires
        sizes.len() == page.notes.len(),
        is_response(page, sizes, cursor, response),
        response is Ok,
    ensures
        ({
            let answered = response->Ok_0;
            let count = answered.notes@.len() as int;
            &&& count <= page.notes.len()
            &&& forall|i: int| 0 <= i < count ==> (#[trigger] answered.notes@[i])@ == page.notes[i]
            &&& response_size(sizes.take(count)) <= 4_194_304
            &&& count < page.notes.len() ==> response_size(sizes.take(count + 1)) > 4_194_304
            &&& count == 0 ==> answered.cursor == cursor && page.notes.len() == 0
            &&& count > 0 ==> answered.cursor == page.notes[count - 1].seq
            &&& answered.has_more <==> page.has_more || count < page.notes.len()
        }),
{
    law_response_is_bounded_and_full(sizes);
    let answered = response->Ok_0;
    let count = response_length(sizes);
    let views = db::views(answered.notes@);
    assert(views.len() == count);
    assert forall|i: int| 0 <= i < count implies (#[trigger] answered.notes@[i])@
        == page.notes[i] by {
        assert(views[i] == page.notes[i]);
    }
    if count > 0 {
        let looked_at = examined(page.notes, sizes);
        assert(looked_at[count - 1] == page.notes[count - 1]);
        lemma_defect_of_element(looked_at, count - 1);
    }
}

proof fn lemma_defect_of_element(notes: Seq<StoredNoteView>, i: int)
    requires
        0 <= i < notes.len(),
        first_defect(notes) is None,
    ensures
        stored_defect(notes[i]) is None,
    decreases notes.len(),
{
    if i < notes.len() - 1 {
        lemma_defect_of_element(notes.drop_last(), i);
    }
}

/// The first defect of some notes is that of one of them, with no defect before it.
proof fn lemma_first_defect_is_of_a_note(notes: Seq<StoredNoteView>) -> (i: int)
    requires
        first_defect(notes) is Some,
    ensures
        0 <= i < notes.len(),
        first_defect(notes) == stored_defect(notes[i]),
    decreases notes.len(),
{
    if first_defect(notes.drop_last()) is Some {
        lemma_first_defect_is_of_a_note(notes.drop_last())
    } else {
        notes.len() - 1
    }
}

/// A page is answered unless a note on it has a negative cursor or details which cannot be read, or
/// its first note alone does not fit.
pub proof fn law_response_is_refused_only_for_a_note(
    page: FetchPageView,
    sizes: Seq<usize>,
    cursor: u64,
    response: Result<FetchNotesResponse, Status>,
)
    requires
        sizes.len() == page.notes.len(),
        is_response(page, sizes, cursor, response),
        forall|i: int|
            0 <= i < page.notes.len() ==> (#[trigger] page.notes[i]).seq >= 0
                && envelope::details_of_bytes(page.notes[i].details) is Some,
    ensures
        response is Err <==> sizes.len() > 0 && response_size(sizes.take(1)) > 4_194_304,
        response matches Err(status) ==> status@.code == Code::ResourceExhausted && status@.message
            == "stored note exceeds the response limit"@,
{
    law_response_is_bounded_and_full(sizes);
    let looked_at = examined(page.notes, sizes);
    assert forall|i: int| 0 <= i < looked_at.len() implies stored_defect(#[trigger] looked_at[i])
        is None by {
        assert(looked_at[i] == page.notes[i]);
    }
    lemma_no_defect(looked_at);
    if sizes.len() > 0 && response_length(sizes) > 0 {
        lemma_response_size_of_prefix(sizes, 1, response_length(sizes));
    }
}

/// A response which comes to a note with a negative cursor, or with details which cannot be read, is
/// refused as an internal failure, which names what is wrong with the first note where something is.
pub proof fn law_defective_note_is_not_delivered(
    page: FetchPageView,
    sizes: Seq<usize>,
    cursor: u64,
    response: Result<FetchNotesResponse, Status>,
    i: int,
)
    requires
        sizes.len() == page.notes.len(),
        is_response(page, sizes, cursor, response),
        0 <= i < page.notes.len(),
        response_size(sizes.take(i)) <= 4_194_304,
        page.notes[i].seq < 0 || envelope::details_of_bytes(page.notes[i].details) is None,
    ensures
        response matches Err(status) && status@.code == Code::Internal && (status@.message
            == "invalid stored cursor"@ || status@.message == "invalid stored note details"@),
        page.notes[0].seq < 0 ==> (response matches Err(status) && status@.message
            == "invalid stored cursor"@),
        page.notes[0].seq >= 0 && envelope::details_of_bytes(page.notes[0].details) is None ==> (
        response matches Err(status) && status@.message == "invalid stored note details"@),
{
    law_response_is_bounded_and_full(sizes);
    let looked_at = examined(page.notes, sizes);
    if response_length(sizes) < i {
        lemma_response_size_of_prefix(sizes, response_length(sizes) + 1, i);
    }
    assert(looked_at[i] == page.notes[i]);
    if first_defect(looked_at) is None {
        lemma_defect_of_element(looked_at, i);
    }
    let k = lemma_first_defect_is_of_a_note(looked_at);
    assert(looked_at[0] == page.notes[0]);
    if stored_defect(page.notes[0]) is Some {
        let one = looked_at.take(1);
        assert(one.drop_last() =~= Seq::empty());
        assert(first_defect(one.drop_last()) is None);
        assert(first_defect(one) == stored_defect(page.notes[0]));
        lemma_first_defect_of_prefix(looked_at, 1);
    }
}

/// An answer is seen by its value or its refusal.
pub proof fn law_answer_is_seen_whole(value: StoreResult, status: Status)
    ensures
        answer(Ok::<StoreResult, Status>(value)) == Ok::<StoreResult, StatusView>(value),
        answer(Err::<StoreResult, Status>(status)) == Err::<StoreResult, StatusView>(status@),
{
}

/// The tags of a set are those which were asked for, each once and in ascending order.
pub proof fn law_tag_set_holds_each_tag_once(tags: Seq<u32>, sorted: Seq<u32>)
    requires
        is_tag_set(tags, sorted),
    ensures
        forall|i: int| 0 <= i < tags.len() ==> sorted.contains(#[trigger] tags[i]),
        forall|i: int| 0 <= i < sorted.len() ==> tags.contains(#[trigger] sorted[i]),
        forall|i: int, j: int| 0 <= i < j < sorted.len() ==> sorted[i] < sorted[j],
{
    assert forall|i: int| 0 <= i < tags.len() implies sorted.contains(#[trigger] tags[i]) by {
        assert(tags.contains(tags[i]));
    }
    assert forall|i: int| 0 <= i < sorted.len() implies tags.contains(#[trigger] sorted[i]) by {
        assert(sorted.contains(sorted[i]));
    }
}

/// The encoded sizes of some notes are those of each of them, in order.
pub proof fn law_encoded_sizes_are_those_of_the_notes(notes: Seq<StoredNoteView>, i: int)
    requires
        0 <= i < notes.len(),
        notes[i].header.len() + notes[i].details.len() <= 3_145_728,
    ensures
        wire_sizes(notes).len() == notes.len(),
        wire_sizes(notes)[i] == wire_size_of(notes[i]),
{
    lemma_wire_size_is_bounded(notes[i]);
}

} // verus!
