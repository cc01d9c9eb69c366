//! The notes which travel through the service, and how they are read.

use miden_protocol::note::NoteDetails;
use miden_protocol::note::NoteHeader;
use miden_protocol::utils::serde::Deserializable;
use miden_protocol::utils::serde::Serializable;
use vstd::prelude::*;

use crate::chain::Word;

verus! {

/// A note on the wire: its serialized header and details, and the block after which the receiver
/// may look for it.
#[derive(Debug)]
pub struct TransportNote {
    pub header: Option<Vec<u8>>,
    pub details: Option<Vec<u8>>,
    pub after_block_num: Option<u32>,
}

// HEADERS
// ================================================================================================

/// What a serialized note header says. `bytes` is the header as storage serializes it again.
pub struct HeaderView {
    pub id: Word,
    pub tag: u32,
    pub details_commitment: Word,
    pub bytes: Seq<u8>,
}

/// What `miden_protocol` reads out of a serialized note header, `None` for bytes which are not one.
pub uninterp spec fn header_of_bytes(bytes: Seq<u8>) -> Option<HeaderView>;

/// A note header as it is read from bytes.
#[derive(Debug)]
pub struct Header {
    pub id: Word,
    pub tag: u32,
    pub details_commitment: Word,
    pub bytes: Vec<u8>,
}

impl View for Header {
    type V = HeaderView;

    open spec fn view(&self) -> HeaderView {
        HeaderView {
            id: self.id,
            tag: self.tag,
            details_commitment: self.details_commitment,
            bytes: self.bytes@,
        }
    }
}

/// Reads a serialized note header.
///
/// Calls `miden_protocol::note::NoteHeader::read_from_bytes`, its accessors and
/// `miden_protocol::note::NoteHeader::to_bytes`. The contract names what is read.
#[verifier::external_body]
pub(crate) fn read_header(bytes: &[u8]) -> (header: Option<Header>)
    ensures
        header is Some <==> header_of_bytes(bytes@) is Some,
        header matches Some(header) ==> header_of_bytes(bytes@) == Some(header@),
{
    let header = NoteHeader::read_from_bytes(bytes).ok()?;
    let [a, b, c, d]: [u64; 4] = header.id().as_word().into();
    let [e, f, g, h]: [u64; 4] = header.details_commitment().as_word().into();
    Some(
        Header {
            id: Word { e0: a, e1: b, e2: c, e3: d },
            tag: header.metadata().tag().as_u32(),
            details_commitment: Word { e0: e, e1: f, e2: g, e3: h },
            bytes: header.to_bytes(),
        },
    )
}

// DETAILS
// ================================================================================================

/// What serialized note details say. `bytes` are the details as storage serializes them again.
pub struct DetailsView {
    pub commitment: Word,
    pub bytes: Seq<u8>,
}

/// What `miden_protocol` reads out of serialized note details, `None` for bytes which are not some.
pub uninterp spec fn details_of_bytes(bytes: Seq<u8>) -> Option<DetailsView>;

/// Note details as they are read from bytes.
#[derive(Debug)]
pub struct Details {
    pub commitment: Word,
    pub bytes: Vec<u8>,
}

impl View for Details {
    type V = DetailsView;

    open spec fn view(&self) -> DetailsView {
        DetailsView { commitment: self.commitment, bytes: self.bytes@ }
    }
}

/// Reads serialized note details.
///
/// Calls `miden_protocol::note::NoteDetails::read_from_bytes`, its accessors and
/// `miden_protocol::note::NoteDetails::to_bytes`. The contract names what is read, and claims that
/// what was serialized again can be read again and commits to the same details.
#[verifier::external_body]
pub(crate) fn read_details(bytes: &[u8]) -> (details: Option<Details>)
    ensures
        details is Some <==> details_of_bytes(bytes@) is Some,
        details matches Some(details) ==> details_of_bytes(bytes@) == Some(details@),
        details matches Some(details) ==> details_of_bytes(details.bytes@) is Some
            && details_of_bytes(details.bytes@)->0.commitment == details.commitment,
{
    let details = NoteDetails::read_from_bytes(bytes).ok()?;
    let [a, b, c, d]: [u64; 4] = details.commitment().as_word().into();
    Some(Details { commitment: Word { e0: a, e1: b, e2: c, e3: d }, bytes: details.to_bytes() })
}

/// A header and details are seen with all that was read of them.
pub proof fn law_envelope_is_seen_whole(header: Header, details: Details)
    ensures
        header@.id == header.id,
        header@.tag == header.tag,
        header@.details_commitment == header.details_commitment,
        header@.bytes == header.bytes@,
        details@.commitment == details.commitment,
        details@.bytes == details.bytes@,
{
}

} // verus!
