//! The values of the chain which the services reason about: words, account IDs, assets and notes.

use miden_protocol::account::AccountId as ProtocolId;
use miden_protocol::asset::Asset as ProtocolAsset;
use miden_protocol::asset::FungibleAsset;
use miden_protocol::crypto::rand::RandomCoin;
use miden_protocol::note::Note as ProtocolNote;
use miden_protocol::note::NoteAttachments;
use miden_protocol::note::NoteScriptRoot;
use miden_protocol::note::NoteTag;
use miden_protocol::note::NoteType as ProtocolNoteType;
use miden_protocol::utils::serde::Deserializable;
use miden_protocol::utils::serde::Serializable;
use miden_protocol::Felt as ProtocolFelt;
use miden_protocol::Word as ProtocolWord;
use miden_standards::note::P2idNote;
use miden_standards::note::P2idNoteStorage;
use miden_standards::note::StandardNote;
use vstd::prelude::*;

use crate::text;

verus! {

/// The number of elements of the base field, `2^64 - 2^32 + 1`.
pub const FIELD_ORDER: u64 = 0xffff_ffff_0000_0001;

/// The largest amount one fungible asset holds, `2^63 - 2^31`.
pub const MAX_ASSET_AMOUNT: u64 = 0x7fff_ffff_8000_0000;

/// The largest number of assets one note holds.
pub const MAX_ASSETS_PER_NOTE: usize = 64;

// WORD
// ================================================================================================

/// Four field elements: the shape of commitments, nullifiers and IDs.
#[derive(Debug, Clone, Copy, PartialEq, Eq, Structural)]
pub struct Word {
    pub e0: u64,
    pub e1: u64,
    pub e2: u64,
    pub e3: u64,
}

impl Word {
    /// The word with the given elements.
    pub open spec fn of_elements(elements: Seq<u64>) -> Word {
        Word { e0: elements[0], e1: elements[1], e2: elements[2], e3: elements[3] }
    }

    /// Builds a word from its elements.
    pub fn from_elements(elements: [u64; 4]) -> (word: Word)
        ensures
            word == Word::of_elements(elements@),
    {
        Word { e0: elements[0], e1: elements[1], e2: elements[2], e3: elements[3] }
    }
}

// ACCOUNT ID
// ================================================================================================

/// Whether `prefix` and `suffix` are the two elements of an account ID.
///
/// The low nibble of the prefix holds the version. The suffix has its most significant bit and its
/// low byte cleared.
pub open spec fn valid_account_id(prefix: u64, suffix: u64) -> bool {
    &&& prefix < FIELD_ORDER
    &&& prefix % 16 == 1
    &&& suffix < 0x8000_0000_0000_0000
    &&& suffix % 256 == 0
}

/// The two elements of an account ID.
pub struct AccountIdView {
    pub prefix: u64,
    pub suffix: u64,
}

/// The ID of an account.
#[derive(Debug, Clone, Copy, PartialEq, Eq, Structural)]
pub struct AccountId {
    prefix: u64,
    suffix: u64,
}

impl View for AccountId {
    type V = AccountIdView;

    closed spec fn view(&self) -> AccountIdView {
        AccountIdView { prefix: self.prefix, suffix: self.suffix }
    }
}

/// The account ID which `hex` encodes: `0x` and thirty hexadecimal digits, of which the first
/// sixteen are the prefix and the others are the upper seven bytes of the suffix.
pub open spec fn account_id_of_hex(hex: Seq<char>) -> Option<AccountIdView> {
    let prefix = text::hex_value(hex.subrange(2, 18)) as u64;
    let suffix = (256 * text::hex_value(hex.subrange(18, 32))) as u64;
    let digits = forall|i: int| 2 <= i < 32 ==> text::is_hex_digit(#[trigger] hex[i]);
    if hex.len() == 32 && hex[0] == '0' && hex[1] == 'x' && digits && valid_account_id(
        prefix,
        suffix,
    ) {
        Some(AccountIdView { prefix, suffix })
    } else {
        None
    }
}

impl AccountId {
    #[verifier::type_invariant]
    spec fn constraints(self) -> bool {
        valid_account_id(self.prefix, self.suffix)
    }

    /// Two account IDs with the same elements are the same account ID.
    pub proof fn lemma_extensional(self, other: AccountId)
        ensures
            self@ == other@ <==> self == other,
    {
    }

    /// Builds an account ID from its two elements. Returns `None` when they violate the constraints
    /// on account IDs.
    pub fn from_elements(suffix: u64, prefix: u64) -> (id: Option<AccountId>)
        ensures
            id is Some <==> valid_account_id(prefix, suffix),
            id matches Some(id) ==> id@ == (AccountIdView { prefix, suffix }),
    {
        if prefix < FIELD_ORDER && prefix % 16 == 1 && suffix < 0x8000_0000_0000_0000 && suffix
            % 256 == 0 {
            Some(AccountId { prefix, suffix })
        } else {
            None
        }
    }

    /// The prefix of the account ID.
    pub fn prefix(&self) -> (prefix: u64)
        ensures
            prefix == self@.prefix,
    {
        self.prefix
    }

    /// The suffix of the account ID.
    pub fn suffix(&self) -> (suffix: u64)
        ensures
            suffix == self@.suffix,
    {
        self.suffix
    }

    /// Parses an account ID.
    ///
    /// Calls `miden_protocol::account::AccountId::from_hex`. The contract claims that the call
    /// accepts exactly the texts which encode a valid account ID, and returns that ID.
    #[verifier::external_body]
    pub(crate) fn from_hex(hex: &str) -> (id: Option<AccountId>)
        ensures
            id is Some <==> account_id_of_hex(hex@) is Some,
            id matches Some(id) ==> account_id_of_hex(hex@) == Some(id@),
    {
        let id = ProtocolId::from_hex(hex).ok()?;
        Some(
            AccountId {
                prefix: id.prefix().as_u64(),
                suffix: id.suffix().as_canonical_u64(),
            },
        )
    }
}

/// The note tag which targets an account: the fourteen most significant bits of the prefix, followed
/// by eighteen zeros.
pub open spec fn account_target_tag(account: AccountIdView) -> u32 {
    ((account.prefix / 0x4_0000_0000_0000) * 0x4_0000) as u32
}

/// Returns the note tag which targets `account`.
///
/// Calls `miden_protocol::note::NoteTag::with_account_target`. The contract claims that the tag is
/// the leading fourteen bits of the account ID prefix, with the remaining bits set to zero.
#[verifier::external_body]
pub(crate) fn tag_with_account_target(account: AccountId) -> (tag: u32)
    ensures
        tag == account_target_tag(account@),
{
    let prefix = ProtocolFelt::new_unchecked(account.prefix);
    let suffix = ProtocolFelt::new_unchecked(account.suffix);
    NoteTag::with_account_target(ProtocolId::new_unchecked([prefix, suffix])).as_u32()
}

// ASSETS
// ================================================================================================

/// One asset of a note.
#[derive(Debug, Clone, Copy, PartialEq, Eq, Structural)]
pub enum Asset {
    /// An amount of the fungible asset which `faucet_id` issues.
    Fungible { faucet_id: AccountId, callbacks: bool, amount: u64 },
    /// A non-fungible asset, by its key in a vault.
    NonFungible { key: Word },
}

impl Asset {
    /// Whether a vault keeps the two assets under one key.
    pub open spec fn same_key(self, other: Asset) -> bool {
        match (self, other) {
            (
                Asset::Fungible { faucet_id, callbacks, .. },
                Asset::Fungible { faucet_id: other_faucet, callbacks: other_callbacks, .. },
            ) => faucet_id == other_faucet && callbacks == other_callbacks,
            (Asset::NonFungible { key }, Asset::NonFungible { key: other_key }) => key == other_key,
            _ => false,
        }
    }

    /// The amount of the asset which `faucet` issued, zero for every other asset.
    pub open spec fn amount_from(self, faucet: AccountId) -> nat {
        match self {
            Asset::Fungible { faucet_id, amount, .. } => if faucet_id == faucet {
                amount as nat
            } else {
                0
            },
            Asset::NonFungible { .. } => 0,
        }
    }

    fn has_same_key(&self, other: &Asset) -> (same: bool)
        ensures
            same == self.same_key(*other),
    {
        match (*self, *other) {
            (
                Asset::Fungible { faucet_id, callbacks, .. },
                Asset::Fungible { faucet_id: other_faucet, callbacks: other_callbacks, .. },
            ) => faucet_id == other_faucet && callbacks == other_callbacks,
            (Asset::NonFungible { key }, Asset::NonFungible { key: other_key }) => key == other_key,
            _ => false,
        }
    }
}

/// Whether `assets` can be the assets of one note: not too many, no amount too large, and no two
/// under one vault key.
pub open spec fn valid_assets(assets: Seq<Asset>) -> bool {
    &&& assets.len() <= MAX_ASSETS_PER_NOTE
    &&& forall|i: int|
        0 <= i < assets.len() ==> (#[trigger] assets[i] matches Asset::Fungible { amount, .. }
            ==> amount <= MAX_ASSET_AMOUNT)
    &&& forall|i: int, j: int|
        0 <= i < j < assets.len() ==> !(#[trigger] assets[i]).same_key(#[trigger] assets[j])
}

/// The sum of what `assets` hold of the asset which `faucet` issues.
pub open spec fn total_from(assets: Seq<Asset>, faucet: AccountId) -> nat
    decreases assets.len(),
{
    if assets.len() == 0 {
        0
    } else {
        total_from(assets.drop_last(), faucet) + assets.last().amount_from(faucet)
    }
}

/// What `assets` hold of one asset with one callback setting.
spec fn total_under_key(assets: Seq<Asset>, faucet: AccountId, flag: bool) -> nat
    decreases assets.len(),
{
    if assets.len() == 0 {
        0
    } else {
        let rest = total_under_key(assets.drop_last(), faucet, flag);
        match assets.last() {
            Asset::Fungible { faucet_id, callbacks, amount } if faucet_id == faucet && callbacks
                == flag => rest + amount as nat,
            _ => rest,
        }
    }
}

proof fn lemma_total_under_key(assets: Seq<Asset>, faucet: AccountId, flag: bool)
    requires
        valid_assets(assets),
    ensures
        total_under_key(assets, faucet, flag) <= MAX_ASSET_AMOUNT,
        (forall|i: int|
            0 <= i < assets.len() ==> !(#[trigger] assets[i]).same_key(
                Asset::Fungible { faucet_id: faucet, callbacks: flag, amount: 0 },
            )) ==> total_under_key(assets, faucet, flag) == 0,
    decreases assets.len(),
{
    if assets.len() > 0 {
        let rest = assets.drop_last();
        assert forall|i: int, j: int| 0 <= i < j < rest.len() implies !(
        #[trigger] rest[i]).same_key(#[trigger] rest[j]) by {
            assert(!assets[i].same_key(assets[j]));
        }
        assert(forall|i: int| 0 <= i < rest.len() ==> rest[i] == assets[i]);
        lemma_total_under_key(rest, faucet, flag);
        let last = assets.last();
        if last.same_key(Asset::Fungible { faucet_id: faucet, callbacks: flag, amount: 0 }) {
            assert forall|i: int| 0 <= i < rest.len() implies !(#[trigger] rest[i]).same_key(
                Asset::Fungible { faucet_id: faucet, callbacks: flag, amount: 0 },
            ) by {
                assert(!assets[i].same_key(assets[assets.len() - 1]));
            }
        }
    }
}

proof fn lemma_total_splits(assets: Seq<Asset>, faucet: AccountId)
    ensures
        total_from(assets, faucet) == total_under_key(assets, faucet, true) + total_under_key(
            assets,
            faucet,
            false,
        ),
    decreases assets.len(),
{
    if assets.len() > 0 {
        lemma_total_splits(assets.drop_last(), faucet);
    }
}

proof fn lemma_total_is_monotonic(assets: Seq<Asset>, faucet: AccountId, n: int)
    requires
        0 <= n <= assets.len(),
    ensures
        total_from(assets.take(n), faucet) <= total_from(assets, faucet),
    decreases assets.len() - n,
{
    if n < assets.len() {
        lemma_total_is_monotonic(assets, faucet, n + 1);
        assert(assets.take(n + 1).drop_last() =~= assets.take(n));
    } else {
        assert(assets.take(n) =~= assets);
    }
}

/// The assets of one note never hold more than a `u64` of one issuer: an issuer has at most two
/// vault keys, one per callback setting.
pub proof fn lemma_total_fits(assets: Seq<Asset>, faucet: AccountId)
    requires
        valid_assets(assets),
    ensures
        total_from(assets, faucet) <= u64::MAX,
{
    lemma_total_splits(assets, faucet);
    lemma_total_under_key(assets, faucet, true);
    lemma_total_under_key(assets, faucet, false);
}

// NOTES
// ================================================================================================

/// Where the details of a note are kept.
#[derive(Debug, Clone, Copy, PartialEq, Eq, Structural)]
pub enum NoteType {
    /// The chain stores the details of the note.
    Public,
    /// The chain stores only a commitment to the note.
    Private,
}

/// What the services read of a note.
pub struct NoteView {
    pub id: Word,
    pub nullifier: Word,
    pub sender: AccountIdView,
    pub note_type: NoteType,
    pub script_root: Word,
    pub storage: Seq<u64>,
    pub assets: Seq<Asset>,
    pub bytes: Seq<u8>,
}

/// What the serialized form of a note determines.
pub struct NoteContent {
    pub id: Word,
    pub nullifier: Word,
    pub sender: AccountIdView,
    pub note_type: NoteType,
    pub script_root: Word,
    pub storage: Seq<u64>,
    pub assets: Seq<Asset>,
}

impl NoteView {
    /// The note without its serialized form.
    pub open spec fn content(self) -> NoteContent {
        NoteContent {
            id: self.id,
            nullifier: self.nullifier,
            sender: self.sender,
            note_type: self.note_type,
            script_root: self.script_root,
            storage: self.storage,
            assets: self.assets,
        }
    }
}

/// What `miden_protocol` reads out of a serialized note, `None` for bytes which are not a note.
pub uninterp spec fn note_of_bytes(bytes: Seq<u8>) -> Option<NoteContent>;

/// An asset as it is read from bytes.
pub(crate) enum DecodedAsset {
    Fungible { prefix: u64, suffix: u64, callbacks: u8, amount: u64 },
    NonFungible { key: [u64; 4] },
}

/// A note as it is read from bytes.
pub(crate) struct DecodedNote {
    id: [u64; 4],
    nullifier: [u64; 4],
    sender_prefix: u64,
    sender_suffix: u64,
    is_public: bool,
    script_root: [u64; 4],
    storage: Vec<u64>,
}

impl DecodedAsset {
    /// Whether `asset` is this asset.
    spec fn describes(self, asset: Asset) -> bool {
        match (self, asset) {
            (
                DecodedAsset::Fungible { prefix, suffix, callbacks, amount },
                Asset::Fungible { faucet_id, callbacks: enabled, amount: held },
            ) => {
                &&& faucet_id@ == (AccountIdView { prefix, suffix })
                &&& enabled == (callbacks == 1)
                &&& held == amount
            },
            (DecodedAsset::NonFungible { key }, Asset::NonFungible { key: word }) => word
                == Word::of_elements(key@),
            _ => false,
        }
    }

    spec fn valid(self) -> bool {
        self matches DecodedAsset::Fungible { prefix, suffix, .. } ==> valid_account_id(
            prefix,
            suffix,
        )
    }

    fn to_asset(&self) -> (asset: Asset)
        requires
            self.valid(),
        ensures
            self.describes(asset),
    {
        match *self {
            DecodedAsset::Fungible { prefix, suffix, callbacks, amount } => {
                let faucet_id = AccountId { prefix, suffix };
                Asset::Fungible { faucet_id, callbacks: callbacks == 1, amount }
            },
            DecodedAsset::NonFungible { key } => Asset::NonFungible {
                key: Word::from_elements(key),
            },
        }
    }
}

impl DecodedNote {
    /// Whether `content` is what was read.
    spec fn describes(self, content: NoteContent) -> bool {
        &&& content.id == Word::of_elements(self.id@)
        &&& content.nullifier == Word::of_elements(self.nullifier@)
        &&& content.sender == (AccountIdView {
            prefix: self.sender_prefix,
            suffix: self.sender_suffix,
        })
        &&& content.note_type == (if self.is_public {
            NoteType::Public
        } else {
            NoteType::Private
        })
        &&& content.script_root == Word::of_elements(self.script_root@)
        &&& content.storage == self.storage@
    }
}

/// Whether `assets` are the assets which were read.
spec fn describes_assets(decoded: Seq<DecodedAsset>, assets: Seq<Asset>) -> bool {
    &&& assets.len() == decoded.len()
    &&& forall|i: int|
        #![trigger decoded[i]]
        #![trigger assets[i]]
        0 <= i < decoded.len() ==> decoded[i].describes(assets[i])
}

/// Reads a serialized note, all but its assets.
///
/// Calls `miden_protocol::note::Note::read_from_bytes` and the accessors of the note. The contract
/// names what is read, and claims that the sender is a valid account ID and that every storage
/// element is a canonical field element.
#[verifier::external_body]
fn decode_note(bytes: &[u8]) -> (decoded: Option<DecodedNote>)
    ensures
        decoded is Some <==> note_of_bytes(bytes@) is Some,
        decoded matches Some(decoded) ==> decoded.describes(note_of_bytes(bytes@)->0),
        decoded matches Some(decoded) ==> valid_account_id(
            decoded.sender_prefix,
            decoded.sender_suffix,
        ),
        decoded matches Some(decoded) ==> (forall|i: int|
            0 <= i < decoded.storage@.len() ==> (#[trigger] decoded.storage@[i]) < FIELD_ORDER),
{
    let note = ProtocolNote::read_from_bytes(bytes).ok()?;
    Some(
        DecodedNote {
            id: note.id().as_word().into(),
            nullifier: note.nullifier().as_word().into(),
            sender_prefix: note.metadata().sender().prefix().as_u64(),
            sender_suffix: note.metadata().sender().suffix().as_canonical_u64(),
            is_public: note.metadata().is_public(),
            script_root: ProtocolWord::from(note.script().root()).into(),
            storage: note.storage().items().iter().map(|item| item.as_canonical_u64()).collect(),
        },
    )
}

/// Reads the assets of a serialized note.
///
/// Calls `miden_protocol::note::Note::read_from_bytes` and the accessors of the note's assets. The
/// contract names what is read, and claims that every issuer is a valid account ID and that the
/// assets are ones which `miden_protocol::note::NoteAssets` accepts.
#[verifier::external_body]
fn decode_note_assets(bytes: &[u8]) -> (decoded: Option<Vec<DecodedAsset>>)
    ensures
        decoded is Some <==> note_of_bytes(bytes@) is Some,
        decoded matches Some(decoded) ==> describes_assets(
            decoded@,
            note_of_bytes(bytes@)->0.assets,
        ),
        decoded matches Some(decoded) ==> valid_assets(note_of_bytes(bytes@)->0.assets),
        decoded matches Some(decoded) ==> (forall|i: int|
            0 <= i < decoded@.len() ==> (#[trigger] decoded@[i]).valid()),
{
    let note = ProtocolNote::read_from_bytes(bytes).ok()?;
    let assets = note.assets().iter().map(|asset| match asset {
        ProtocolAsset::Fungible(asset) => DecodedAsset::Fungible {
            prefix: asset.faucet_id().prefix().as_u64(),
            suffix: asset.faucet_id().suffix().as_canonical_u64(),
            callbacks: asset.callbacks().as_u8(),
            amount: asset.amount().as_u64(),
        },
        ProtocolAsset::NonFungible(asset) => DecodedAsset::NonFungible {
            key: asset.to_key_word().into(),
        },
    });
    Some(assets.collect())
}

/// Whether the storage elements and the assets can be those of a note.
pub open spec fn valid_note_parts(storage: Seq<u64>, assets: Seq<Asset>) -> bool {
    &&& forall|i: int| 0 <= i < storage.len() ==> (#[trigger] storage[i]) < FIELD_ORDER
    &&& valid_assets(assets)
}

/// A note: its identity, the account which created it, the script and the storage of its recipient, its assets, and the bytes it
/// is serialized as.
#[derive(Debug)]
pub struct Note {
    id: Word,
    nullifier: Word,
    sender: AccountId,
    note_type: NoteType,
    script_root: Word,
    storage: Vec<u64>,
    assets: Vec<Asset>,
    bytes: Vec<u8>,
}

impl View for Note {
    type V = NoteView;

    closed spec fn view(&self) -> NoteView {
        NoteView {
            id: self.id,
            nullifier: self.nullifier,
            sender: self.sender@,
            note_type: self.note_type,
            script_root: self.script_root,
            storage: self.storage@,
            assets: self.assets@,
            bytes: self.bytes@,
        }
    }
}

proof fn lemma_describes_one_asset(decoded: DecodedAsset, asset: Asset, other: Asset)
    requires
        decoded.describes(asset),
        decoded.describes(other),
    ensures
        asset == other,
{
    match (asset, other) {
        (
            Asset::Fungible { faucet_id, .. },
            Asset::Fungible { faucet_id: other_faucet, .. },
        ) => {
            faucet_id.lemma_extensional(other_faucet);
        },
        _ => {},
    }
}

fn collect_assets(decoded: &Vec<DecodedAsset>) -> (assets: Vec<Asset>)
    requires
        forall|i: int| 0 <= i < decoded@.len() ==> (#[trigger] decoded@[i]).valid(),
    ensures
        assets@.len() == decoded@.len(),
        forall|i: int|
            0 <= i < decoded@.len() ==> (#[trigger] decoded@[i]).describes(assets@[i]),
{
    let mut assets: Vec<Asset> = Vec::new();
    while assets.len() < decoded.len()
        invariant
            assets@.len() <= decoded@.len(),
            forall|i: int| 0 <= i < decoded@.len() ==> (#[trigger] decoded@[i]).valid(),
            forall|i: int|
                0 <= i < assets@.len() ==> (#[trigger] decoded@[i]).describes(assets@[i]),
        decreases decoded@.len() - assets@.len(),
    {
        let asset = decoded[assets.len()].to_asset();
        assets.push(asset);
    }
    assets
}

fn storage_is_canonical(storage: &Vec<u64>) -> (canonical: bool)
    ensures
        canonical == forall|i: int|
            0 <= i < storage@.len() ==> (#[trigger] storage@[i]) < FIELD_ORDER,
{
    let mut i: usize = 0;
    while i < storage.len()
        invariant
            i <= storage@.len(),
            forall|k: int| 0 <= k < i ==> (#[trigger] storage@[k]) < FIELD_ORDER,
        decreases storage@.len() - i,
    {
        if storage[i] >= FIELD_ORDER {
            return false;
        }
        i = i + 1;
    }
    true
}

fn assets_are_valid(assets: &Vec<Asset>) -> (valid: bool)
    ensures
        valid == valid_assets(assets@),
{
    if assets.len() > MAX_ASSETS_PER_NOTE {
        return false;
    }
    let mut i: usize = 0;
    while i < assets.len()
        invariant
            i <= assets@.len(),
            forall|k: int|
                0 <= k < i ==> (#[trigger] assets@[k] matches Asset::Fungible { amount, .. }
                    ==> amount <= MAX_ASSET_AMOUNT),
            forall|k: int, l: int|
                0 <= k < l < i ==> !(#[trigger] assets@[k]).same_key(#[trigger] assets@[l]),
        decreases assets@.len() - i,
    {
        if let Asset::Fungible { amount, .. } = assets[i] {
            if amount > MAX_ASSET_AMOUNT {
                return false;
            }
        }
        let mut j: usize = 0;
        while j < i
            invariant
                j <= i < assets@.len(),
                forall|k: int| 0 <= k < j ==> !(#[trigger] assets@[k]).same_key(assets@[i as int]),
            decreases i - j,
        {
            if assets[j].has_same_key(&assets[i]) {
                return false;
            }
            j = j + 1;
        }
        i = i + 1;
    }
    true
}

impl Note {
    #[verifier::type_invariant]
    spec fn constraints(self) -> bool {
        valid_note_parts(self.storage@, self.assets@)
    }

    /// Builds a note from its parts. Returns `None` when the storage or the assets cannot be those
    /// of a note.
    pub fn new(
        id: Word,
        nullifier: Word,
        sender: AccountId,
        note_type: NoteType,
        script_root: Word,
        storage: Vec<u64>,
        assets: Vec<Asset>,
        bytes: Vec<u8>,
    ) -> (note: Option<Note>)
        ensures
            note is Some <==> valid_note_parts(storage@, assets@),
            note matches Some(note) ==> note@ == (NoteView {
                id,
                nullifier,
                sender: sender@,
                note_type,
                script_root,
                storage: storage@,
                assets: assets@,
                bytes: bytes@,
            }),
    {
        if storage_is_canonical(&storage) && assets_are_valid(&assets) {
            Some(Note { id, nullifier, sender, note_type, script_root, storage, assets, bytes })
        } else {
            None
        }
    }

    /// Reads a serialized note. Returns `None` when the bytes are not those of a note.
    pub fn read_from_bytes(bytes: Vec<u8>) -> (note: Option<Note>)
        ensures
            note is Some <==> note_of_bytes(bytes@) is Some,
            note matches Some(note) ==> note_of_bytes(bytes@) == Some(note@.content()) && note@.bytes
                == bytes@,
    {
        let decoded = match decode_note(bytes.as_slice()) {
            Some(decoded) => decoded,
            None => {
                return None;
            },
        };
        let decoded_assets = match decode_note_assets(bytes.as_slice()) {
            Some(decoded_assets) => decoded_assets,
            None => {
                return None;
            },
        };
        let note_type = if decoded.is_public {
            NoteType::Public
        } else {
            NoteType::Private
        };
        let sender = AccountId { prefix: decoded.sender_prefix, suffix: decoded.sender_suffix };
        let assets = collect_assets(&decoded_assets);
        proof {
            let content = note_of_bytes(bytes@)->0;
            assert forall|i: int| 0 <= i < assets@.len() implies assets@[i]
                == content.assets[i] by {
                lemma_describes_one_asset(decoded_assets@[i], assets@[i], content.assets[i]);
            }
            assert(assets@ =~= content.assets);
        }
        Some(
            Note {
                id: Word::from_elements(decoded.id),
                nullifier: Word::from_elements(decoded.nullifier),
                sender,
                note_type,
                script_root: Word::from_elements(decoded.script_root),
                storage: decoded.storage,
                assets,
                bytes,
            },
        )
    }

    /// The ID of the note.
    pub fn id(&self) -> (id: Word)
        ensures
            id == self@.id,
    {
        self.id
    }

    /// The nullifier which marks the note as spent.
    pub fn nullifier(&self) -> (nullifier: Word)
        ensures
            nullifier == self@.nullifier,
    {
        self.nullifier
    }

    /// The account which created the note.
    pub fn sender(&self) -> (sender: AccountId)
        ensures
            sender@ == self@.sender,
    {
        self.sender
    }

    /// Where the details of the note are kept.
    pub fn note_type(&self) -> (note_type: NoteType)
        ensures
            note_type == self@.note_type,
    {
        self.note_type
    }

    /// The root of the note's script.
    pub fn script_root(&self) -> (root: Word)
        ensures
            root == self@.script_root,
    {
        self.script_root
    }

    /// The storage elements of the note's recipient.
    pub fn storage(&self) -> (storage: &Vec<u64>)
        ensures
            storage@ == self@.storage,
            valid_note_parts(self@.storage, self@.assets),
    {
        proof {
            use_type_invariant(self);
        }
        &self.storage
    }

    /// The assets of the note.
    pub fn assets(&self) -> (assets: &Vec<Asset>)
        ensures
            assets@ == self@.assets,
            valid_note_parts(self@.storage, self@.assets),
    {
        proof {
            use_type_invariant(self);
        }
        &self.assets
    }

    /// The serialized note.
    pub fn bytes(&self) -> (bytes: &Vec<u8>)
        ensures
            bytes@ == self@.bytes,
    {
        &self.bytes
    }

    /// The amount which the note holds of the asset issued by `faucet`.
    pub fn amount_from(&self, faucet: AccountId) -> (amount: u64)
        ensures
            amount == total_from(self@.assets, faucet),
    {
        proof {
            use_type_invariant(self);
            lemma_total_fits(self.assets@, faucet);
        }
        let mut sum: u64 = 0;
        let mut i: usize = 0;
        while i < self.assets.len()
            invariant
                i <= self.assets@.len(),
                sum == total_from(self.assets@.take(i as int), faucet),
                total_from(self.assets@, faucet) <= u64::MAX,
            decreases self.assets@.len() - i,
        {
            proof {
                lemma_total_is_monotonic(self.assets@, faucet, i + 1);
                assert(self.assets@.take(i + 1).drop_last() =~= self.assets@.take(i as int));
            }
            if let Asset::Fungible { faucet_id, amount, .. } = self.assets[i] {
                if faucet_id == faucet {
                    sum = sum + amount;
                }
            }
            i = i + 1;
        }
        assert(self.assets@.take(i as int) =~= self.assets@);
        sum
    }
}

// PAY-TO-ID NOTES
// ================================================================================================

/// Whether `miden_standards` recognizes a script root as that of the pay-to-ID note.
pub uninterp spec fn is_p2id_root_of(root: Word) -> bool;

/// Reports whether a script root is that of the pay-to-ID note.
///
/// Calls `miden_standards::note::StandardNote::from_script_root`. The contract names whether the call
/// recognizes the root as that of the pay-to-ID note. A word with an element which is not a canonical
/// field element is no root.
#[verifier::external_body]
pub(crate) fn is_p2id_root(root: Word) -> (is_root: bool)
    ensures
        is_root == is_p2id_root_of(root),
{
    let root = match ProtocolWord::try_from([root.e0, root.e1, root.e2, root.e3]) {
        Ok(root) => NoteScriptRoot::from_raw(root),
        Err(_) => return false,
    };
    matches!(StandardNote::from_script_root(root), Some(StandardNote::P2ID))
}

/// The account which pay-to-ID storage names: two elements, the suffix of the account ID and then
/// its prefix.
pub open spec fn p2id_target(storage: Seq<u64>) -> Option<AccountIdView> {
    if storage.len() == 2 && valid_account_id(storage[1], storage[0]) {
        Some(AccountIdView { prefix: storage[1], suffix: storage[0] })
    } else {
        None
    }
}

/// Reads the target account out of pay-to-ID storage.
///
/// Calls `miden_standards::note::P2idNoteStorage::try_from`. The contract claims that the call
/// accepts exactly two elements which form a valid account ID, the suffix first, and that the
/// target is that account.
#[verifier::external_body]
pub(crate) fn p2id_storage_target(storage: &Vec<u64>) -> (target: Option<AccountId>)
    requires
        forall|i: int| 0 <= i < storage@.len() ==> (#[trigger] storage@[i]) < FIELD_ORDER,
    ensures
        target is Some <==> p2id_target(storage@) is Some,
        target matches Some(target) ==> p2id_target(storage@) == Some(target@),
{
    let elements: Vec<ProtocolFelt> = storage.iter().map(
        |element| ProtocolFelt::new_unchecked(*element),
    ).collect();
    let target = P2idNoteStorage::try_from(elements.as_slice()).ok()?.target();
    Some(
        AccountId {
            prefix: target.prefix().as_u64(),
            suffix: target.suffix().as_canonical_u64(),
        },
    )
}

/// Whether `content` is a public pay-to-ID note which `sender` created, which targets `target` and
/// holds `amount` of the asset which `faucet` issues, and nothing else.
pub open spec fn is_payment(
    content: NoteContent,
    sender: AccountIdView,
    target: AccountIdView,
    faucet: AccountId,
    amount: u64,
) -> bool {
    &&& content.sender == sender
    &&& content.note_type == NoteType::Public
    &&& is_p2id_root_of(content.script_root)
    &&& content.storage == seq![target.suffix, target.prefix]
    &&& content.assets == seq![Asset::Fungible { faucet_id: faucet, callbacks: false, amount }]
}

/// The serialized pay-to-ID note which `miden_standards` builds with a serial number drawn from a
/// generator seeded with `seed`.
pub uninterp spec fn p2id_note_bytes_of(
    sender: AccountIdView,
    target: AccountIdView,
    faucet: AccountIdView,
    amount: u64,
    seed: Seq<u32>,
) -> Seq<u8>;

/// What is said of an amount which one asset cannot hold.
pub open spec fn amount_too_big_text(amount: u64) -> Seq<char> {
    "fungible asset amount "@ + text::decimal(amount as nat)
        + " exceeds the max allowed amount of "@ + text::decimal(MAX_ASSET_AMOUNT as nat)
}

/// Builds a public pay-to-ID note and serializes it. Fails with a text when one asset cannot hold
/// `amount`.
///
/// Calls `miden_protocol::asset::FungibleAsset::new`, `miden_standards::note::P2idNote::create` and
/// `miden_protocol::note::Note::to_bytes`. The contract claims that only an amount above the largest
/// one is refused, and with which text. It names the bytes of the note, and claims that reading them gives back a public note by the sender, with the pay-to-ID script, the target in its storage
/// and the amount as its only asset.
#[verifier::external_body]
pub(crate) fn p2id_note_bytes(
    sender: AccountId,
    target: AccountId,
    faucet: AccountId,
    amount: u64,
    seed: [u32; 4],
) -> (bytes: Result<Vec<u8>, String>)
    ensures
        bytes is Ok <==> amount <= MAX_ASSET_AMOUNT,
        bytes matches Err(message) ==> message@ == amount_too_big_text(amount),
        bytes matches Ok(bytes) ==> bytes@ == p2id_note_bytes_of(
            sender@,
            target@,
            faucet@,
            amount,
            seed@,
        ),
        bytes matches Ok(bytes) ==> note_of_bytes(bytes@) is Some && is_payment(
            note_of_bytes(bytes@)->0,
            sender@,
            target@,
            faucet,
            amount,
        ),
{
    let element = ProtocolFelt::new_unchecked;
    let sender = ProtocolId::new_unchecked([element(sender.prefix), element(sender.suffix)]);
    let target = ProtocolId::new_unchecked([element(target.prefix), element(target.suffix)]);
    let faucet = ProtocolId::new_unchecked([element(faucet.prefix), element(faucet.suffix)]);
    let asset = FungibleAsset::new(faucet, amount).map_err(|error| error.to_string())?;
    let mut rng = RandomCoin::new(ProtocolWord::from(seed));
    let attachments = NoteAttachments::empty();
    let assets = vec![asset.into()];
    P2idNote::create(sender, target, assets, ProtocolNoteType::Public, attachments, &mut rng)
        .map(|note| note.to_bytes())
        .map_err(|error| error.to_string())
}

// LAWS OF AMOUNTS
// ================================================================================================

/// A note holds of an issuer what its fungible assets of that issuer hold together: every such asset
/// counts with its amount, whatever its callback setting, and every other asset counts nothing.
pub proof fn law_each_asset_counts_once(assets: Seq<Asset>, asset: Asset, faucet: AccountId)
    ensures
        total_from(Seq::empty(), faucet) == 0,
        total_from(assets.push(asset), faucet) - total_from(assets, faucet) == (match asset {
            Asset::Fungible { faucet_id, callbacks: _, amount } if faucet_id == faucet =>
                amount as int,
            _ => 0,
        }),
{
    assert(assets.push(asset).drop_last() =~= assets);
}

/// The tag of an account is its leading fourteen bits: a multiple of `2^18` which, moved to the upper
/// half of the prefix, differs from the prefix by less than `2^50`.
pub proof fn law_tag_holds_the_leading_bits(account: AccountIdView)
    ensures
        account_target_tag(account) % 0x4_0000 == 0,
        0 <= account.prefix - account_target_tag(account) * 0x1_0000_0000 < 0x4_0000_0000_0000,
{
}

// LAWS OF ACCOUNT IDS
// ================================================================================================

/// Two field elements form an account ID exactly when the prefix is an element of the field whose low
/// nibble is one, and the suffix has its highest bit and its low byte cleared.
pub proof fn law_account_id_has_a_version_and_cleared_bits(prefix: u64, suffix: u64)
    ensures
        valid_account_id(prefix, suffix) <==> prefix < 0xffff_ffff_0000_0001 && prefix % 16 == 1
            && suffix < 0x8000_0000_0000_0000 && suffix % 256 == 0,
        p2id_target(seq![suffix, prefix]) is Some <==> valid_account_id(prefix, suffix),
        valid_account_id(prefix, suffix) ==> p2id_target(seq![suffix, prefix])->0.prefix == prefix
            && p2id_target(seq![suffix, prefix])->0.suffix == suffix,
{
}

/// Storage names a target exactly when it holds two elements which form an account ID.
pub proof fn law_storage_names_its_target(storage: Seq<u64>, target: AccountIdView)
    ensures
        p2id_target(storage) == Some(target) <==> storage.len() == 2 && storage[0] == target.suffix
            && storage[1] == target.prefix && target.prefix < 0xffff_ffff_0000_0001 && target.prefix
            % 16 == 1 && target.suffix < 0x8000_0000_0000_0000 && target.suffix % 256 == 0,
{
}

/// A text which names an account is `0x` and thirty hexadecimal digits: sixteen for the prefix, and
/// fourteen for what stands before the low byte of the suffix.
pub proof fn law_account_id_text(hex: Seq<char>)
    requires
        account_id_of_hex(hex) is Some,
    ensures
        hex.len() == 32,
        hex[0] == '0',
        hex[1] == 'x',
        forall|i: int| 2 <= i < 32 ==> text::is_hex_digit(#[trigger] hex[i]),
        account_id_of_hex(hex)->0.prefix == text::hex_value(hex.subrange(2, 18)),
        account_id_of_hex(hex)->0.suffix == text::hex_value(hex.subrange(18, 32)) * 256,
{
    assert forall|i: int| 0 <= i < 16 implies text::is_hex_digit(
        #[trigger] hex.subrange(2, 18)[i],
    ) by {
        assert(hex.subrange(2, 18)[i] == hex[i + 2]);
    }
    assert forall|i: int| 0 <= i < 14 implies text::is_hex_digit(
        #[trigger] hex.subrange(18, 32)[i],
    ) by {
        assert(hex.subrange(18, 32)[i] == hex[i + 18]);
    }
    lemma_hex_value_fits(hex.subrange(2, 18));
    lemma_hex_value_fits(hex.subrange(18, 32));
    assert(vstd::arithmetic::power::pow(16, 16) == 0x1_0000_0000_0000_0000) by {
        reveal_with_fuel(vstd::arithmetic::power::pow, 17);
    }
    assert(vstd::arithmetic::power::pow(16, 14) == 0x100_0000_0000_0000) by {
        reveal_with_fuel(vstd::arithmetic::power::pow, 15);
    }
}

/// Some hexadecimal digits denote less than sixteen to the power of how many they are.
proof fn lemma_hex_value_fits(digits: Seq<char>)
    requires
        forall|i: int| 0 <= i < digits.len() ==> text::is_hex_digit(#[trigger] digits[i]),
    ensures
        text::hex_value(digits) < vstd::arithmetic::power::pow(16, digits.len()),
    decreases digits.len(),
{
    reveal(vstd::arithmetic::power::pow);
    if digits.len() > 0 {
        lemma_hex_value_fits(digits.drop_last());
    }
}

// LAWS OF NOTES
// ================================================================================================

/// A note has at most 64 assets, none of them above `2^63 - 2^31`, at most one for each issuer and
/// callback setting, at most one for each non-fungible key, and only field elements in its storage.
pub proof fn law_note_holds_each_asset_once(storage: Seq<u64>, assets: Seq<Asset>)
    ensures
        valid_note_parts(storage, assets) <==> {
            &&& forall|i: int|
                0 <= i < storage.len() ==> (#[trigger] storage[i]) < 0xffff_ffff_0000_0001
            &&& assets.len() <= 64
            &&& forall|i: int|
                0 <= i < assets.len() ==> (#[trigger] assets[i] matches Asset::Fungible {
                    amount,
                    ..
                } ==> amount <= 0x8000_0000_0000_0000 - 0x8000_0000)
            &&& forall|i: int, j: int|
                0 <= i < j < assets.len() ==> match (#[trigger] assets[i], #[trigger] assets[j]) {
                    (
                        Asset::Fungible { faucet_id: one, callbacks: flag, .. },
                        Asset::Fungible { faucet_id: other, callbacks: other_flag, .. },
                    ) => one != other || flag != other_flag,
                    (
                        Asset::NonFungible { key: one },
                        Asset::NonFungible { key: other },
                    ) => one != other,
                    _ => true,
                }
        },
{
    if valid_note_parts(storage, assets) {
        assert forall|i: int, j: int| 0 <= i < j < assets.len() implies match (
            #[trigger] assets[i],
            #[trigger] assets[j],
        ) {
            (
                Asset::Fungible { faucet_id: one, callbacks: flag, .. },
                Asset::Fungible { faucet_id: other, callbacks: other_flag, .. },
            ) => one != other || flag != other_flag,
            (Asset::NonFungible { key: one }, Asset::NonFungible { key: other }) => one != other,
            _ => true,
        } by {
            assert(!assets[i].same_key(assets[j]));
        }
    }
}

/// A word holds its elements in order.
pub proof fn law_word_holds_its_elements(elements: Seq<u64>)
    requires
        elements.len() == 4,
    ensures
        ({
            let word = Word::of_elements(elements);
            seq![word.e0, word.e1, word.e2, word.e3] == elements
        }),
{
    let word = Word::of_elements(elements);
    assert(seq![word.e0, word.e1, word.e2, word.e3] =~= elements);
}

/// An amount which one asset cannot hold is refused with both numbers.
pub proof fn law_too_large_amount_is_named(amount: u64)
    ensures
        amount_too_big_text(amount) == "fungible asset amount "@ + text::decimal(amount as nat)
            + " exceeds the max allowed amount of "@ + text::decimal(9_223_372_034_707_292_160),
{
}

/// Every text of `0x` and thirty hexadecimal digits, whose first sixteen denote a prefix and whose
/// others denote the upper bytes of a suffix, names that account.
pub proof fn law_well_formed_text_names_an_account(hex: Seq<char>)
    requires
        hex.len() == 32,
        hex[0] == '0',
        hex[1] == 'x',
        forall|i: int|
            2 <= i < 32 ==> ('0' <= #[trigger] hex[i] <= '9' || 'a' <= hex[i] <= 'f' || 'A' <= hex[i]
                <= 'F'),
        text::hex_value(hex.subrange(2, 18)) < 0xffff_ffff_0000_0001,
        text::hex_value(hex.subrange(2, 18)) % 16 == 1,
        text::hex_value(hex.subrange(18, 32)) * 256 < 0x8000_0000_0000_0000,
    ensures
        account_id_of_hex(hex) is Some,
        account_id_of_hex(hex)->0.prefix == text::hex_value(hex.subrange(2, 18)),
        account_id_of_hex(hex)->0.suffix == text::hex_value(hex.subrange(18, 32)) * 256,
{
}

} // verus!
