use std::collections::VecDeque;

use miden_protocol::account::AccountId as ProtocolId;
use miden_protocol::asset::{Asset, FungibleAsset};
use miden_protocol::block::BlockNumber;
use miden_protocol::crypto::merkle::SparseMerklePath;
use miden_protocol::crypto::rand::RandomCoin;
use miden_protocol::note::{NoteAttachments, NoteInclusionProof, NoteType as ProtocolNoteType};
use miden_protocol::utils::serde::Serializable;
use miden_protocol::Word as ProtocolWord;
use miden_services::chain::{self, AccountId, Note, NoteType, Word};
use miden_services::funding::deposit::{
    is_deposit,
    is_deposit_with_script,
    native_amount,
    DepositScanner,
    ScanStep,
};
use miden_services::funding::inclusion::{await_inclusion, CommittedNote, Inclusion};
use miden_services::funding::request_funds::{
    refuse_unsent,
    request_funds,
    request_funds_with_seed,
    validate_amount,
    validate_balance,
    RequestFundsError,
    RequestFundsRequest,
    SendFailure,
};
use miden_services::funding::selection::{
    admit_prefix,
    collection_fits,
    select,
    SelectionLimits,
    MAX_DEPOSITS_PER_TX,
};
use miden_services::funding::status::StatusSnapshot;
use miden_services::funding::worker::{
    retry_node_call,
    CycleAction,
    CycleError,
    CycleInputs,
    CycleStage,
    Funder,
    FunderSetup,
    RunAction,
    SubmitProgress,
    SubmitStep,
    Submitted,
    Wake,
    WorkerConfig,
    MAX_FEE_VERIFICATION_CYCLES,
};
use miden_standards::note::P2idNote;

const RESERVE: u64 = 15_000;
const MAX_AMOUNT: u64 = 1_000;

const MALFORMED_HEX: &str = "0x11223344556677110102030405060 7";
const FAUCET_HEX: &str = "0x1122334455667711010203040506ff";
const OTHER_HEX: &str = "0x2132435465768721070605040302ff";

fn protocol_id(hex: &str) -> ProtocolId {
    ProtocolId::from_hex(hex).expect("valid account ID")
}

fn library_id(id: ProtocolId) -> AccountId {
    AccountId::from_elements(id.suffix().as_canonical_u64(), id.prefix().as_u64())
        .expect("valid account ID")
}

fn fee_faucet() -> ProtocolId {
    protocol_id(FAUCET_HEX)
}

fn fee_faucet_id() -> AccountId {
    library_id(fee_faucet())
}

/// Builds a P2ID note which holds `amount` of `faucet` and targets `target`.
fn p2id_note(
    target: ProtocolId,
    faucet: ProtocolId,
    amount: u64,
    serial: u32,
    note_type: ProtocolNoteType,
) -> Note {
    let mut rng = RandomCoin::new(ProtocolWord::from([serial; 4]));
    let asset = Asset::from(FungibleAsset::new(faucet, amount).expect("valid asset"));
    let note = P2idNote::create(
        target,
        target,
        vec![asset],
        note_type,
        NoteAttachments::empty(),
        &mut rng,
    )
    .expect("the note should build");
    Note::read_from_bytes(note.to_bytes()).expect("the note should be read")
}

/// Builds a public P2ID note which holds `amount` of the native asset.
fn note(amount: u64, serial: u32) -> Note {
    p2id_note(fee_faucet(), fee_faucet(), amount, serial, ProtocolNoteType::Public)
}

fn limits(balance: u64) -> SelectionLimits {
    SelectionLimits { balance, reserve: RESERVE, fee_faucet_id: fee_faucet_id(), max_notes: 16 }
}

// DEPOSITS
// ================================================================================================

#[test]
fn a_native_asset_note_for_the_funder_is_a_deposit() {
    let funder = fee_faucet();
    let note = p2id_note(funder, funder, 5_000, 1, ProtocolNoteType::Public);

    assert!(is_deposit(&note, fee_faucet_id(), fee_faucet_id()));
    assert_eq!(native_amount(&note, fee_faucet_id()), 5_000);
}

#[test]
fn a_note_holding_another_asset_is_skipped() {
    let funder = fee_faucet();
    let note = p2id_note(funder, protocol_id(OTHER_HEX), 5_000, 2, ProtocolNoteType::Public);

    assert!(!is_deposit(&note, fee_faucet_id(), fee_faucet_id()));
    assert_eq!(native_amount(&note, fee_faucet_id()), 0);
}

#[test]
fn a_note_for_another_account_is_skipped() {
    let funder = fee_faucet();
    let note = p2id_note(protocol_id(OTHER_HEX), funder, 5_000, 3, ProtocolNoteType::Public);

    assert!(!is_deposit(&note, fee_faucet_id(), fee_faucet_id()));
}

#[test]
fn a_private_note_is_skipped() {
    let funder = fee_faucet();
    let note = p2id_note(funder, funder, 5_000, 4, ProtocolNoteType::Public);
    let private = p2id_note(funder, funder, 5_000, 4, ProtocolNoteType::Private);

    assert!(is_deposit(&note, fee_faucet_id(), fee_faucet_id()));
    assert!(!is_deposit(&private, fee_faucet_id(), fee_faucet_id()));
}

fn word(seed: u64) -> Word {
    Word { e0: seed, e1: 0, e2: 0, e3: 0 }
}

fn plain_note(storage: Vec<u64>, assets: Vec<chain::Asset>) -> Option<Note> {
    Note::new(
        word(1),
        word(2),
        fee_faucet_id(),
        NoteType::Public,
        word(3),
        storage,
        assets,
        vec![],
    )
}

fn fungible(faucet_id: AccountId, callbacks: bool, amount: u64) -> chain::Asset {
    chain::Asset::Fungible { faucet_id, callbacks, amount }
}

#[test]
fn a_note_with_another_script_is_skipped() {
    let id = fee_faucet_id();
    let storage = vec![id.suffix(), id.prefix()];
    let note = plain_note(storage, vec![fungible(id, false, 10)]).expect("valid parts");

    assert!(is_deposit_with_script(&note, id, id, true));
    assert!(!is_deposit_with_script(&note, id, id, false));
    assert!(!is_deposit(&note, id, id));

    // No script has a root with an element outside the field.
    let storage = vec![id.suffix(), id.prefix()];
    let assets = vec![fungible(id, false, 10)];
    let root = word(u64::MAX);
    let note = Note::new(word(1), word(2), id, NoteType::Public, root, storage, assets, vec![]);
    assert!(!is_deposit(&note.expect("valid parts"), id, id));
}

#[test]
fn a_note_with_more_than_the_native_asset_is_skipped() {
    let id = fee_faucet_id();
    let other = library_id(protocol_id(OTHER_HEX));
    let storage = vec![id.suffix(), id.prefix()];
    let assets = vec![fungible(id, false, 10), fungible(other, false, 10)];
    let note = plain_note(storage, assets).expect("valid parts");

    assert!(!is_deposit_with_script(&note, id, id, true));
    assert_eq!(native_amount(&note, id), 10);
}

#[test]
fn pay_to_id_storage_has_exactly_two_valid_elements() {
    let id = fee_faucet_id();
    for storage in [
        vec![],
        vec![id.suffix()],
        vec![id.prefix(), id.suffix()],
        vec![id.suffix(), id.prefix(), 0],
    ] {
        let note = plain_note(storage, vec![fungible(id, false, 10)]).expect("valid parts");
        assert!(!is_deposit_with_script(&note, id, id, true));
    }
}

#[test]
fn assets_of_both_callback_settings_add_up() {
    let id = fee_faucet_id();
    let most = chain::MAX_ASSET_AMOUNT;
    let assets = vec![fungible(id, false, most), fungible(id, true, most)];
    let note = plain_note(vec![], assets).expect("valid parts");

    assert_eq!(native_amount(&note, id), 2 * most);
}

#[test]
fn parts_which_no_note_has_are_refused() {
    let id = fee_faucet_id();
    assert!(plain_note(vec![chain::FIELD_ORDER], vec![]).is_none());
    assert!(plain_note(vec![], vec![fungible(id, false, 1), fungible(id, false, 2)]).is_none());
    assert!(plain_note(vec![], vec![fungible(id, false, chain::MAX_ASSET_AMOUNT + 1)]).is_none());
    let keys = (0..65).map(|seed| chain::Asset::NonFungible { key: word(seed) }).collect();
    assert!(plain_note(vec![], keys).is_none());
    assert!(Note::read_from_bytes(vec![1, 2, 3]).is_none());
}

#[test]
fn account_ids_meet_their_constraints() {
    let id = fee_faucet_id();
    assert!(AccountId::from_elements(id.suffix(), id.prefix()).is_some());
    assert!(AccountId::from_elements(id.suffix() + 1, id.prefix()).is_none());
    assert!(AccountId::from_elements(id.suffix(), id.prefix() + 1).is_none());
    assert!(AccountId::from_elements(1 << 63, id.prefix()).is_none());
    assert!(AccountId::from_elements(id.suffix(), u64::MAX - 0xe).is_none());
    assert_eq!(id.prefix(), 0x1122334455667711);
    assert_eq!(id.suffix(), 0x010203040506ff00);
}

#[test]
fn a_scan_walks_the_chain_and_drops_what_is_spent() {
    let funder = fee_faucet();
    let mut scanner = DepositScanner::new(fee_faucet_id(), fee_faucet_id());

    let request = scanner.scan();
    assert_eq!(request.from_block, 0);
    // The leading fourteen bits of the prefix 0x1122334455667711.
    assert_eq!(request.tag, 0x11200000);

    assert!(matches!(scanner.on_synced(vec![], 9), ScanStep::Done(found) if found.is_empty()));
    assert_eq!(scanner.next_block, 10);
    assert_eq!(scanner.scan().from_block, 10);

    let first = note(100, 1);
    let second = note(200, 2);
    let third = p2id_note(protocol_id(OTHER_HEX), funder, 5, 3, ProtocolNoteType::Public);
    let spent = vec![first.nullifier()];
    let kept = second.id();
    let step = scanner.on_synced(vec![first.id(), second.id(), third.id()], 20);
    assert!(matches!(step, ScanStep::GetNotes { note_ids } if note_ids.len() == 3));

    let step = scanner.on_notes(vec![first, third, second], 10);
    let ScanStep::SyncNullifiers { candidates, nullifiers, from_block } = step else {
        panic!("expected the nullifiers to be synced");
    };
    assert_eq!(from_block, 10);
    assert_eq!(nullifiers.len(), 2);
    let found = DepositScanner::on_spent(candidates, &spent);
    assert_eq!(found.len(), 1);
    assert_eq!(found[0].id(), kept);

    let foreign = p2id_note(protocol_id(OTHER_HEX), funder, 5, 4, ProtocolNoteType::Public);
    assert!(matches!(scanner.on_notes(vec![foreign], 21), ScanStep::Done(found) if found.is_empty()));
}

// SELECTION
// ================================================================================================

#[test]
fn a_deposit_below_the_fee_reserve_is_not_consumed_on_its_own() {
    let mut deposits = vec![note(1, 1)];
    let mut queued = VecDeque::new();

    assert!(select(&mut deposits, &mut queued, limits(0)).is_none());
    assert_eq!(deposits.len(), 1, "the deposit stays in the pool");
}

#[test]
fn a_deposit_above_the_fee_reserve_is_consumed_on_its_own() {
    let mut deposits = vec![note(RESERVE + 1, 2)];
    let mut queued = VecDeque::new();

    let selection =
        select(&mut deposits, &mut queued, limits(0)).expect("the deposit is worth consuming");

    assert_eq!(selection.deposits.len(), 1);
    assert!(selection.notes.is_empty());
    assert!(deposits.is_empty());
}

#[test]
fn a_note_the_balance_cannot_cover_stays_queued() {
    let mut deposits = Vec::new();
    let mut queued = VecDeque::from(vec![note(1_000, 3)]);

    assert!(select(&mut deposits, &mut queued, limits(RESERVE)).is_none());
    assert_eq!(queued.len(), 1, "the note stays queued");
}

#[test]
fn a_deposit_pays_for_a_note_in_the_same_transaction() {
    let mut deposits = vec![note(1_000, 4)];
    let mut queued = VecDeque::from(vec![note(1_000, 5)]);

    let selection =
        select(&mut deposits, &mut queued, limits(RESERVE)).expect("the deposit covers the note");

    assert_eq!(selection.deposits.len(), 1);
    assert_eq!(selection.notes.len(), 1);
    assert!(queued.is_empty());
}

#[test]
fn admission_stops_at_the_first_note_which_does_not_fit() {
    let mut deposits = Vec::new();
    let mut queued = VecDeque::from(vec![note(500, 6), note(5_000, 7), note(100, 8)]);

    let selection =
        select(&mut deposits, &mut queued, limits(RESERVE + 1_000)).expect("the first note fits");

    assert_eq!(selection.notes.len(), 1);
    assert_eq!(queued.len(), 2, "the notes behind the one which does not fit stay queued");
}

#[test]
fn the_largest_deposits_are_taken_up_to_the_cap() {
    let count = u32::try_from(MAX_DEPOSITS_PER_TX).expect("the cap fits in a u32") + 2;
    let mut deposits: Vec<Note> =
        (0..count).map(|index| note(u64::from(index) + RESERVE, index + 10)).collect();
    let mut queued = VecDeque::new();

    let selection =
        select(&mut deposits, &mut queued, limits(0)).expect("the deposits are worth consuming");

    assert_eq!(selection.deposits.len(), MAX_DEPOSITS_PER_TX);
    assert_eq!(deposits.len(), 2, "the smallest deposits stay in the pool");

    let smallest_taken = selection
        .deposits
        .iter()
        .map(|note| native_amount(note, fee_faucet_id()))
        .min()
        .expect("the selection holds deposits");
    let largest_left = deposits
        .iter()
        .map(|note| native_amount(note, fee_faucet_id()))
        .max()
        .expect("the pool holds deposits");
    assert!(smallest_taken > largest_left);
}

#[test]
fn admission_holds_back_the_fee_reserve() {
    assert_eq!(admit_prefix(&[100], 100 + RESERVE, RESERVE), 1);
    assert_eq!(admit_prefix(&[100], 99 + RESERVE, RESERVE), 0);
    assert_eq!(admit_prefix(&[100, 100], 100 + RESERVE, RESERVE), 1);
}

#[test]
fn admission_saturates_below_the_reserve() {
    assert_eq!(admit_prefix(&[0, 1], 5, RESERVE), 1);
    assert_eq!(admit_prefix(&[], 5, RESERVE), 0);
}

#[test]
fn a_selection_never_creates_more_notes_than_its_limit() {
    let mut deposits = Vec::new();
    let mut queued = VecDeque::from(vec![note(1, 1), note(1, 2), note(1, 3)]);
    let two = SelectionLimits { max_notes: 2, ..limits(RESERVE + 10) };

    let selection = select(&mut deposits, &mut queued, two).expect("two notes fit");
    assert_eq!(selection.notes.len(), 2);
    assert_eq!(queued.len(), 1);
}

#[test]
fn an_empty_selection_leaves_the_pool_in_its_order() {
    let first = note(1, 1);
    let second = note(2, 2);
    let order = [first.id(), second.id()];
    let mut deposits = vec![first, second];
    let mut queued = VecDeque::new();

    assert!(select(&mut deposits, &mut queued, limits(0)).is_none());
    assert_eq!([deposits[0].id(), deposits[1].id()], order);
}

#[test]
fn a_collection_beyond_a_u64_is_noticed() {
    let id = fee_faucet_id();
    let most = || {
        let assets = vec![
            fungible(id, false, chain::MAX_ASSET_AMOUNT),
            fungible(id, true, chain::MAX_ASSET_AMOUNT),
        ];
        plain_note(vec![], assets).expect("valid parts")
    };
    assert!(collection_fits(&vec![most()], id));
    assert!(!collection_fits(&vec![most(), most()], id));
}

// REQUESTS
// ================================================================================================

#[test]
fn a_zero_amount_is_rejected() {
    let err = validate_amount(0, MAX_AMOUNT).unwrap_err();

    assert_eq!(err.status_code(), 400);
}

#[test]
fn an_amount_above_the_maximum_is_rejected() {
    validate_amount(MAX_AMOUNT, MAX_AMOUNT).expect("the maximum itself is allowed");

    let err = validate_amount(MAX_AMOUNT + 1, MAX_AMOUNT).unwrap_err();

    assert_eq!(err.status_code(), 400);
}

#[test]
fn an_amount_the_balance_cannot_cover_is_rejected() {
    let reserve = u64::from(10u32) * MAX_FEE_VERIFICATION_CYCLES;

    validate_balance(100, 100 + reserve, 10).expect("the balance covers the amount");

    let err = validate_balance(100, 99 + reserve, 10).unwrap_err();
    assert_eq!(err.status_code(), 412);
}

fn status(balance: u64) -> StatusSnapshot {
    let mut status = StatusSnapshot {
        account_id: library_id(protocol_id(OTHER_HEX)),
        max_amount: MAX_AMOUNT,
        balance: 0,
        reference_block: 0,
        verification_base_fee: 0,
    };
    status.update(balance, 0, 0);
    status
}

fn request(account_id: &str, amount: u64) -> RequestFundsRequest {
    RequestFundsRequest { account_id: account_id.to_string(), amount }
}

#[test]
fn the_answer_carries_the_queued_note() {
    let target = protocol_id(OTHER_HEX);
    let answer = request_funds(&status(MAX_AMOUNT), fee_faucet_id(), &request(&target.to_hex(), 500))
        .expect("the request is answered");

    let answered = Note::read_from_bytes(hex::decode(&answer.response.note).unwrap())
        .expect("the answer holds a note");
    assert_eq!(answered.sender(), status(MAX_AMOUNT).account_id);
    assert_eq!(native_amount(&answered, fee_faucet_id()), 500);
    assert!(is_deposit(&answered, library_id(target), fee_faucet_id()));

    // The worker receives exactly the note the requester was answered with.
    assert_eq!(answer.note.id(), answered.id());
}

#[test]
fn an_unaffordable_request_is_refused_before_it_is_queued() {
    let refused = request_funds(&status(10), fee_faucet_id(), &request(FAUCET_HEX, 500));

    assert_eq!(refused.unwrap_err().status_code(), 412);
}

#[test]
fn every_refusal_of_a_request_has_its_reason() {
    let faucet = fee_faucet_id();
    let refuse = |status: &StatusSnapshot, request: RequestFundsRequest| {
        request_funds_with_seed(status, faucet, &request, [1, 2, 3, 4]).unwrap_err()
    };
    let rich = status(u64::MAX);

    assert!(matches!(
        refuse(&rich, request(MALFORMED_HEX, 1)),
        RequestFundsError::InvalidAccountId
    ));
    assert!(matches!(refuse(&rich, request("", 1)), RequestFundsError::InvalidAccountId));
    assert!(matches!(refuse(&rich, request(FAUCET_HEX, 0)), RequestFundsError::InvalidAmount));
    assert!(matches!(
        refuse(&rich, request(FAUCET_HEX, 1_001)),
        RequestFundsError::AmountExceedsMaximum { requested: 1_001, maximum: 1_000 }
    ));
    let charged = StatusSnapshot { verification_base_fee: 2, ..status(100) };
    assert!(matches!(
        refuse(&charged, request(FAUCET_HEX, 41)),
        RequestFundsError::InsufficientFunds { requested: 41, balance: 100, reserve: 60 }
    ));
    let unlimited = StatusSnapshot { max_amount: u64::MAX, ..rich };
    let internal = refuse(&unlimited, request(FAUCET_HEX, chain::MAX_ASSET_AMOUNT + 1));
    assert!(matches!(
        &internal,
        RequestFundsError::Internal(cause)
            if cause == "fungible asset amount 9223372034707292161 exceeds the max allowed amount \
                of 9223372034707292160"
    ));
    assert_eq!(internal.status_code(), 500);
    assert_eq!(RequestFundsError::InvalidAccountId.status_code(), 400);

    let busy = refuse_unsent(SendFailure::Full);
    assert!(matches!(busy, RequestFundsError::Busy));
    assert_eq!(busy.status_code(), 503);
    let stopped = refuse_unsent(SendFailure::Closed);
    assert_eq!(stopped.status_code(), 503);
    assert!(matches!(
        stopped,
        RequestFundsError::NotReady(reason) if reason == "the funding worker stopped"
    ));
}

#[test]
fn an_answer_is_determined_by_its_seed() {
    let ask = |seed| {
        request_funds_with_seed(&status(MAX_AMOUNT), fee_faucet_id(), &request(FAUCET_HEX, 5), seed)
            .expect("the request is answered")
    };
    assert_eq!(ask([1, 2, 3, 4]).note.id(), ask([1, 2, 3, 4]).note.id());
    assert_ne!(ask([1, 2, 3, 4]).note.id(), ask([1, 2, 3, 5]).note.id());
    let answer = ask([1, 2, 3, 4]);
    assert_eq!(answer.response.note, hex::encode(answer.note.bytes()));
}

// WORKER
// ================================================================================================

fn setup() -> FunderSetup {
    FunderSetup {
        account_id: fee_faucet_id(),
        code_commitment: word(77),
        fee_faucet_id: fee_faucet_id(),
        verification_base_fee: 500,
        config: WorkerConfig {
            max_notes_per_tx: 16,
            expiration_delta: 10,
            tick_interval: 1_000,
            deposit_scan_interval: 5_000,
        },
        status: status(0),
    }
}

fn inputs(nonce: u64, balance: u64, reference_block: u32) -> CycleInputs {
    CycleInputs {
        reference_block,
        verification_base_fee: 500,
        nonce,
        balance,
        code_commitment: word(77),
    }
}

/// Runs a worker up to the point where it waits for the result of its submission.
fn submitting(balance: u64, notes: Vec<Note>, deposits: Vec<Note>) -> Funder {
    let mut funder = Funder::new(setup());
    funder.receive(notes);
    assert_eq!(funder.cycle(0), CycleAction::ReadInputs);
    assert_eq!(funder.on_inputs(Some(inputs(1, balance, 100)), 0), Ok(CycleAction::ScanDeposits));
    assert_eq!(funder.on_scanned(Some(deposits), 0), CycleAction::Select);
    assert!(funder.collection_fits());
    assert_eq!(funder.select(0), CycleAction::ReadFeeFaucet { reference_block: 100 });
    assert_eq!(funder.on_fee_faucet(true), Ok(CycleAction::Submit));
    funder
}

#[test]
fn a_committed_transaction_is_forgotten() {
    let mut funder = submitting(RESERVE + 100, vec![note(100, 1)], vec![]);
    let submitted = Submitted { transaction_id: word(5), expiration_block: 110 };
    assert_eq!(funder.on_submitted(Some(submitted)), CycleAction::Done);
    assert!(funder.pending.is_some());
    assert!(funder.queued.is_empty());

    // Still in flight: nothing else happens.
    assert_eq!(funder.cycle(1), CycleAction::ReadInputs);
    assert_eq!(funder.on_inputs(Some(inputs(1, 0, 109)), 1), Ok(CycleAction::Done));
    assert!(funder.pending.is_some());

    // A higher nonce means that it committed.
    assert_eq!(funder.cycle(2), CycleAction::ReadInputs);
    assert_eq!(funder.on_inputs(Some(inputs(2, 0, 109)), 2), Ok(CycleAction::Select));
    assert!(funder.pending.is_none());
    assert_eq!(funder.select(2), CycleAction::Done);
    assert!(funder.queued.is_empty() && funder.deposits.is_empty());
}

#[test]
fn an_expired_transaction_returns_its_notes_in_front() {
    let first = note(100, 1);
    let second = note(50, 2);
    let (first_id, second_id) = (first.id(), second.id());
    let mut funder = submitting(RESERVE + 100, vec![first], vec![note(7, 9)]);
    funder.on_submitted(Some(Submitted { transaction_id: word(5), expiration_block: 110 }));
    funder.receive(vec![second]);

    assert_eq!(funder.cycle(1), CycleAction::ReadInputs);
    assert_eq!(funder.on_inputs(Some(inputs(1, 0, 110)), 1), Ok(CycleAction::Select));
    assert!(funder.pending.is_none());
    assert_eq!(funder.queued[0].id(), first_id);
    assert_eq!(funder.queued[1].id(), second_id);
    assert_eq!(funder.deposits.len(), 1);
}

#[test]
fn a_failed_submission_returns_what_it_took() {
    let mut funder = submitting(RESERVE + 150, vec![note(100, 1), note(50, 2)], vec![note(7, 9)]);
    assert!(matches!(&funder.stage, CycleStage::Submitting(_, taken) if taken.notes.len() == 2));
    assert_eq!(funder.on_submitted(None), CycleAction::Done);
    assert_eq!(funder.queued.len(), 2);
    assert_eq!(funder.deposits.len(), 1);
    assert!(funder.pending.is_none());
}

#[test]
fn an_unreadable_fee_faucet_returns_what_was_selected() {
    let mut funder = Funder::new(setup());
    funder.receive(vec![note(100, 1)]);
    funder.cycle(0);
    funder.on_inputs(Some(inputs(1, RESERVE + 100, 7)), 0).unwrap();
    funder.on_scanned(None, 0);
    assert_eq!(funder.last_scan, None);
    assert_eq!(funder.select(0), CycleAction::ReadFeeFaucet { reference_block: 7 });
    assert_eq!(funder.on_fee_faucet(false), Err(CycleError::FeeFaucet));
    assert_eq!(funder.queued.len(), 1);
    assert!(matches!(funder.stage, CycleStage::Idle));
}

#[test]
fn the_account_code_is_compared_once() {
    let mut funder = Funder::new(setup());
    let foreign = CycleInputs { code_commitment: word(78), ..inputs(1, 0, 1) };
    funder.cycle(0);
    assert_eq!(funder.on_inputs(Some(foreign), 0), Err(CycleError::AccountCode));
    assert!(!funder.account_checked);
    assert_eq!(funder.setup.status.reference_block, 0);

    funder.cycle(0);
    assert_eq!(funder.on_inputs(None, 0), Err(CycleError::Inputs));

    funder.cycle(0);
    assert_eq!(funder.on_inputs(Some(inputs(1, 9, 3)), 0), Ok(CycleAction::ScanDeposits));
    assert_eq!(funder.setup.status.balance, 9);
    assert_eq!(funder.setup.status.reference_block, 3);
    assert_eq!(funder.setup.status.verification_base_fee, 500);
    funder.on_scanned(Some(vec![]), 0);
    funder.select(0);

    assert_eq!(funder.cycle(5_000), CycleAction::ReadInputs);
    assert_eq!(funder.on_inputs(Some(foreign), 5_000), Ok(CycleAction::ScanDeposits));
}

#[test]
fn the_worker_rests_until_the_scan_interval_passes_or_a_note_arrives() {
    let mut funder = Funder::new(setup());
    assert!(funder.has_work(0), "the first scan is due");
    funder.cycle(0);
    funder.on_inputs(Some(inputs(1, 0, 1)), 0).unwrap();
    funder.on_scanned(Some(vec![note(1, 1)]), 0);
    assert_eq!(funder.select(0), CycleAction::Done);
    assert_eq!(funder.idle_until, Some(5_000));

    assert_eq!(funder.cycle(4_999), CycleAction::Done);
    assert!(funder.has_work(5_000));
    funder.receive(vec![]);
    assert!(!funder.has_work(4_999));
    funder.receive(vec![note(1, 2)]);
    assert!(funder.has_work(1));
}

#[test]
fn a_pooled_deposit_is_not_pooled_again() {
    let mut funder = Funder::new(setup());
    funder.scan_deposits(vec![note(1, 1), note(2, 2)], 3);
    funder.scan_deposits(vec![note(2, 2), note(3, 3)], 4);
    assert_eq!(funder.deposits.len(), 3);
    assert_eq!(funder.last_scan, Some(4));
    assert!(!funder.scan_is_due(5_003));
    assert!(funder.scan_is_due(5_004));
}

#[test]
fn restoring_a_selection_undoes_it() {
    let notes = vec![note(100, 1), note(60, 2), note(7_000, 3)];
    let order: Vec<Word> = notes.iter().map(|note| note.id()).collect();
    let mut funder = Funder::new(setup());
    funder.receive(notes);
    funder.cycle(0);
    funder.on_inputs(Some(inputs(1, RESERVE + 200, 7)), 0).unwrap();
    funder.on_scanned(Some(vec![note(5, 8), note(6, 9)]), 0);
    funder.select(0);
    assert_eq!(funder.queued.len(), 1);
    funder.on_fee_faucet(false).unwrap_err();
    let after: Vec<Word> = funder.queued.iter().map(|note| note.id()).collect();
    assert_eq!(after, order);
    assert_eq!(funder.deposits.len(), 2);
}

#[test]
fn the_worker_wakes_for_notes_and_ticks_and_stops_with_the_service() {
    let mut funder = Funder::new(setup());
    assert_eq!(funder.run(Wake::Tick), RunAction::Cycle);
    assert_eq!(funder.run(Wake::Note(note(1, 1))), RunAction::Linger);
    assert_eq!(funder.queued.len(), 1);
    assert_eq!(funder.run(Wake::Closed), RunAction::Stop);
    assert_eq!(funder.run(Wake::Shutdown), RunAction::Stop);
    assert_eq!(funder.queued.len(), 1);
}

#[test]
fn a_submission_goes_through_its_steps() {
    let next = |step: SubmitStep| step.finish(Ok(())).unwrap();
    assert_eq!(next(SubmitStep::Execute), SubmitProgress::Continue(SubmitStep::Prove));
    assert_eq!(next(SubmitStep::Prove), SubmitProgress::Continue(SubmitStep::Submit));
    assert_eq!(next(SubmitStep::Submit), SubmitProgress::Accepted);
    for (step, context) in [
        (SubmitStep::Execute, "failed to execute the funding transaction"),
        (SubmitStep::Prove, "failed to prove the funding transaction"),
        (SubmitStep::Submit, "failed to submit the funding transaction"),
    ] {
        let failed = step.finish(Err("boom".to_string())).unwrap_err();
        assert_eq!((failed.context, failed.cause.as_str()), (context, "boom"));
    }
}

#[test]
fn a_failed_cycle_says_what_failed() {
    assert_eq!(CycleError::Inputs.message("0x1"), "failed to read the chain state");
    assert_eq!(CycleError::FeeFaucet.message("0x1"), "failed to read the fee faucet account");
    assert_eq!(
        CycleError::AccountCode.message("0x1"),
        "the code of account 0x1 on chain does not match the account file: \
         is the account file from another network?"
    );
}

#[test]
fn retries_back_off_and_stop() {
    let delays: Vec<Option<u64>> = (0..6).map(|failures| retry_node_call(failures, true)).collect();
    assert_eq!(delays, vec![Some(100), Some(200), Some(400), Some(800), Some(1_600), None]);
    assert_eq!(retry_node_call(0, false), None);
}

// INCLUSION
// ================================================================================================

fn inclusion_proof(block: u32) -> NoteInclusionProof {
    let path = SparseMerklePath::from_parts(0, vec![]).expect("empty path");
    NoteInclusionProof::new(BlockNumber::from(block), 0, path).expect("valid proof")
}

fn committed(seed: u64, block: u32) -> CommittedNote {
    CommittedNote { note_id: word(seed), proof: inclusion_proof(block) }
}

#[test]
fn waiting_ends_when_every_note_is_committed() {
    let mut wait = await_inclusion(vec![word(1), word(2)], 100);
    assert!(wait.on_poll(Some(50), Some(vec![committed(1, 40)])).is_none());
    assert!(wait.on_poll(None, None).is_none());
    // Past the expiration block, but a note was found: the transaction committed.
    assert!(wait.on_poll(Some(200), Some(vec![])).is_none());
    let outcome = wait.on_poll(Some(201), Some(vec![committed(1, 41), committed(2, 42)]));
    let Some(Inclusion::Committed(found)) = outcome else {
        panic!("expected every note to be committed");
    };
    assert_eq!(found.get(word(1)), Some(&inclusion_proof(41)));
    assert_eq!(found.get(word(2)), Some(&inclusion_proof(42)));
    assert_eq!(found.get(word(3)), None);
}

#[test]
fn waiting_ends_when_the_transaction_expired() {
    let mut wait = await_inclusion(vec![word(1)], 100);
    assert!(wait.on_poll(Some(99), Some(vec![])).is_none());
    assert!(wait.on_poll(Some(100), None).is_none(), "the notes were not read");
    assert!(wait.on_poll(None, Some(vec![])).is_none(), "the tip was not read");
    assert!(matches!(wait.on_poll(Some(100), Some(vec![])), Some(Inclusion::Expired)));
}
