//! Answering a funding request.

use vstd::prelude::*;

use crate::chain;
use crate::chain::AccountId;
use crate::chain::AccountIdView;
use crate::chain::Note;
use crate::funding::selection;
use crate::funding::status::StatusSnapshot;
use crate::funding::worker::MAX_FEE_VERIFICATION_CYCLES;
use crate::text;

verus! {

// REQUEST AND RESPONSE
// ================================================================================================

/// The body of a funding request.
#[derive(Debug)]
pub struct RequestFundsRequest {
    /// The account which the note targets, in hexadecimal.
    pub account_id: String,
    /// The amount of the native asset, in base units.
    pub amount: u64,
}

/// The body of a successful funding response.
#[derive(Debug)]
pub struct RequestFundsResponse {
    /// The serialized note, in hexadecimal.
    pub note: String,
}

impl RequestFundsResponse {
    /// Answers with `note`.
    pub fn from_note(note: &Note) -> (response: RequestFundsResponse)
        ensures
            response.note@ == text::hex_text(note@.bytes),
    {
        RequestFundsResponse { note: text::hex_encode(note.bytes().as_slice()) }
    }
}

/// Why a funding request is refused.
#[derive(Debug)]
pub enum RequestFundsError {
    /// The account ID does not parse.
    InvalidAccountId,
    /// The amount is zero.
    InvalidAmount,
    /// The amount is above the configured maximum.
    AmountExceedsMaximum { requested: u64, maximum: u64 },
    /// The funding account cannot pay the amount on top of a fee.
    InsufficientFunds { requested: u64, balance: u64, reserve: u64 },
    /// The note could not be built, with the text of why.
    Internal(String),
    /// Too many notes wait for a transaction.
    Busy,
    /// The service cannot take requests.
    NotReady(String),
}

impl RequestFundsError {
    /// The HTTP status which reports the error. The statuses 500 and 503 are chosen here: a failure
    /// of the service itself, and a service which cannot take the request now.
    pub fn status_code(&self) -> (code: u16)
        ensures
            code == (match *self {
                RequestFundsError::InvalidAccountId => 400u16,
                RequestFundsError::InvalidAmount => 400,
                RequestFundsError::AmountExceedsMaximum { .. } => 400,
                RequestFundsError::InsufficientFunds { .. } => 412,
                RequestFundsError::Internal(_) => 500,
                RequestFundsError::Busy => 503,
                RequestFundsError::NotReady(_) => 503,
            }),
    {
        match self {
            RequestFundsError::InvalidAccountId => 400,
            RequestFundsError::InvalidAmount => 400,
            RequestFundsError::AmountExceedsMaximum { .. } => 400,
            RequestFundsError::InsufficientFunds { .. } => 412,
            RequestFundsError::Internal(_) => 500,
            RequestFundsError::Busy => 503,
            RequestFundsError::NotReady(_) => 503,
        }
    }
}

/// Why a note could not be handed to the worker.
#[derive(Debug, Clone, Copy, PartialEq, Eq, Structural)]
pub enum SendFailure {
    /// The queue of the worker is full.
    Full,
    /// The worker stopped.
    Closed,
}

// VALIDATION
// ================================================================================================

/// The fee one transaction may cost at worst.
pub open spec fn fee_reserve_of(verification_base_fee: u32) -> nat {
    verification_base_fee as nat * MAX_FEE_VERIFICATION_CYCLES as nat
}

/// Computes the fee one transaction may cost at worst.
pub fn fee_reserve(verification_base_fee: u32) -> (reserve: u64)
    ensures
        reserve == fee_reserve_of(verification_base_fee),
{
    verification_base_fee as u64 * MAX_FEE_VERIFICATION_CYCLES
}

/// Whether `amount` passes the check against the configured maximum.
pub open spec fn check_amount(amount: u64, maximum: u64) -> Result<(), RequestFundsError> {
    if amount == 0 {
        Err(RequestFundsError::InvalidAmount)
    } else if amount > maximum {
        Err(RequestFundsError::AmountExceedsMaximum { requested: amount, maximum })
    } else {
        Ok(())
    }
}

/// Whether `amount` passes the check against the balance, with the fee of one transaction held back.
pub open spec fn check_balance(amount: u64, balance: u64, verification_base_fee: u32) -> Result<
    (),
    RequestFundsError,
> {
    let reserve = fee_reserve_of(verification_base_fee);
    if amount > selection::saturating_difference(balance as nat, reserve) {
        Err(
            RequestFundsError::InsufficientFunds {
                requested: amount,
                balance,
                reserve: reserve as u64,
            },
        )
    } else {
        Ok(())
    }
}

/// Checks the requested amount against the configured maximum.
pub fn validate_amount(amount: u64, maximum: u64) -> (checked: Result<(), RequestFundsError>)
    ensures
        checked == check_amount(amount, maximum),
{
    if amount == 0 {
        return Err(RequestFundsError::InvalidAmount);
    }
    if amount > maximum {
        return Err(RequestFundsError::AmountExceedsMaximum { requested: amount, maximum });
    }
    Ok(())
}

/// Checks the requested amount against the balance the service last read.
pub fn validate_balance(amount: u64, balance: u64, verification_base_fee: u32) -> (checked: Result<
    (),
    RequestFundsError,
>)
    ensures
        checked == check_balance(amount, balance, verification_base_fee),
{
    let reserve: u64 = fee_reserve(verification_base_fee);
    if amount > balance.saturating_sub(reserve) {
        return Err(RequestFundsError::InsufficientFunds { requested: amount, balance, reserve });
    }
    Ok(())
}

// REQUEST FUNDS HANDLER
// ================================================================================================

/// A note for the worker, and the answer for the requester.
#[derive(Debug)]
pub struct FundingAnswer {
    pub note: Note,
    pub response: RequestFundsResponse,
}

/// The account a request targets, or why the request is refused before a note is built.
pub open spec fn check_request(
    status: StatusSnapshot,
    account_id: Seq<char>,
    amount: u64,
) -> Result<AccountIdView, RequestFundsError> {
    match chain::account_id_of_hex(account_id) {
        None => Err(RequestFundsError::InvalidAccountId),
        Some(target) => match check_amount(amount, status.max_amount) {
            Err(refused) => Err(refused),
            Ok(_) => match check_balance(amount, status.balance, status.verification_base_fee) {
                Err(refused) => Err(refused),
                Ok(_) => Ok(target),
            },
        },
    }
}

/// Whether `answer` is what a request is answered with, where `seed` seeds the serial number.
pub open spec fn is_answer(
    status: StatusSnapshot,
    fee_faucet_id: AccountId,
    request: RequestFundsRequest,
    seed: Seq<u32>,
    answer: Result<FundingAnswer, RequestFundsError>,
) -> bool {
    match check_request(status, request.account_id@, request.amount) {
        Err(refused) => answer == Err::<FundingAnswer, RequestFundsError>(refused),
        Ok(target) => if request.amount > chain::MAX_ASSET_AMOUNT {
            answer matches Err(RequestFundsError::Internal(cause)) && cause@
                == chain::amount_too_big_text(request.amount)
        } else {
            &&& answer is Ok
            &&& answer->Ok_0.note@.bytes == chain::p2id_note_bytes_of(
                status.account_id@,
                target,
                fee_faucet_id@,
                request.amount,
                seed,
            )
            &&& chain::is_payment(
                answer->Ok_0.note@.content(),
                status.account_id@,
                target,
                fee_faucet_id,
                request.amount,
            )
            &&& chain::note_of_bytes(answer->Ok_0.note@.bytes) == Some(
                answer->Ok_0.note@.content(),
            )
            &&& answer->Ok_0.response.note@ == text::hex_text(answer->Ok_0.note@.bytes)
        },
    }
}

/// Creates a public P2ID note which holds `amount` base units of the native asset and targets
/// `account_id`, for the next funding transaction.
///
/// Each request draws its own serial number from a generator which is seeded at random, so two
/// notes never share one.
pub fn request_funds(
    status: &StatusSnapshot,
    fee_faucet_id: AccountId,
    request: &RequestFundsRequest,
) -> (answer: Result<FundingAnswer, RequestFundsError>)
    ensures
        exists|seed: Seq<u32>|
            seed.len() == 4 && #[trigger] is_answer(
                *status,
                fee_faucet_id,
                *request,
                seed,
                answer,
            ),
{
    let seed = random_seed();
    let answer = request_funds_with_seed(status, fee_faucet_id, request, seed);
    assert(is_answer(*status, fee_faucet_id, *request, seed@, answer));
    answer
}

/// Creates the note of a request, with a serial number which `seed` determines.
pub fn request_funds_with_seed(
    status: &StatusSnapshot,
    fee_faucet_id: AccountId,
    request: &RequestFundsRequest,
    seed: [u32; 4],
) -> (answer: Result<FundingAnswer, RequestFundsError>)
    ensures
        is_answer(*status, fee_faucet_id, *request, seed@, answer),
{
    let target = match AccountId::from_hex(request.account_id.as_str()) {
        Some(target) => target,
        None => {
            return Err(RequestFundsError::InvalidAccountId);
        },
    };
    if let Err(refused) = validate_amount(request.amount, status.max_amount) {
        return Err(refused);
    }
    if let Err(refused) = validate_balance(
        request.amount,
        status.balance,
        status.verification_base_fee,
    ) {
        return Err(refused);
    }
    let bytes = match chain::p2id_note_bytes(
        status.account_id,
        target,
        fee_faucet_id,
        request.amount,
        seed,
    ) {
        Ok(bytes) => bytes,
        Err(cause) => {
            return Err(RequestFundsError::Internal(cause));
        },
    };
    match Note::read_from_bytes(bytes) {
        Some(note) => {
            let response = RequestFundsResponse::from_note(&note);
            Ok(FundingAnswer { note, response })
        },
        None => Err(RequestFundsError::Internal("the note cannot be read".to_owned())),
    }
}

/// The refusal of a request whose note could not be handed to the worker.
pub fn refuse_unsent(failure: SendFailure) -> (refused: RequestFundsError)
    ensures
        match failure {
            SendFailure::Full => refused == RequestFundsError::Busy,
            SendFailure::Closed => refused matches RequestFundsError::NotReady(reason) && reason@
                == "the funding worker stopped"@,
        },
{
    match failure {
        SendFailure::Full => RequestFundsError::Busy,
        SendFailure::Closed => RequestFundsError::NotReady("the funding worker stopped".to_owned()),
    }
}

/// Draws a seed at random.
///
/// Calls `rand::random`. The contract claims nothing of the seed.
#[verifier::external_body]
fn random_seed() -> (seed: [u32; 4])
{
    rand::random::<[u32; 4]>()
}

// LAWS OF FUNDING REQUESTS
// ================================================================================================

/// A request which is answered with a note asks for a positive amount, at most the configured
/// maximum, which the balance covers on top of the fee of one transaction.
pub proof fn law_answered_request_is_covered(
    status: StatusSnapshot,
    fee_faucet_id: AccountId,
    request: RequestFundsRequest,
    seed: Seq<u32>,
    answer: Result<FundingAnswer, RequestFundsError>,
)
    requires
        is_answer(status, fee_faucet_id, request, seed, answer),
        answer is Ok,
    ensures
        0 < request.amount <= status.max_amount,
        request.amount + fee_reserve_of(status.verification_base_fee) <= status.balance,
        chain::total_from(answer->Ok_0.note@.assets, fee_faucet_id) == request.amount,
{
    let assets = answer->Ok_0.note@.assets;
    assert(assets.len() == 1);
    assert(assets.drop_last() =~= Seq::empty());
    assert(chain::total_from(assets.drop_last(), fee_faucet_id) == 0);
}

/// The worker can pay for the note of an answered request, at the balance and the fee the request
/// was checked against.
pub proof fn law_answered_request_is_payable(
    status: StatusSnapshot,
    fee_faucet_id: AccountId,
    request: RequestFundsRequest,
    seed: Seq<u32>,
    answer: Result<FundingAnswer, RequestFundsError>,
)
    requires
        is_answer(status, fee_faucet_id, request, seed, answer),
        answer is Ok,
    ensures
        selection::affordable(
            selection::amounts(seq![answer->Ok_0.note], fee_faucet_id),
            selection::saturating_difference(
                status.balance as nat,
                fee_reserve_of(status.verification_base_fee),
            ),
        ) == 1,
{
    law_answered_request_is_covered(status, fee_faucet_id, request, seed, answer);
    let amounts = selection::amounts(seq![answer->Ok_0.note], fee_faucet_id);
    assert(amounts =~= seq![request.amount as nat]);
    assert(amounts.take(1) =~= amounts);
    assert(amounts.drop_last() =~= Seq::empty());
    assert(selection::total(amounts.drop_last()) == 0);
    selection::law_admission_is_unique(
        amounts,
        selection::saturating_difference(
            status.balance as nat,
            fee_reserve_of(status.verification_base_fee),
        ),
        1,
    );
}

/// The requester is answered with exactly the note the worker receives: the text of the answer
/// determines the bytes of that note, and reading them gives back the note.
pub proof fn law_answer_carries_the_queued_note(
    status: StatusSnapshot,
    fee_faucet_id: AccountId,
    request: RequestFundsRequest,
    seed: Seq<u32>,
    answer: Result<FundingAnswer, RequestFundsError>,
    bytes: Seq<u8>,
)
    requires
        is_answer(status, fee_faucet_id, request, seed, answer),
        answer is Ok,
        answer->Ok_0.response.note@ == text::hex_text(bytes),
    ensures
        bytes == answer->Ok_0.note@.bytes,
        chain::note_of_bytes(bytes) == Some(answer->Ok_0.note@.content()),
{
    text::law_hex_text_is_injective(bytes, answer->Ok_0.note@.bytes);
}

/// Every request for an account the chain can have, and for a positive amount which one asset holds,
/// which stays within the configured maximum and which the balance covers on top of thirty base fees,
/// is answered with a note.
pub proof fn law_covered_request_is_answered(
    status: StatusSnapshot,
    fee_faucet_id: AccountId,
    request: RequestFundsRequest,
    seed: Seq<u32>,
    answer: Result<FundingAnswer, RequestFundsError>,
)
    requires
        is_answer(status, fee_faucet_id, request, seed, answer),
        chain::account_id_of_hex(request.account_id@) is Some,
        0 < request.amount <= status.max_amount,
        request.amount <= 0x7fff_ffff_8000_0000,
        request.amount + status.verification_base_fee * 30 <= status.balance,
    ensures
        answer is Ok,
{
}

/// A refusal gives the first reason which applies: the account ID is not one, the amount is zero, the
/// amount is above the configured maximum, the balance does not cover it on top of thirty base fees,
/// or no asset holds it. Nothing else refuses a request.
pub proof fn law_refusal_gives_the_first_reason(
    status: StatusSnapshot,
    fee_faucet_id: AccountId,
    request: RequestFundsRequest,
    seed: Seq<u32>,
    answer: Result<FundingAnswer, RequestFundsError>,
)
    requires
        is_answer(status, fee_faucet_id, request, seed, answer),
    ensures
        ({
            let names_account = chain::account_id_of_hex(request.account_id@) is Some;
            let positive = request.amount > 0;
            let allowed = request.amount <= status.max_amount;
            let covered = request.amount + status.verification_base_fee * 30 <= status.balance;
            &&& (answer matches Err(RequestFundsError::InvalidAccountId)) <==> !names_account
            &&& (answer matches Err(RequestFundsError::InvalidAmount)) <==> names_account && !positive
            &&& (answer matches Err(RequestFundsError::AmountExceedsMaximum { .. }))
                <==> names_account && positive && !allowed
            &&& (answer matches Err(RequestFundsError::InsufficientFunds { .. })) <==> names_account
                && positive && allowed && !covered
            &&& (answer matches Err(RequestFundsError::Internal(_))) <==> names_account && positive
                && allowed && covered && request.amount > 0x7fff_ffff_8000_0000
            &&& answer matches Err(RequestFundsError::AmountExceedsMaximum { requested, maximum })
                ==> requested == request.amount && maximum == status.max_amount
            &&& answer matches Err(RequestFundsError::InsufficientFunds { requested, balance, reserve })
                ==> requested == request.amount && balance == status.balance && reserve
                == status.verification_base_fee * 30
            &&& !(answer matches Err(RequestFundsError::Busy))
            &&& !(answer matches Err(RequestFundsError::NotReady(_)))
        }),
{
}

/// The note of an answer is public, comes from the funding account, runs the P2ID script for the
/// account of the request, and holds the requested amount of the native asset and nothing else.
pub proof fn law_answer_holds_what_was_requested(
    status: StatusSnapshot,
    fee_faucet_id: AccountId,
    request: RequestFundsRequest,
    seed: Seq<u32>,
    answer: Result<FundingAnswer, RequestFundsError>,
)
    requires
        is_answer(status, fee_faucet_id, request, seed, answer),
        answer is Ok,
    ensures
        ({
            let note = answer->Ok_0.note@;
            let target = chain::account_id_of_hex(request.account_id@)->0;
            &&& note.note_type == chain::NoteType::Public
            &&& note.sender == status.account_id@
            &&& chain::is_p2id_root_of(note.script_root)
            &&& note.storage.len() == 2
            &&& note.storage[0] == target.suffix
            &&& note.storage[1] == target.prefix
            &&& note.assets.len() == 1
            &&& note.assets[0] matches chain::Asset::Fungible { faucet_id, callbacks, amount }
                && faucet_id == fee_faucet_id && !callbacks && amount == request.amount
            &&& chain::note_of_bytes(note.bytes) == Some(note.content())
            &&& answer->Ok_0.response.note@ == text::hex_text(note.bytes)
        }),
{
}

/// An amount passes against the configured maximum exactly when it is positive and not above it, and
/// against the balance exactly when the balance covers it and thirty base fees, or when it is zero.
pub proof fn law_amounts_are_checked_against_their_bounds(
    amount: u64,
    maximum: u64,
    balance: u64,
    verification_base_fee: u32,
)
    ensures
        check_amount(amount, maximum) is Ok <==> 0 < amount <= maximum,
        check_amount(amount, maximum) == Err::<(), RequestFundsError>(
            RequestFundsError::InvalidAmount,
        ) <==> amount == 0,
        amount > maximum && amount > 0 ==> check_amount(amount, maximum) == Err::<
            (),
            RequestFundsError,
        >(RequestFundsError::AmountExceedsMaximum { requested: amount, maximum }),
        check_balance(amount, balance, verification_base_fee) is Ok <==> amount == 0 || amount
            + verification_base_fee * 30 <= balance,
        check_balance(amount, balance, verification_base_fee) matches Err(refused) ==> (
        refused matches RequestFundsError::InsufficientFunds { requested, balance: held, reserve }
            && requested == amount && held == balance && reserve == verification_base_fee * 30),
        fee_reserve_of(verification_base_fee) == verification_base_fee * 30,
{
}

} // verus!
