//! The funding worker.
//!
//! One task owns the funding account. It is the only writer of that account, which is what
//! serialises the transactions: the worker keeps a single transaction in flight and collects
//! everything which arrives in the meantime into the next one.
//!
//! A [`Funder`] decides and never waits. Each method takes what the node answered and returns what
//! to do next; the task which runs the worker reads the node, proves, and keeps the clock. Points
//! in time and intervals are nanoseconds, and the clock starts with the worker.

use std::collections::VecDeque;

use vstd::multiset::Multiset;
use vstd::prelude::*;
use vstd::seq_lib::*;

use crate::chain;
use crate::chain::AccountId;
use crate::chain::Note;
use crate::chain::Word;
use crate::funding::deposit;
use crate::funding::deposit::DepositScanner;
use crate::funding::request_funds;
use crate::funding::selection;
use crate::funding::selection::Selection;
use crate::funding::selection::SelectionLimits;
use crate::funding::status::StatusSnapshot;

verus! {

// CONSTANTS
// ================================================================================================

/// How long the worker waits for more notes after the first one arrives, in milliseconds.
pub const BATCH_LINGER_MS: u64 = 250;

/// The shortest delay before a node request is repeated, in milliseconds.
pub const NODE_RETRY_MIN_DELAY_MS: u64 = 100;

/// The longest delay before a node request is repeated, in milliseconds.
pub const NODE_RETRY_MAX_DELAY_MS: u64 = 5000;

/// How often a node request is repeated inside one cycle.
pub const NODE_RETRY_MAX_TIMES: usize = 5;

/// Upper bound on the fee formula's cycle multiplier: the kernel charges `verification_base_fee *
/// (ilog2(total_cycles) + 1)` with cycles capped at `2^29`.
pub const MAX_FEE_VERIFICATION_CYCLES: u64 = 30;

// CONFIGURATION
// ================================================================================================

/// The limits the worker applies to every transaction.
#[derive(Debug, Clone, Copy, PartialEq, Eq, Structural)]
pub struct WorkerConfig {
    /// The largest number of notes one transaction creates. Positive.
    pub max_notes_per_tx: usize,
    /// How many blocks after its reference block a funding transaction expires. Positive.
    pub expiration_delta: u16,
    /// How often the worker runs a cycle while it has work.
    pub tick_interval: u64,
    /// How long the worker waits between two scans for deposits.
    pub deposit_scan_interval: u64,
}

/// What the worker knows of its account and of the chain.
#[derive(Debug, Clone, Copy, PartialEq, Eq, Structural)]
pub struct FunderSetup {
    /// The funding account.
    pub account_id: AccountId,
    /// The commitment to the account's code, out of the account file.
    pub code_commitment: Word,
    /// The faucet which issues the native asset.
    pub fee_faucet_id: AccountId,
    /// The chain's verification base fee. Zero on a chain which does not charge fees.
    pub verification_base_fee: u32,
    /// The limits applied to every transaction.
    pub config: WorkerConfig,
    /// Where the worker publishes the funding account's balance.
    pub status: StatusSnapshot,
}

/// What one cycle reads of the chain, at one reference block.
#[derive(Debug, Clone, Copy, PartialEq, Eq, Structural)]
pub struct CycleInputs {
    /// The reference block.
    pub reference_block: u32,
    /// The verification base fee at the reference block.
    pub verification_base_fee: u32,
    /// The nonce of the funding account.
    pub nonce: u64,
    /// The funding account's balance of the native asset.
    pub balance: u64,
    /// The commitment to the code of the funding account.
    pub code_commitment: Word,
}

/// A transaction which the node accepted.
#[derive(Debug, Clone, Copy, PartialEq, Eq, Structural)]
pub struct Submitted {
    pub transaction_id: Word,
    /// The block at which the transaction expires.
    pub expiration_block: u32,
}

/// The transaction which is in flight.
#[derive(Debug)]
pub struct Pending {
    pub transaction_id: Word,
    /// The nonce of the funding account when the transaction was built. The account has one writer,
    /// so a higher nonce on chain means this transaction committed.
    pub nonce: u64,
    /// The block at which the transaction expires.
    pub expiration_block: u32,
    /// The deposits the transaction consumes. They return to the pool if it does not commit.
    pub deposits: Vec<Note>,
    /// The notes the transaction creates. They return to the queue if it does not commit.
    pub notes: Vec<Note>,
}

/// Where the worker is inside a cycle.
#[derive(Debug)]
pub enum CycleStage {
    /// No cycle runs.
    Idle,
    /// The chain state is being read.
    ReadingInputs,
    /// The chain is being scanned for deposits.
    Scanning(CycleInputs),
    /// The next transaction is about to be selected.
    Selecting(CycleInputs),
    /// The fee faucet is being read for the selected transaction.
    ReadingFeeFaucet(CycleInputs, Selection),
    /// The selected transaction is being executed, proven and submitted.
    Submitting(CycleInputs, Selection),
}

/// What the task does next for a cycle.
#[derive(Debug, Clone, Copy, PartialEq, Eq, Structural)]
pub enum CycleAction {
    /// The cycle is over.
    Done,
    /// Read the chain tip, and the funding account at the tip.
    ReadInputs,
    /// Scan for deposits.
    ScanDeposits,
    /// Select the next transaction.
    Select,
    /// Read the fee faucet and its witness at the reference block. The native asset is
    /// callback-enabled, so the kernel loads the issuing faucet whenever the asset moves.
    ReadFeeFaucet { reference_block: u32 },
    /// Execute, prove and submit the selected transaction.
    Submit,
}

/// What woke the worker.
#[derive(Debug)]
pub enum Wake {
    /// The service shuts down.
    Shutdown,
    /// It is time for a cycle.
    Tick,
    /// A note arrived.
    Note(Note),
    /// No note will arrive any more.
    Closed,
}

/// What the task does next after the worker woke.
#[derive(Debug, Clone, Copy, PartialEq, Eq, Structural)]
pub enum RunAction {
    /// The worker stops.
    Stop,
    /// Wait a moment, to give the notes which arrive together a chance to share one transaction, and
    /// then go on as below.
    Linger,
    /// Hand over every note which already waits, and run a cycle.
    Cycle,
}

/// A step of a submission.
#[derive(Debug, Clone, Copy, PartialEq, Eq, Structural)]
pub enum SubmitStep {
    Execute,
    Prove,
    Submit,
}

/// What follows a step of a submission.
#[derive(Debug, Clone, Copy, PartialEq, Eq, Structural)]
pub enum SubmitProgress {
    Continue(SubmitStep),
    /// The node accepted the transaction.
    Accepted,
}

/// Why a submission fails: what it was doing, and what went wrong.
#[derive(Debug)]
pub struct SubmitError {
    pub context: &'static str,
    pub cause: String,
}

/// Why a cycle fails.
#[derive(Debug, Clone, Copy, PartialEq, Eq, Structural)]
pub enum CycleError {
    /// The chain state could not be read.
    Inputs,
    /// The code of the account on chain does not match the account file.
    AccountCode,
    /// The fee faucet account could not be read.
    FeeFaucet,
}

impl CycleError {
    /// The text of the error, where `account` is the funding account in words.
    pub open spec fn text(self, account: Seq<char>) -> Seq<char> {
        match self {
            CycleError::Inputs => "failed to read the chain state"@,
            CycleError::AccountCode => "the code of account "@ + account
                + " on chain does not match the account file: is the account file from another network?"@,
            CycleError::FeeFaucet => "failed to read the fee faucet account"@,
        }
    }

    /// Renders the error, where `account` is the funding account in words.
    pub fn message(&self, account: &str) -> (message: String)
        ensures
            message@ == self.text(account@),
    {
        match self {
            CycleError::Inputs => "failed to read the chain state".to_owned(),
            CycleError::AccountCode => {
                let mut message = "the code of account ".to_owned();
                message.append(account);
                message.append(
                    " on chain does not match the account file: is the account file from another network?",
                );
                message
            },
            CycleError::FeeFaucet => "failed to read the fee faucet account".to_owned(),
        }
    }
}

// MODEL
// ================================================================================================

/// The deposits and the notes of one transaction.
pub struct SelectionView {
    pub deposits: Seq<Note>,
    pub notes: Seq<Note>,
}

impl View for Selection {
    type V = SelectionView;

    open spec fn view(&self) -> SelectionView {
        SelectionView { deposits: self.deposits@, notes: self.notes@ }
    }
}

/// The transaction in flight.
pub struct PendingView {
    pub transaction_id: Word,
    pub nonce: u64,
    pub expiration_block: u32,
    pub deposits: Seq<Note>,
    pub notes: Seq<Note>,
}

impl View for Pending {
    type V = PendingView;

    open spec fn view(&self) -> PendingView {
        PendingView {
            transaction_id: self.transaction_id,
            nonce: self.nonce,
            expiration_block: self.expiration_block,
            deposits: self.deposits@,
            notes: self.notes@,
        }
    }
}

/// Where the worker is inside a cycle.
pub enum StageView {
    Idle,
    ReadingInputs,
    Scanning(CycleInputs),
    Selecting(CycleInputs),
    ReadingFeeFaucet(CycleInputs, SelectionView),
    Submitting(CycleInputs, SelectionView),
}

impl View for CycleStage {
    type V = StageView;

    open spec fn view(&self) -> StageView {
        match *self {
            CycleStage::Idle => StageView::Idle,
            CycleStage::ReadingInputs => StageView::ReadingInputs,
            CycleStage::Scanning(inputs) => StageView::Scanning(inputs),
            CycleStage::Selecting(inputs) => StageView::Selecting(inputs),
            CycleStage::ReadingFeeFaucet(inputs, selected) => StageView::ReadingFeeFaucet(
                inputs,
                selected@,
            ),
            CycleStage::Submitting(inputs, selected) => StageView::Submitting(inputs, selected@),
        }
    }
}

/// The state of the worker.
pub struct FunderView {
    pub setup: FunderSetup,
    pub account_checked: bool,
    pub scanner: DepositScanner,
    pub queued: Seq<Note>,
    pub deposits: Seq<Note>,
    pub last_scan: Option<u64>,
    pub idle_until: Option<u64>,
    pub pending: Option<PendingView>,
    pub stage: StageView,
}

impl FunderView {
    /// Whether the deposit scan interval has passed.
    pub open spec fn scan_due(self, now: u64) -> bool {
        match self.last_scan {
            None => true,
            Some(at) => selection::saturating_difference(now as nat, at as nat)
                >= self.setup.config.deposit_scan_interval,
        }
    }

    /// Whether the worker has anything to do.
    pub open spec fn work_waits(self, now: u64) -> bool {
        if self.pending is Some {
            true
        } else if self.idle_until matches Some(at) && now < at {
            false
        } else {
            self.queued.len() > 0 || self.deposits.len() > 0 || self.scan_due(now)
        }
    }

    /// The worker after some notes arrived.
    pub open spec fn received(self, arrived: Seq<Note>) -> FunderView {
        FunderView {
            queued: self.queued + arrived,
            idle_until: if arrived.len() > 0 {
                None
            } else {
                self.idle_until
            },
            ..self
        }
    }

    /// The worker after the deposits and the notes of a transaction which did not reach the chain
    /// were returned. The notes go back in front of everything which arrived later.
    pub open spec fn restored(self, selected: SelectionView) -> FunderView {
        FunderView {
            deposits: self.deposits + selected.deposits,
            queued: selected.notes + self.queued,
            ..self
        }
    }

    /// Whether the transaction in flight committed, given the nonce of the account on chain.
    pub open spec fn committed(self, nonce: u64) -> bool {
        self.pending matches Some(pending) && nonce > pending.nonce
    }

    /// Whether the transaction in flight may still commit.
    pub open spec fn still_pending(self, nonce: u64, reference_block: u32) -> bool {
        self.pending matches Some(pending) && nonce <= pending.nonce && reference_block
            < pending.expiration_block
    }

    /// The worker after the transaction in flight was resolved.
    pub open spec fn resolved(self, nonce: u64, reference_block: u32) -> FunderView {
        match self.pending {
            None => self,
            Some(pending) => if nonce > pending.nonce {
                FunderView { pending: None, ..self }
            } else if reference_block < pending.expiration_block {
                self
            } else {
                FunderView { pending: None, ..self }.restored(
                    SelectionView { deposits: pending.deposits, notes: pending.notes },
                )
            },
        }
    }

    /// Whether the code on chain is the code of the account file. It is compared once.
    pub open spec fn code_matches(self, inputs: CycleInputs) -> bool {
        self.account_checked || inputs.code_commitment == self.setup.code_commitment
    }

    /// The worker after it published what it read.
    pub open spec fn published(self, inputs: CycleInputs) -> FunderView {
        FunderView {
            account_checked: true,
            setup: FunderSetup {
                status: StatusSnapshot {
                    balance: inputs.balance,
                    reference_block: inputs.reference_block,
                    verification_base_fee: inputs.verification_base_fee,
                    ..self.setup.status
                },
                ..self.setup
            },
            ..self
        }
    }

    /// The worker after it read the chain state, and what it does next.
    pub open spec fn after_inputs(self, inputs: CycleInputs, now: u64) -> (
        FunderView,
        Result<CycleAction, CycleError>,
    ) {
        if !self.code_matches(inputs) {
            (FunderView { stage: StageView::Idle, ..self }, Err(CycleError::AccountCode))
        } else {
            let published = self.published(inputs);
            if published.still_pending(inputs.nonce, inputs.reference_block) {
                (FunderView { stage: StageView::Idle, ..published }, Ok(CycleAction::Done))
            } else {
                let resolved = published.resolved(inputs.nonce, inputs.reference_block);
                if resolved.scan_due(now) {
                    (
                        FunderView { stage: StageView::Scanning(inputs), ..resolved },
                        Ok(CycleAction::ScanDeposits),
                    )
                } else {
                    (
                        FunderView { stage: StageView::Selecting(inputs), ..resolved },
                        Ok(CycleAction::Select),
                    )
                }
            }
        }
    }

    /// The worker after a scan found `found`. A deposit which is already pooled must not enter a
    /// transaction twice.
    pub open spec fn pooled(self, found: Seq<Note>, now: u64) -> FunderView {
        FunderView {
            deposits: self.deposits + deposit::without_nullifiers(
                found,
                deposit::nullifiers_of(self.deposits),
            ),
            last_scan: Some(now),
            ..self
        }
    }

    /// The worker after a scan, which found `found` or failed.
    pub open spec fn after_scan(self, found: Option<Seq<Note>>, now: u64) -> FunderView
        recommends
            self.stage is Scanning,
    {
        let next = FunderView { stage: StageView::Selecting(self.stage->Scanning_0), ..self };
        match found {
            Some(found) => next.pooled(found, now),
            None => next,
        }
    }

    /// What the next selection is bounded by.
    pub open spec fn limits(self, balance: u64) -> SelectionLimits {
        SelectionLimits {
            balance,
            reserve: request_funds::fee_reserve_of(self.setup.verification_base_fee) as u64,
            fee_faucet_id: self.setup.fee_faucet_id,
            max_notes: self.setup.config.max_notes_per_tx,
        }
    }

    /// Whether `after` is the worker after it selected a transaction at `inputs`, with `action` as
    /// what it does next.
    pub open spec fn selects(
        self,
        inputs: CycleInputs,
        now: u64,
        after: FunderView,
        action: CycleAction,
    ) -> bool {
        let limits = self.limits(inputs.balance);
        if selection::worth_submitting(self.deposits, self.queued, limits) {
            let count = selection::note_count(self.deposits, self.queued, limits);
            &&& after.stage is ReadingFeeFaucet
            &&& after.stage->ReadingFeeFaucet_0 == inputs
            &&& after.stage->ReadingFeeFaucet_1.notes == self.queued.take(count)
            &&& selection::takes_the_largest(
                self.deposits,
                after.stage->ReadingFeeFaucet_1.deposits,
                after.deposits,
                self.setup.fee_faucet_id,
            )
            &&& after == FunderView {
                idle_until: None,
                queued: self.queued.skip(count),
                deposits: after.deposits,
                stage: after.stage,
                ..self
            }
            &&& action == CycleAction::ReadFeeFaucet { reference_block: inputs.reference_block }
        } else {
            &&& after == FunderView {
                idle_until: Some((now + self.setup.config.deposit_scan_interval) as u64),
                stage: StageView::Idle,
                ..self
            }
            &&& action == CycleAction::Done
        }
    }

    /// The worker after it tried to read the fee faucet, and what it does next.
    pub open spec fn after_fee_faucet(self, read: bool) -> (
        FunderView,
        Result<CycleAction, CycleError>,
    )
        recommends
            self.stage is ReadingFeeFaucet,
    {
        let inputs = self.stage->ReadingFeeFaucet_0;
        let selected = self.stage->ReadingFeeFaucet_1;
        if read {
            (
                FunderView { stage: StageView::Submitting(inputs, selected), ..self },
                Ok(CycleAction::Submit),
            )
        } else {
            (
                FunderView { stage: StageView::Idle, ..self }.restored(selected),
                Err(CycleError::FeeFaucet),
            )
        }
    }

    /// The worker after the node answered a submission.
    pub open spec fn after_submission(self, outcome: Option<Submitted>) -> FunderView
        recommends
            self.stage is Submitting,
    {
        let inputs = self.stage->Submitting_0;
        let selected = self.stage->Submitting_1;
        match outcome {
            Some(submitted) => FunderView {
                pending: Some(
                    PendingView {
                        transaction_id: submitted.transaction_id,
                        nonce: inputs.nonce,
                        expiration_block: submitted.expiration_block,
                        deposits: selected.deposits,
                        notes: selected.notes,
                    },
                ),
                stage: StageView::Idle,
                ..self
            },
            None => FunderView { stage: StageView::Idle, ..self }.restored(selected),
        }
    }

    /// The transaction which was selected and not yet submitted.
    pub open spec fn selected(self) -> Option<SelectionView> {
        match self.stage {
            StageView::ReadingFeeFaucet(_, selected) => Some(selected),
            StageView::Submitting(_, selected) => Some(selected),
            _ => None,
        }
    }

    /// Whether at most one transaction is selected or in flight: past the reading of the chain
    /// state, a cycle goes on only when nothing is in flight.
    pub open spec fn one_transaction(self) -> bool {
        self.stage is Idle || self.stage is ReadingInputs || self.pending is None
    }

    /// The notes which requesters were answered with and which are not known to be committed, the
    /// oldest first.
    pub open spec fn promised(self) -> Seq<Note> {
        let in_flight = match self.pending {
            Some(pending) => pending.notes,
            None => match self.selected() {
                Some(selected) => selected.notes,
                None => Seq::empty(),
            },
        };
        in_flight + self.queued
    }

    /// The deposits which were found and which are not known to be consumed.
    pub open spec fn held_deposits(self) -> Multiset<Note> {
        let in_flight = match self.pending {
            Some(pending) => pending.deposits,
            None => match self.selected() {
                Some(selected) => selected.deposits,
                None => Seq::empty(),
            },
        };
        in_flight.to_multiset().add(self.deposits.to_multiset())
    }
}

// FUNDER
// ================================================================================================

/// Turns queued funding notes and collected deposits into transactions.
#[derive(Debug)]
pub struct Funder {
    pub setup: FunderSetup,
    /// Whether the account on chain was checked against the account file.
    pub account_checked: bool,
    pub scanner: DepositScanner,
    /// Notes the service already answered a requester with, which no transaction created yet.
    pub queued: VecDeque<Note>,
    /// Deposits found on chain which no transaction consumed yet.
    pub deposits: Vec<Note>,
    /// When the last deposit scan ran. `None` until the first scan.
    pub last_scan: Option<u64>,
    /// When the worker tries again after it found nothing worth submitting. Only a deposit raises
    /// the balance, and deposits arrive on their own interval, so an earlier retry would read the
    /// same chain state again.
    pub idle_until: Option<u64>,
    pub pending: Option<Pending>,
    pub stage: CycleStage,
}

impl View for Funder {
    type V = FunderView;

    open spec fn view(&self) -> FunderView {
        FunderView {
            setup: self.setup,
            account_checked: self.account_checked,
            scanner: self.scanner,
            queued: self.queued@,
            deposits: self.deposits@,
            last_scan: self.last_scan,
            idle_until: self.idle_until,
            pending: match self.pending {
                Some(pending) => Some(pending@),
                None => None,
            },
            stage: self.stage@,
        }
    }
}

impl Funder {
    /// Creates a worker for the given funding account.
    pub fn new(setup: FunderSetup) -> (funder: Funder)
        ensures
            funder@ == (FunderView {
                setup,
                account_checked: false,
                scanner: DepositScanner {
                    funder: setup.account_id,
                    fee_faucet_id: setup.fee_faucet_id,
                    next_block: 0,
                },
                queued: Seq::empty(),
                deposits: Seq::empty(),
                last_scan: None,
                idle_until: None,
                pending: None,
                stage: StageView::Idle,
            }),
    {
        Funder {
            setup,
            account_checked: false,
            scanner: DepositScanner::new(setup.account_id, setup.fee_faucet_id),
            queued: VecDeque::new(),
            deposits: Vec::new(),
            last_scan: None,
            idle_until: None,
            pending: None,
            stage: CycleStage::Idle,
        }
    }

    /// Takes what woke the worker. A note which arrived is queued.
    pub fn run(&mut self, wake: Wake) -> (action: RunAction)
        ensures
            match wake {
                Wake::Shutdown | Wake::Closed => action == RunAction::Stop && final(self)@
                    == old(self)@,
                Wake::Tick => action == RunAction::Cycle && final(self)@ == old(self)@,
                Wake::Note(note) => action == RunAction::Linger && final(self)@
                    == old(self)@.received(seq![note]),
            },
    {
        match wake {
            Wake::Shutdown => RunAction::Stop,
            Wake::Closed => RunAction::Stop,
            Wake::Tick => RunAction::Cycle,
            Wake::Note(note) => {
                let mut arrived: Vec<Note> = Vec::new();
                arrived.push(note);
                assert(arrived@ =~= seq![note]);
                self.receive(arrived);
                RunAction::Linger
            },
        }
    }

    /// Queues the notes which arrived since the previous cycle.
    ///
    /// A new note may be payable even when the queue ahead of it is not, so the worker tries again
    /// at once instead of waiting out the idle gate.
    pub fn receive(&mut self, arrived: Vec<Note>)
        ensures
            final(self)@ == old(self)@.received(arrived@),
    {
        if arrived.len() > 0 {
            self.idle_until = None;
        }
        let mut behind: VecDeque<Note> = VecDeque::new();
        push_all_front(&mut behind, arrived);
        self.queued.append(&mut behind);
        proof {
            assert(self@.queued =~= old(self)@.queued + arrived@);
            assert(self@.pending == old(self)@.pending);
        }
    }

    /// Reports whether the worker has anything to do.
    pub fn has_work(&self, now: u64) -> (work: bool)
        ensures
            work == self@.work_waits(now),
    {
        if self.pending.is_some() {
            return true;
        }
        if let Some(at) = self.idle_until {
            if now < at {
                return false;
            }
        }
        self.queued.len() > 0 || self.deposits.len() > 0 || self.scan_is_due(now)
    }

    /// Reports whether the deposit scan interval has passed.
    pub fn scan_is_due(&self, now: u64) -> (due: bool)
        ensures
            due == self@.scan_due(now),
    {
        match self.last_scan {
            None => true,
            Some(at) => now.saturating_sub(at) >= self.setup.config.deposit_scan_interval,
        }
    }

    /// Starts a cycle: resolve the transaction in flight, scan for deposits, and submit the next
    /// transaction.
    pub fn cycle(&mut self, now: u64) -> (action: CycleAction)
        requires
            old(self)@.stage is Idle,
        ensures
            match action {
                CycleAction::ReadInputs => old(self)@.work_waits(now) && final(self)@ == (
                FunderView { stage: StageView::ReadingInputs, ..old(self)@ }),
                CycleAction::Done => !old(self)@.work_waits(now) && final(self)@ == old(self)@,
                _ => false,
            },
    {
        if !self.has_work(now) {
            return CycleAction::Done;
        }
        self.stage = CycleStage::ReadingInputs;
        CycleAction::ReadInputs
    }

    /// Takes the chain state, or `None` when it could not be read.
    pub fn on_inputs(&mut self, inputs: Option<CycleInputs>, now: u64) -> (next: Result<
        CycleAction,
        CycleError,
    >)
        requires
            old(self)@.stage is ReadingInputs,
        ensures
            match inputs {
                Some(inputs) => (final(self)@, next) == old(self)@.after_inputs(inputs, now),
                None => next == Err::<CycleAction, CycleError>(CycleError::Inputs) && final(self)@
                    == (FunderView { stage: StageView::Idle, ..old(self)@ }),
            },
    {
        self.stage = CycleStage::Idle;
        let inputs = match inputs {
            Some(inputs) => inputs,
            None => {
                return Err(CycleError::Inputs);
            },
        };
        if let Err(error) = self.check_account_code(inputs.code_commitment) {
            return Err(error);
        }
        let mut status = self.setup.status;
        status.update(inputs.balance, inputs.reference_block, inputs.verification_base_fee);
        self.setup.status = status;

        if self.resolve_pending(inputs.nonce, inputs.reference_block) {
            return Ok(CycleAction::Done);
        }
        if self.scan_is_due(now) {
            self.stage = CycleStage::Scanning(inputs);
            return Ok(CycleAction::ScanDeposits);
        }
        self.stage = CycleStage::Selecting(inputs);
        Ok(CycleAction::Select)
    }

    /// Checks the account on chain against the account file, once.
    pub fn check_account_code(&mut self, code_commitment: Word) -> (checked: Result<
        (),
        CycleError,
    >)
        ensures
            ({
                let matches = old(self)@.account_checked || code_commitment
                    == old(self)@.setup.code_commitment;
                if matches {
                    checked is Ok && final(self)@ == (FunderView {
                        account_checked: true,
                        ..old(self)@
                    })
                } else {
                    checked == Err::<(), CycleError>(CycleError::AccountCode) && final(self)@
                        == old(self)@
                }
            }),
    {
        if self.account_checked {
            return Ok(());
        }
        if code_commitment != self.setup.code_commitment {
            return Err(CycleError::AccountCode);
        }
        self.account_checked = true;
        Ok(())
    }

    /// Resolves the transaction in flight and reports whether it is still pending.
    pub fn resolve_pending(&mut self, nonce: u64, reference_block: u32) -> (pending: bool)
        ensures
            pending == old(self)@.still_pending(nonce, reference_block),
            final(self)@ == old(self)@.resolved(nonce, reference_block),
    {
        match &self.pending {
            None => {
                return false;
            },
            Some(pending) => {
                if nonce <= pending.nonce && reference_block < pending.expiration_block {
                    return true;
                }
            },
        }
        let mut resolved: Option<Pending> = None;
        std::mem::swap(&mut resolved, &mut self.pending);
        if let Some(pending) = resolved {
            if nonce <= pending.nonce {
                self.restore(pending.deposits, pending.notes);
            }
        }
        false
    }

    /// Takes the deposits which a scan found, or `None` when the scan failed. The deposits which are
    /// not yet pooled join the pool.
    pub fn on_scanned(&mut self, found: Option<Vec<Note>>, now: u64) -> (action: CycleAction)
        requires
            old(self)@.stage is Scanning,
        ensures
            action == CycleAction::Select,
            final(self)@ == old(self)@.after_scan(
                match found {
                    Some(found) => Some(found@),
                    None => None,
                },
                now,
            ),
    {
        if let CycleStage::Scanning(inputs) = self.stage {
            self.stage = CycleStage::Selecting(inputs);
        }
        if let Some(found) = found {
            self.scan_deposits(found, now);
        }
        CycleAction::Select
    }

    /// Adds the deposits which a scan found to the pool. A deposit which is already pooled must not
    /// enter a transaction twice.
    pub fn scan_deposits(&mut self, found: Vec<Note>, now: u64)
        ensures
            final(self)@ == old(self)@.pooled(found@, now),
    {
        self.last_scan = Some(now);
        let pooled = deposit::collect_nullifiers(&self.deposits);
        let mut fresh = deposit::drop_nullified(found, &pooled);
        self.deposits.append(&mut fresh);
        assert(self@.pending == old(self)@.pending);
    }

    /// Reports whether the deposits of the next transaction add up to an amount which fits a `u64`.
    pub fn collection_fits(&self) -> (fits: bool)
        ensures
            fits == (selection::collected(self@.deposits, self@.setup.fee_faucet_id) <= u64::MAX),
    {
        selection::collection_fits(&self.deposits, self.setup.fee_faucet_id)
    }

    /// Takes the deposits and the notes of the next transaction out of the queues.
    ///
    /// When there is nothing worth submitting, the worker waits out the scan interval: only a
    /// deposit changes the answer, and deposits arrive on their own interval.
    pub fn select(&mut self, now: u64) -> (action: CycleAction)
        requires
            old(self)@.stage is Selecting,
            now + old(self)@.setup.config.deposit_scan_interval <= u64::MAX,
            selection::collected(old(self)@.deposits, old(self)@.setup.fee_faucet_id) <= u64::MAX,
        ensures
            old(self)@.selects(old(self)@.stage->Selecting_0, now, final(self)@, action),
    {
        let mut stage = CycleStage::Idle;
        std::mem::swap(&mut stage, &mut self.stage);
        if let CycleStage::Selecting(inputs) = stage {
            let limits = SelectionLimits {
                balance: inputs.balance,
                reserve: request_funds::fee_reserve(self.setup.verification_base_fee),
                fee_faucet_id: self.setup.fee_faucet_id,
                max_notes: self.setup.config.max_notes_per_tx,
            };
            if let Some(selected) = selection::select(&mut self.deposits, &mut self.queued, limits) {
                self.idle_until = None;
                self.stage = CycleStage::ReadingFeeFaucet(inputs, selected);
                return CycleAction::ReadFeeFaucet { reference_block: inputs.reference_block };
            }
        }
        self.idle_until = Some(now + self.setup.config.deposit_scan_interval);
        CycleAction::Done
    }

    /// Returns the deposits and the notes of a transaction which did not reach the chain.
    pub fn restore(&mut self, deposits: Vec<Note>, notes: Vec<Note>)
        ensures
            final(self)@ == old(self)@.restored(
                SelectionView { deposits: deposits@, notes: notes@ },
            ),
    {
        let mut returned = deposits;
        self.deposits.append(&mut returned);
        // The notes go back in front of everything which arrived later, which keeps the queue
        // first-come-first-served.
        push_all_front(&mut self.queued, notes);
        assert(self@.pending == old(self)@.pending);
    }

    /// Takes whether the fee faucet could be read.
    pub fn on_fee_faucet(&mut self, read: bool) -> (next: Result<CycleAction, CycleError>)
        requires
            old(self)@.stage is ReadingFeeFaucet,
        ensures
            (final(self)@, next) == old(self)@.after_fee_faucet(read),
    {
        let mut stage = CycleStage::Idle;
        std::mem::swap(&mut stage, &mut self.stage);
        if let CycleStage::ReadingFeeFaucet(inputs, selected) = stage {
            if read {
                self.stage = CycleStage::Submitting(inputs, selected);
                return Ok(CycleAction::Submit);
            }
            self.restore(selected.deposits, selected.notes);
        }
        Err(CycleError::FeeFaucet)
    }

    /// Takes what became of the submission: the transaction, or `None` when it did not reach the
    /// chain.
    pub fn on_submitted(&mut self, outcome: Option<Submitted>) -> (action: CycleAction)
        requires
            old(self)@.stage is Submitting,
        ensures
            action == CycleAction::Done,
            final(self)@ == old(self)@.after_submission(outcome),
    {
        let mut stage = CycleStage::Idle;
        std::mem::swap(&mut stage, &mut self.stage);
        if let CycleStage::Submitting(inputs, selected) = stage {
            match outcome {
                Some(submitted) => {
                    self.pending = Some(
                        Pending {
                            transaction_id: submitted.transaction_id,
                            nonce: inputs.nonce,
                            expiration_block: submitted.expiration_block,
                            deposits: selected.deposits,
                            notes: selected.notes,
                        },
                    );
                },
                None => {
                    self.restore(selected.deposits, selected.notes);
                },
            }
        }
        CycleAction::Done
    }
}

/// Puts `notes` in front of the queue, in order.
fn push_all_front(queued: &mut VecDeque<Note>, notes: Vec<Note>)
    ensures
        final(queued)@ == notes@ + old(queued)@,
{
    let ghost all = notes@;
    let ghost behind = queued@;
    let mut rest = notes;
    while rest.len() > 0
        invariant
            rest@.len() <= all.len(),
            rest@ =~= all.take(rest@.len() as int),
            queued@ =~= all.skip(rest@.len() as int) + behind,
        decreases rest@.len(),
    {
        if let Some(note) = rest.pop() {
            queued.push_front(note);
        }
    }
    assert(all.skip(0) =~= all);
}

// SUBMISSION
// ================================================================================================

impl SubmitStep {
    /// What follows when the step succeeds.
    pub open spec fn next(self) -> SubmitProgress {
        match self {
            SubmitStep::Execute => SubmitProgress::Continue(SubmitStep::Prove),
            SubmitStep::Prove => SubmitProgress::Continue(SubmitStep::Submit),
            SubmitStep::Submit => SubmitProgress::Accepted,
        }
    }

    /// What is said of a failure of the step.
    pub open spec fn context(self) -> Seq<char> {
        match self {
            SubmitStep::Execute => "failed to execute the funding transaction"@,
            SubmitStep::Prove => "failed to prove the funding transaction"@,
            SubmitStep::Submit => "failed to submit the funding transaction"@,
        }
    }

    /// Takes how the step went: it succeeded, or it failed with a text.
    pub fn finish(self, outcome: Result<(), String>) -> (progress: Result<
        SubmitProgress,
        SubmitError,
    >)
        ensures
            match (outcome, progress) {
                (Ok(_), Ok(progress)) => progress == self.next(),
                (Err(cause), Err(error)) => error.context@ == self.context() && error.cause
                    == cause,
                _ => false,
            },
    {
        match outcome {
            Ok(_) => Ok(
                match self {
                    SubmitStep::Execute => SubmitProgress::Continue(SubmitStep::Prove),
                    SubmitStep::Prove => SubmitProgress::Continue(SubmitStep::Submit),
                    SubmitStep::Submit => SubmitProgress::Accepted,
                },
            ),
            Err(cause) => {
                let context = match self {
                    SubmitStep::Execute => "failed to execute the funding transaction",
                    SubmitStep::Prove => "failed to prove the funding transaction",
                    SubmitStep::Submit => "failed to submit the funding transaction",
                };
                Err(SubmitError { context, cause })
            },
        }
    }
}

// RETRIES
// ================================================================================================

/// The delay before a node request is repeated, in milliseconds: it starts at the shortest delay,
/// doubles with every failure, and stops at the longest. The doubling is chosen here: the limits on
/// the delay and on the repetitions do not fix it.
pub open spec fn retry_delay_of(failures: nat) -> nat
    decreases failures,
{
    if failures == 0 {
        NODE_RETRY_MIN_DELAY_MS as nat
    } else if 2 * retry_delay_of((failures - 1) as nat) <= NODE_RETRY_MAX_DELAY_MS {
        2 * retry_delay_of((failures - 1) as nat)
    } else {
        NODE_RETRY_MAX_DELAY_MS as nat
    }
}

/// Whether a request which failed is repeated: only a transient failure is, and only so often.
pub open spec fn is_retried(failures: nat, transient: bool) -> bool {
    transient && failures < NODE_RETRY_MAX_TIMES
}

/// Decides what happens after a node request failed: the delay in milliseconds before it is
/// repeated, or `None` to give up. `failures` counts the failures before this one. Only a transient
/// failure is retried.
pub fn retry_node_call(failures: usize, transient: bool) -> (delay: Option<u64>)
    ensures
        delay is Some <==> transient && failures < NODE_RETRY_MAX_TIMES,
        delay matches Some(delay) ==> delay == retry_delay_of(failures as nat),
        delay is Some <==> is_retried(failures as nat, transient),
{
    if !transient || failures >= NODE_RETRY_MAX_TIMES {
        return None;
    }
    let mut delay: u64 = NODE_RETRY_MIN_DELAY_MS;
    let mut doubled: usize = 0;
    while doubled < failures
        invariant
            doubled <= failures,
            delay == retry_delay_of(doubled as nat),
            delay <= NODE_RETRY_MAX_DELAY_MS,
        decreases failures - doubled,
    {
        delay = if 2 * delay <= NODE_RETRY_MAX_DELAY_MS {
            2 * delay
        } else {
            NODE_RETRY_MAX_DELAY_MS
        };
        doubled = doubled + 1;
    }
    Some(delay)
}

// LAWS OF THE WORKER
// ================================================================================================

/// The worker never has two transactions at once: reading the chain state lets a cycle go on only
/// when nothing is in flight, and every later step keeps it so.
pub proof fn law_one_transaction_at_a_time(
    funder: FunderView,
    inputs: CycleInputs,
    found: Option<Seq<Note>>,
    after: FunderView,
    action: CycleAction,
    read: bool,
    outcome: Option<Submitted>,
    now: u64,
)
    requires
        funder.one_transaction(),
    ensures
        funder.stage is ReadingInputs ==> funder.after_inputs(inputs, now).0.one_transaction(),
        funder.stage is Scanning ==> funder.after_scan(found, now).one_transaction(),
        funder.stage is Selecting && funder.selects(inputs, now, after, action)
            ==> after.one_transaction(),
        funder.stage is ReadingFeeFaucet ==> funder.after_fee_faucet(read).0.one_transaction(),
        funder.stage is Submitting ==> funder.after_submission(outcome).one_transaction(),
{
}

/// No promise is dropped or reordered: the notes which requesters were answered with stay, oldest
/// first, through every step of a cycle, until the transaction which creates them commits.
pub proof fn law_promises_are_kept(
    funder: FunderView,
    inputs: CycleInputs,
    found: Option<Seq<Note>>,
    after: FunderView,
    action: CycleAction,
    read: bool,
    outcome: Option<Submitted>,
    now: u64,
)
    requires
        funder.one_transaction(),
    ensures
        funder.stage is ReadingInputs ==> {
            let next = funder.after_inputs(inputs, now).0;
            if funder.code_matches(inputs) && funder.committed(inputs.nonce) {
                next.promised() == funder.queued && funder.promised() == funder.pending->0.notes
                    + funder.queued
            } else {
                next.promised() == funder.promised()
            }
        },
        funder.stage is Scanning ==> funder.after_scan(found, now).promised() == funder.promised(),
        funder.stage is Selecting && funder.selects(inputs, now, after, action)
            ==> after.promised() == funder.promised(),
        funder.stage is ReadingFeeFaucet ==> funder.after_fee_faucet(read).0.promised()
            == funder.promised(),
        funder.stage is Submitting ==> funder.after_submission(outcome).promised()
            == funder.promised(),
{
    if funder.stage is ReadingInputs {
        assert(funder.after_inputs(inputs, now).0.promised() =~= if funder.code_matches(inputs)
            && funder.committed(inputs.nonce) {
            funder.queued
        } else {
            funder.promised()
        });
    }
    if funder.stage is Selecting && funder.selects(inputs, now, after, action) {
        let limits = funder.limits(inputs.balance);
        selection::law_selection_respects_the_caps(funder.deposits, funder.queued, limits);
        assert(after.promised() =~= funder.promised());
    }
    if funder.stage is ReadingFeeFaucet {
        assert(funder.after_fee_faucet(read).0.promised() =~= funder.promised());
    }
    if funder.stage is Submitting {
        assert(funder.after_submission(outcome).promised() =~= funder.promised());
    }
}

/// A new note joins the notes which were promised, behind all of them.
pub proof fn law_new_notes_queue_behind(funder: FunderView, arrived: Seq<Note>)
    ensures
        funder.received(arrived).promised() == funder.promised() + arrived,
{
    assert(funder.received(arrived).promised() =~= funder.promised() + arrived);
}

/// No deposit is dropped or used twice: the deposits which were found stay, in the pool or in the
/// one transaction, until the transaction which consumes them commits. Only a scan adds to them.
pub proof fn law_deposits_are_held(
    funder: FunderView,
    inputs: CycleInputs,
    found: Option<Seq<Note>>,
    after: FunderView,
    action: CycleAction,
    read: bool,
    outcome: Option<Submitted>,
    now: u64,
)
    requires
        funder.one_transaction(),
    ensures
        funder.stage is ReadingInputs ==> {
            let next = funder.after_inputs(inputs, now).0;
            if funder.code_matches(inputs) && funder.committed(inputs.nonce) {
                next.held_deposits() == funder.deposits.to_multiset()
            } else {
                next.held_deposits() == funder.held_deposits()
            }
        },
        funder.stage is Scanning ==> {
            let fresh = match found {
                Some(found) => deposit::without_nullifiers(
                    found,
                    deposit::nullifiers_of(funder.deposits),
                ),
                None => Seq::empty(),
            };
            funder.after_scan(found, now).held_deposits() == funder.held_deposits().add(
                fresh.to_multiset(),
            )
        },
        funder.stage is Selecting && funder.selects(inputs, now, after, action)
            ==> after.held_deposits() == funder.held_deposits(),
        funder.stage is ReadingFeeFaucet ==> funder.after_fee_faucet(read).0.held_deposits()
            == funder.held_deposits(),
        funder.stage is Submitting ==> funder.after_submission(outcome).held_deposits()
            == funder.held_deposits(),
{
    broadcast use group_to_multiset_ensures;

    if funder.stage is ReadingInputs && funder.pending is Some {
        lemma_multiset_commutative(funder.deposits, funder.pending->0.deposits);
        assert(funder.after_inputs(inputs, now).0.held_deposits() =~= if funder.code_matches(inputs)
            && funder.committed(inputs.nonce) {
            funder.deposits.to_multiset()
        } else {
            funder.held_deposits()
        });
    }
    if funder.stage is Scanning {
        match found {
            Some(found) => {
                let fresh = deposit::without_nullifiers(
                    found,
                    deposit::nullifiers_of(funder.deposits),
                );
                lemma_multiset_commutative(funder.deposits, fresh);
                assert(funder.after_scan(Some(found), now).held_deposits()
                    =~= funder.held_deposits().add(fresh.to_multiset()));
            },
            None => {
                assert(funder.held_deposits().add(Seq::<Note>::empty().to_multiset())
                    =~= funder.held_deposits());
            },
        }
    }
    if funder.stage is Selecting && funder.selects(inputs, now, after, action) {
        if selection::worth_submitting(
            funder.deposits,
            funder.queued,
            funder.limits(inputs.balance),
        ) {
            selection::law_deposits_are_conserved(
                funder.deposits,
                after.stage->ReadingFeeFaucet_1.deposits,
                after.deposits,
                funder.setup.fee_faucet_id,
            );
        }
        assert(after.held_deposits() =~= funder.held_deposits());
    }
    if funder.stage is ReadingFeeFaucet {
        let selected = funder.stage->ReadingFeeFaucet_1;
        lemma_multiset_commutative(funder.deposits, selected.deposits);
        assert(funder.after_fee_faucet(read).0.held_deposits() =~= funder.held_deposits());
    }
    if funder.stage is Submitting {
        let selected = funder.stage->Submitting_1;
        lemma_multiset_commutative(funder.deposits, selected.deposits);
        assert(funder.after_submission(outcome).held_deposits() =~= funder.held_deposits());
    }
}

/// Returning a selection undoes it: the queue is what it was, and the pool holds the same deposits.
pub proof fn law_restore_undoes_select(
    funder: FunderView,
    inputs: CycleInputs,
    now: u64,
    after: FunderView,
    action: CycleAction,
)
    requires
        funder.stage is Selecting,
        funder.selects(inputs, now, after, action),
        after.selected() is Some,
    ensures
        after.restored(after.selected()->0).queued == funder.queued,
        after.restored(after.selected()->0).deposits.to_multiset()
            == funder.deposits.to_multiset(),
{
    let limits = funder.limits(inputs.balance);
    let selected = after.selected()->0;
    selection::law_selection_respects_the_caps(funder.deposits, funder.queued, limits);
    assert(after.restored(selected).queued =~= funder.queued);
    selection::law_deposits_are_conserved(
        funder.deposits,
        selected.deposits,
        after.deposits,
        funder.setup.fee_faucet_id,
    );
    lemma_multiset_commutative(after.deposits, selected.deposits);
    assert(after.restored(selected).deposits.to_multiset() =~= funder.deposits.to_multiset());
}

/// A deposit is pooled once: as long as a scan returns no nullifier twice, the pool holds no
/// nullifier twice.
pub proof fn law_no_deposit_is_pooled_twice(funder: FunderView, found: Seq<Note>, now: u64)
    requires
        deposit::nullifiers_of(funder.deposits).no_duplicates(),
        deposit::nullifiers_of(found).no_duplicates(),
    ensures
        deposit::nullifiers_of(funder.pooled(found, now).deposits).no_duplicates(),
{
    let pooled = deposit::nullifiers_of(funder.deposits);
    let fresh = deposit::without_nullifiers(found, pooled);
    lemma_filtered_nullifiers(found, pooled);
    let all = deposit::nullifiers_of(funder.deposits + fresh);
    assert(all =~= pooled + deposit::nullifiers_of(fresh));
    assert forall|i: int, j: int| 0 <= i < all.len() && 0 <= j < all.len() && i != j implies all[i]
        != all[j] by {
        let n = pooled.len();
        if i < n && j >= n {
            assert(deposit::nullifiers_of(fresh)[j - n] == all[j]);
            assert(!pooled.contains(fresh[j - n]@.nullifier));
            assert(pooled[i] == all[i]);
        } else if j < n && i >= n {
            assert(deposit::nullifiers_of(fresh)[i - n] == all[i]);
            assert(!pooled.contains(fresh[i - n]@.nullifier));
            assert(pooled[j] == all[j]);
        } else if i >= n && j >= n {
            assert(deposit::nullifiers_of(fresh)[i - n] == all[i]);
            assert(deposit::nullifiers_of(fresh)[j - n] == all[j]);
        }
    }
}

proof fn lemma_filtered_nullifiers(found: Seq<Note>, pooled: Seq<Word>)
    requires
        deposit::nullifiers_of(found).no_duplicates(),
    ensures
        deposit::nullifiers_of(deposit::without_nullifiers(found, pooled)).no_duplicates(),
        forall|i: int|
            0 <= i < deposit::without_nullifiers(found, pooled).len() ==> !pooled.contains(
                (#[trigger] deposit::without_nullifiers(found, pooled)[i])@.nullifier,
            ),
        forall|i: int|
            0 <= i < deposit::without_nullifiers(found, pooled).len() ==> found.contains(
                #[trigger] deposit::without_nullifiers(found, pooled)[i],
            ),
    decreases found.len(),
{
    reveal(Seq::filter);
    if found.len() > 0 {
        let rest = found.drop_last();
        let last = found.last();
        let names = deposit::nullifiers_of(found);
        assert(deposit::nullifiers_of(rest) =~= names.drop_last());
        lemma_filtered_nullifiers(rest, pooled);
        let kept = deposit::without_nullifiers(rest, pooled);
        let all = deposit::without_nullifiers(found, pooled);
        assert forall|i: int| 0 <= i < all.len() implies found.contains(#[trigger] all[i]) by {
            if i < kept.len() {
                assert(rest.contains(kept[i]));
                let k = choose|k: int| 0 <= k < rest.len() && rest[k] == kept[i];
                assert(found[k] == all[i]);
            } else {
                assert(found[found.len() - 1] == all[i]);
            }
        }
        if !pooled.contains(last@.nullifier) {
            assert(all == kept.push(last));
            let kept_names = deposit::nullifiers_of(kept);
            assert(deposit::nullifiers_of(all) =~= kept_names.push(last@.nullifier));
            assert forall|i: int| 0 <= i < kept_names.len() implies kept_names[i]
                != last@.nullifier by {
                assert(rest.contains(kept[i]));
                let k = choose|k: int| 0 <= k < rest.len() && rest[k] == kept[i];
                assert(names[k] == kept_names[i]);
                assert(names[found.len() - 1] == last@.nullifier);
            }
        }
    }
}

/// After the worker found nothing worth submitting it rests for one scan interval, unless a note
/// arrives.
pub proof fn law_worker_rests_until_a_note_arrives(
    funder: FunderView,
    inputs: CycleInputs,
    now: u64,
    after: FunderView,
    later: u64,
    arrived: Seq<Note>,
)
    requires
        funder.one_transaction(),
        funder.stage is Selecting,
        funder.selects(inputs, now, after, CycleAction::Done),
        now <= later < now + funder.setup.config.deposit_scan_interval <= u64::MAX,
        arrived.len() > 0,
    ensures
        !after.work_waits(later),
        after.received(arrived).work_waits(later),
{
}

// LAWS OF A CYCLE
// ================================================================================================

/// The worker cycles while a transaction is in flight. Otherwise it cycles when it does not rest and
/// a note is queued, a deposit is pooled, or it is time for a scan.
pub proof fn law_worker_cycles_when_there_is_something_to_do(funder: FunderView, now: u64)
    ensures
        funder.work_waits(now) <==> {
            let interval = funder.setup.config.deposit_scan_interval;
            let rests = funder.idle_until matches Some(until) && now < until;
            let scan = match funder.last_scan {
                None => true,
                Some(at) => interval == 0 || now - at >= interval,
            };
            funder.pending is Some || (!rests && (funder.queued.len() > 0 || funder.deposits.len()
                > 0 || scan))
        },
{
}

/// Notes which arrive join the end of the queue, end the rest of the worker, and change nothing else.
pub proof fn law_arrival_changes_only_the_queue_and_the_rest(
    funder: FunderView,
    arrived: Seq<Note>,
)
    ensures
        ({
            let after = funder.received(arrived);
            &&& after.queued == funder.queued + arrived
            &&& arrived.len() > 0 ==> after.idle_until is None
            &&& arrived.len() == 0 ==> after.idle_until == funder.idle_until
            &&& after.setup == funder.setup
            &&& after.account_checked == funder.account_checked
            &&& after.scanner == funder.scanner
            &&& after.deposits == funder.deposits
            &&& after.last_scan == funder.last_scan
            &&& after.pending == funder.pending
            &&& after.stage == funder.stage
        }),
{
}

/// After the chain state was read, with the expected account and nothing in flight any more, the
/// chain is scanned exactly when no scan ran yet or the interval since the last one has passed,
/// whatever the pool and the queue hold. Otherwise the next transaction is selected at once.
pub proof fn law_chain_is_scanned_when_the_interval_has_passed(
    funder: FunderView,
    inputs: CycleInputs,
    now: u64,
)
    requires
        funder.account_checked || inputs.code_commitment == funder.setup.code_commitment,
        funder.pending matches Some(pending) ==> inputs.nonce > pending.nonce
            || inputs.reference_block >= pending.expiration_block,
    ensures
        ({
            let (after, next) = funder.after_inputs(inputs, now);
            let interval = funder.setup.config.deposit_scan_interval;
            let due = match funder.last_scan {
                None => true,
                Some(at) => interval == 0 || now - at >= interval,
            };
            if due {
                next == Ok::<CycleAction, CycleError>(CycleAction::ScanDeposits) && after.stage
                    == StageView::Scanning(inputs)
            } else {
                next == Ok::<CycleAction, CycleError>(CycleAction::Select) && after.stage
                    == StageView::Selecting(inputs)
            }
        }),
{
}

/// A transaction in flight has committed when the nonce on chain is higher than the one it was built
/// at. Until then it stays in flight, and the cycle ends, before its expiration block; from that
/// block on its notes return in front of the queue and its deposits to the pool.
pub proof fn law_nonce_and_expiration_resolve_the_transaction(
    funder: FunderView,
    inputs: CycleInputs,
    now: u64,
)
    requires
        funder.account_checked || inputs.code_commitment == funder.setup.code_commitment,
    ensures
        ({
            let (after, next) = funder.after_inputs(inputs, now);
            match funder.pending {
                None => after.pending is None && after.queued == funder.queued && after.deposits
                    == funder.deposits,
                Some(pending) => if inputs.nonce > pending.nonce {
                    &&& after.pending is None
                    &&& after.queued == funder.queued
                    &&& after.deposits == funder.deposits
                } else if inputs.reference_block < pending.expiration_block {
                    &&& next == Ok::<CycleAction, CycleError>(CycleAction::Done)
                    &&& after.stage is Idle
                    &&& after.pending == Some(pending)
                    &&& after.queued == funder.queued
                    &&& after.deposits == funder.deposits
                } else {
                    &&& after.pending is None
                    &&& after.queued == pending.notes + funder.queued
                    &&& after.deposits == funder.deposits + pending.deposits
                },
            }
        }),
{
}

/// What was read of the expected account is published, and nothing else of the worker's setup or its
/// clocks changes.
pub proof fn law_read_balance_is_published(funder: FunderView, inputs: CycleInputs, now: u64)
    requires
        funder.account_checked || inputs.code_commitment == funder.setup.code_commitment,
    ensures
        ({
            let after = funder.after_inputs(inputs, now).0;
            let (before, status) = (funder.setup, after.setup.status);
            &&& status.balance == inputs.balance
            &&& status.reference_block == inputs.reference_block
            &&& status.verification_base_fee == inputs.verification_base_fee
            &&& status.account_id == before.status.account_id
            &&& status.max_amount == before.status.max_amount
            &&& after.setup.account_id == before.account_id
            &&& after.setup.code_commitment == before.code_commitment
            &&& after.setup.fee_faucet_id == before.fee_faucet_id
            &&& after.setup.verification_base_fee == before.verification_base_fee
            &&& after.setup.config == before.config
            &&& after.account_checked
            &&& after.scanner == funder.scanner
            &&& after.last_scan == funder.last_scan
            &&& after.idle_until == funder.idle_until
        }),
{
}

/// An account whose code is not that of the account file stops the cycle, and nothing is published,
/// resolved or remembered of it.
pub proof fn law_foreign_account_stops_the_cycle(
    funder: FunderView,
    inputs: CycleInputs,
    now: u64,
)
    requires
        !funder.account_checked,
        inputs.code_commitment != funder.setup.code_commitment,
    ensures
        ({
            let (after, next) = funder.after_inputs(inputs, now);
            &&& next == Err::<CycleAction, CycleError>(CycleError::AccountCode)
            &&& after.stage is Idle
            &&& after.setup == funder.setup
            &&& !after.account_checked
            &&& after.scanner == funder.scanner
            &&& after.queued == funder.queued
            &&& after.deposits == funder.deposits
            &&& after.last_scan == funder.last_scan
            &&& after.idle_until == funder.idle_until
            &&& after.pending == funder.pending
        }),
{
}

/// A scan adds to the end of the pool, in order, the deposits whose nullifier no pooled deposit has,
/// and is remembered with its time. A scan which failed adds and remembers nothing. The cycle goes on
/// with the chain state it read.
pub proof fn law_scan_adds_the_new_deposits(
    funder: FunderView,
    found: Option<Seq<Note>>,
    now: u64,
)
    requires
        funder.stage is Scanning,
    ensures
        ({
            let after = funder.after_scan(found, now);
            &&& after.stage == StageView::Selecting(funder.stage->Scanning_0)
            &&& after.queued == funder.queued
            &&& after.pending == funder.pending
            &&& after.setup == funder.setup
            &&& after.account_checked == funder.account_checked
            &&& after.scanner == funder.scanner
            &&& after.idle_until == funder.idle_until
            &&& match found {
                None => after.deposits == funder.deposits && after.last_scan == funder.last_scan,
                Some(found) => {
                    &&& after.last_scan == Some(now)
                    &&& after.deposits == funder.deposits + found.filter(
                        |note: Note|
                            !exists|i: int|
                                0 <= i < funder.deposits.len() && (#[trigger] funder.deposits[i])@.nullifier
                                    == note@.nullifier,
                    )
                },
            }
        }),
{
    if let Some(found) = found {
        let pooled = deposit::nullifiers_of(funder.deposits);
        let kept = |note: Note| !pooled.contains(note@.nullifier);
        let raw = |note: Note|
            !exists|i: int|
                0 <= i < funder.deposits.len() && (#[trigger] funder.deposits[i])@.nullifier
                    == note@.nullifier;
        assert forall|note: Note| #[trigger] kept(note) == raw(note) by {
            if pooled.contains(note@.nullifier) {
                let i = choose|i: int| 0 <= i < pooled.len() && pooled[i] == note@.nullifier;
                assert(funder.deposits[i]@.nullifier == note@.nullifier);
            }
            if !raw(note) {
                let i = choose|i: int|
                    0 <= i < funder.deposits.len() && (#[trigger] funder.deposits[i])@.nullifier
                        == note@.nullifier;
                assert(pooled[i] == note@.nullifier);
            }
        }
        assert(kept =~= raw);
        assert(deposit::without_nullifiers(found, pooled) == found.filter(kept));
    }
}

/// The selected transaction stays within the configuration: it creates the longest run of queued
/// notes, at most `max_notes_per_tx` of them, which the balance and the collected deposits pay for
/// with thirty times the base fee held back. It takes the largest deposits, at most sixteen, and is
/// selected only for a note or for deposits which hold more than that fee. The rest stays queued and
/// pooled.
pub proof fn law_selected_transaction_follows_the_configuration(
    funder: FunderView,
    inputs: CycleInputs,
    now: u64,
    after: FunderView,
    action: CycleAction,
)
    requires
        funder.stage is Selecting,
        funder.selects(inputs, now, after, action),
        action != CycleAction::Done,
    ensures
        ({
            let faucet = funder.setup.fee_faucet_id;
            let selected = after.selected()->0;
            let count = selected.notes.len() as int;
            let reserve = 30 * funder.setup.verification_base_fee;
            let gained = selection::total(selection::amounts(selected.deposits, faucet));
            let held = inputs.balance + gained;
            let pot = if held <= 0xffff_ffff_ffff_ffff {
                held
            } else {
                0xffff_ffff_ffff_ffff
            };
            let paid = selection::total(selection::amounts(selected.notes, faucet));
            &&& after.selected() is Some
            &&& after.stage == StageView::ReadingFeeFaucet(inputs, selected)
            &&& action == CycleAction::ReadFeeFaucet { reference_block: inputs.reference_block }
            &&& count <= funder.setup.config.max_notes_per_tx
            &&& selected.notes + after.queued == funder.queued
            &&& paid == 0 || paid + reserve <= pot
            &&& count < funder.queued.len() && count < funder.setup.config.max_notes_per_tx ==> {
                let more = paid + chain::total_from(funder.queued[count]@.assets, faucet);
                more > 0 && more + reserve > pot
            }
            &&& count > 0 || gained > reserve
            &&& selected.deposits.len() == (if funder.deposits.len() <= 16 {
                funder.deposits.len()
            } else {
                16
            })
            &&& selected.deposits.to_multiset().add(after.deposits.to_multiset())
                == funder.deposits.to_multiset()
            &&& forall|i: int, j: int|
                0 <= i < selected.deposits.len() && 0 <= j < after.deposits.len()
                    ==> chain::total_from((#[trigger] selected.deposits[i])@.assets, faucet)
                    >= chain::total_from((#[trigger] after.deposits[j])@.assets, faucet)
            &&& after.idle_until is None
            &&& after.setup == funder.setup
            &&& after.account_checked == funder.account_checked
            &&& after.scanner == funder.scanner
            &&& after.last_scan == funder.last_scan
            &&& after.pending == funder.pending
        }),
{
    let faucet = funder.setup.fee_faucet_id;
    let limits = funder.limits(inputs.balance);
    let selected = after.selected()->0;
    let count = selection::note_count(funder.deposits, funder.queued, limits);
    assert(selection::worth_submitting(funder.deposits, funder.queued, limits));
    selection::law_notes_are_the_longest_payable_run(funder.deposits, funder.queued, limits);
    selection::law_taken_deposits_bring_in_the_collected_amount(
        funder.deposits,
        selected.deposits,
        after.deposits,
        faucet,
    );
    selection::law_deposits_are_conserved(
        funder.deposits,
        selected.deposits,
        after.deposits,
        faucet,
    );
    assert(selected.notes + after.queued =~= funder.queued);
    assert forall|i: int, j: int|
        0 <= i < selected.deposits.len() && 0 <= j < after.deposits.len() implies chain::total_from(
        (#[trigger] selected.deposits[i])@.assets,
        faucet,
    ) >= chain::total_from((#[trigger] after.deposits[j])@.assets, faucet) by {
        selection::law_no_larger_deposit_is_left(
            funder.deposits,
            selected.deposits,
            after.deposits,
            faucet,
            i,
            j,
        );
    }
}

/// Nothing is selected only where nothing pays off: the deposits hold no more than thirty times the
/// base fee, and the first queued note, where one may be created at all, does not fit. The worker
/// then rests for one scan interval, with its queue and its pool as they were.
pub proof fn law_nothing_is_selected_only_where_nothing_pays_off(
    funder: FunderView,
    inputs: CycleInputs,
    now: u64,
    after: FunderView,
)
    requires
        funder.stage is Selecting,
        funder.selects(inputs, now, after, CycleAction::Done),
        now + funder.setup.config.deposit_scan_interval <= u64::MAX,
    ensures
        ({
            let faucet = funder.setup.fee_faucet_id;
            let reserve = 30 * funder.setup.verification_base_fee;
            let gained = selection::collected(funder.deposits, faucet);
            let held = inputs.balance + gained;
            let pot = if held <= 0xffff_ffff_ffff_ffff {
                held
            } else {
                0xffff_ffff_ffff_ffff
            };
            &&& gained <= reserve
            &&& funder.queued.len() > 0 && funder.setup.config.max_notes_per_tx > 0 ==> {
                let first = chain::total_from(funder.queued[0]@.assets, faucet);
                first > 0 && first + reserve > pot
            }
            &&& after.idle_until matches Some(until) && until == now
                + funder.setup.config.deposit_scan_interval
            &&& after.stage is Idle
            &&& after.queued == funder.queued
            &&& after.deposits == funder.deposits
            &&& after.setup == funder.setup
            &&& after.account_checked == funder.account_checked
            &&& after.scanner == funder.scanner
            &&& after.last_scan == funder.last_scan
            &&& after.pending == funder.pending
        }),
{
    let limits = funder.limits(inputs.balance);
    selection::law_notes_are_the_longest_payable_run(funder.deposits, funder.queued, limits);
    assert(selection::amounts(funder.queued.take(0), funder.setup.fee_faucet_id) =~= Seq::empty());
}

/// A selected transaction goes on to be submitted once the fee faucet was read. Where it could not be
/// read, the notes return in front of the queue and the deposits to the pool, and the cycle fails.
pub proof fn law_unread_fee_faucet_returns_the_selection(funder: FunderView, read: bool)
    requires
        funder.stage is ReadingFeeFaucet,
    ensures
        ({
            let (after, next) = funder.after_fee_faucet(read);
            let selected = funder.stage->ReadingFeeFaucet_1;
            &&& after.setup == funder.setup
            &&& after.account_checked == funder.account_checked
            &&& after.scanner == funder.scanner
            &&& after.last_scan == funder.last_scan
            &&& after.idle_until == funder.idle_until
            &&& after.pending == funder.pending
            &&& if read {
                &&& next == Ok::<CycleAction, CycleError>(CycleAction::Submit)
                &&& after.stage == StageView::Submitting(
                    funder.stage->ReadingFeeFaucet_0,
                    selected,
                )
                &&& after.queued == funder.queued
                &&& after.deposits == funder.deposits
            } else {
                &&& next == Err::<CycleAction, CycleError>(CycleError::FeeFaucet)
                &&& after.stage is Idle
                &&& after.queued == selected.notes + funder.queued
                &&& after.deposits == funder.deposits + selected.deposits
            }
        }),
{
}

/// An accepted transaction is in flight with the nonce it was built at, until its expiration block,
/// with the deposits and the notes it was selected with. One which was not accepted returns them.
pub proof fn law_accepted_transaction_is_in_flight(funder: FunderView, outcome: Option<Submitted>)
    requires
        funder.stage is Submitting,
    ensures
        ({
            let after = funder.after_submission(outcome);
            let selected = funder.stage->Submitting_1;
            &&& after.stage is Idle
            &&& after.setup == funder.setup
            &&& after.account_checked == funder.account_checked
            &&& after.scanner == funder.scanner
            &&& after.last_scan == funder.last_scan
            &&& after.idle_until == funder.idle_until
            &&& match outcome {
                Some(submitted) => {
                    &&& after.queued == funder.queued
                    &&& after.deposits == funder.deposits
                    &&& after.pending is Some
                    &&& after.pending->0.transaction_id == submitted.transaction_id
                    &&& after.pending->0.expiration_block == submitted.expiration_block
                    &&& after.pending->0.nonce == funder.stage->Submitting_0.nonce
                    &&& after.pending->0.deposits == selected.deposits
                    &&& after.pending->0.notes == selected.notes
                },
                None => {
                    &&& after.queued == selected.notes + funder.queued
                    &&& after.deposits == funder.deposits + selected.deposits
                    &&& after.pending == funder.pending
                },
            }
        }),
{
}

/// A submission executes, then proves, then submits, and is accepted by nothing else.
pub proof fn law_submission_executes_proves_and_submits()
    ensures
        SubmitStep::Execute.next() == SubmitProgress::Continue(SubmitStep::Prove),
        SubmitStep::Prove.next() == SubmitProgress::Continue(SubmitStep::Submit),
        forall|step: SubmitStep| #[trigger]
            step.next() == SubmitProgress::Accepted <==> step == SubmitStep::Submit,
{
}

/// A request is repeated five times at most, and never after a failure which is not transient.
pub proof fn law_request_is_repeated_five_times(failures: nat, transient: bool)
    ensures
        is_retried(failures, true) <==> failures < 5,
        !is_retried(failures, false),
{
}

/// The delay before a repetition is a tenth of a second, doubled for every failure before, and never
/// more than five seconds.
pub proof fn law_retry_delay_doubles_up_to_its_limit(failures: nat)
    ensures
        retry_delay_of(failures) == (if 100 * vstd::arithmetic::power2::pow2(failures) <= 5000 {
            100 * vstd::arithmetic::power2::pow2(failures)
        } else {
            5000
        }),
    decreases failures,
{
    if failures == 0 {
        vstd::arithmetic::power2::lemma2_to64();
    } else {
        law_retry_delay_doubles_up_to_its_limit((failures - 1) as nat);
        vstd::arithmetic::power2::lemma_pow2_unfold(failures);
    }
}

/// A failed step of a submission is told as the step which failed.
pub proof fn law_failed_submission_tells_the_step(step: SubmitStep)
    ensures
        step.context() == (if step == SubmitStep::Execute {
            "failed to execute the funding transaction"@
        } else if step == SubmitStep::Prove {
            "failed to prove the funding transaction"@
        } else {
            "failed to submit the funding transaction"@
        }),
{
}

/// A failed cycle tells what could not be read, or names the account whose code is not the expected
/// one.
pub proof fn law_failed_cycle_tells_why(account: Seq<char>)
    ensures
        CycleError::Inputs.text(account) == "failed to read the chain state"@,
        CycleError::FeeFaucet.text(account) == "failed to read the fee faucet account"@,
        CycleError::AccountCode.text(account) == "the code of account "@ + account
            + " on chain does not match the account file: is the account file from another network?"@,
{
}

/// A worker is seen with all its fields, its queue and its pool in order.
pub proof fn law_worker_is_seen_whole(funder: Funder)
    ensures
        funder@.setup == funder.setup,
        funder@.account_checked == funder.account_checked,
        funder@.scanner == funder.scanner,
        funder@.queued == funder.queued@,
        funder@.deposits == funder.deposits@,
        funder@.last_scan == funder.last_scan,
        funder@.idle_until == funder.idle_until,
        funder@.stage == funder.stage@,
        funder@.pending is Some <==> funder.pending is Some,
        funder.pending matches Some(pending) ==> {
            let seen = funder@.pending->0;
            &&& seen.transaction_id == pending.transaction_id
            &&& seen.nonce == pending.nonce
            &&& seen.expiration_block == pending.expiration_block
            &&& seen.deposits == pending.deposits@
            &&& seen.notes == pending.notes@
        },
{
}

/// A stage is seen as itself, with the chain state and the selection it holds.
pub proof fn law_stage_is_seen_whole(inputs: CycleInputs, selected: Selection)
    ensures
        selected@.deposits == selected.deposits@,
        selected@.notes == selected.notes@,
        CycleStage::Idle@ == StageView::Idle,
        CycleStage::ReadingInputs@ == StageView::ReadingInputs,
        CycleStage::Scanning(inputs)@ == StageView::Scanning(inputs),
        CycleStage::Selecting(inputs)@ == StageView::Selecting(inputs),
        CycleStage::ReadingFeeFaucet(inputs, selected)@ == StageView::ReadingFeeFaucet(
            inputs,
            selected@,
        ),
        CycleStage::Submitting(inputs, selected)@ == StageView::Submitting(inputs, selected@),
{
}

/// A scan is due until the first one, and then once the interval since the last one has passed.
pub proof fn law_scan_is_due_after_its_interval(funder: FunderView, now: u64)
    ensures
        funder.last_scan is None ==> funder.scan_due(now),
        funder.last_scan matches Some(at) ==> at <= now ==> (funder.scan_due(now) <==> now - at
            >= funder.setup.config.deposit_scan_interval),
        funder.last_scan matches Some(at) ==> at > now ==> (funder.scan_due(now)
            <==> funder.setup.config.deposit_scan_interval == 0),
{
}

/// A transaction is still in flight while neither a higher nonce shows that it committed nor its
/// expiration block is reached. One which is resolved without a higher nonce returns what it holds.
pub proof fn law_transaction_is_resolved_once(funder: FunderView, nonce: u64, reference_block: u32)
    ensures
        ({
            let after = funder.resolved(nonce, reference_block);
            &&& funder.pending is None ==> !funder.still_pending(nonce, reference_block) && after
                == funder
            &&& funder.pending matches Some(pending) ==> {
                let waits = nonce <= pending.nonce && reference_block < pending.expiration_block;
                &&& funder.still_pending(nonce, reference_block) <==> waits
                &&& waits ==> after == funder
                &&& !waits ==> after.pending is None
                &&& nonce > pending.nonce ==> after.queued == funder.queued && after.deposits
                    == funder.deposits
                &&& !waits && nonce <= pending.nonce ==> after.queued == pending.notes
                    + funder.queued && after.deposits == funder.deposits + pending.deposits
            }
            &&& after.setup == funder.setup
            &&& after.account_checked == funder.account_checked
            &&& after.scanner == funder.scanner
            &&& after.last_scan == funder.last_scan
            &&& after.idle_until == funder.idle_until
            &&& after.stage == funder.stage
        }),
{
}

/// What is returned goes in front of the queue and behind the pool, and nothing else changes.
pub proof fn law_returned_notes_go_first(funder: FunderView, selected: SelectionView)
    ensures
        ({
            let after = funder.restored(selected);
            &&& after.queued == selected.notes + funder.queued
            &&& after.deposits == funder.deposits + selected.deposits
            &&& after.setup == funder.setup
            &&& after.account_checked == funder.account_checked
            &&& after.scanner == funder.scanner
            &&& after.last_scan == funder.last_scan
            &&& after.idle_until == funder.idle_until
            &&& after.pending == funder.pending
            &&& after.stage == funder.stage
        }),
{
}

} // verus!
