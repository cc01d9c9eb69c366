//! What a remote prover does with a request: the stages it goes through, and how it answers when one
//! of them fails.

use vstd::prelude::*;

use crate::status::Code;
use crate::status::Status;
use crate::status::StatusView;

verus! {

/// The kinds of proof a prover makes.
#[derive(Debug, Clone, Copy, PartialEq, Eq, Structural)]
pub enum ProofKind {
    Transaction,
    Batch,
    Block,
}

/// A prover with one capability.
#[derive(Debug, Clone, Copy, PartialEq, Eq, Structural)]
pub struct Prover {
    pub kind: ProofKind,
}

/// A stage of proving.
#[derive(Debug, Clone, Copy, PartialEq, Eq, Structural)]
pub enum Stage {
    /// Construct the transaction inputs. This checks their consistency and note inclusion against
    /// the supplied headers. A stateless prover cannot authenticate the chain.
    BuildTransaction,
    ProveTransaction,
    /// Verify the transaction proofs of the proposed batch.
    VerifyBatch,
    ExecuteBatch,
    ProveBatch,
    DecodeBlock,
    ProposeBlock,
    ExecuteBlock,
    ProveBlock,
}

/// What follows a stage.
#[derive(Debug, Clone, Copy, PartialEq, Eq, Structural)]
pub enum Progress {
    /// The next stage.
    Continue(Stage),
    /// The proof of this kind is made.
    Proven(ProofKind),
}

/// The first stage for a request of the prover's kind.
pub open spec fn first_stage(kind: ProofKind) -> Stage {
    match kind {
        ProofKind::Transaction => Stage::BuildTransaction,
        ProofKind::Batch => Stage::VerifyBatch,
        ProofKind::Block => Stage::DecodeBlock,
    }
}

impl Stage {
    /// The kind of proof the stage works on.
    pub open spec fn kind(self) -> ProofKind {
        match self {
            Stage::BuildTransaction | Stage::ProveTransaction => ProofKind::Transaction,
            Stage::VerifyBatch | Stage::ExecuteBatch | Stage::ProveBatch => ProofKind::Batch,
            _ => ProofKind::Block,
        }
    }

    /// What follows when the stage succeeds.
    pub open spec fn next(self) -> Progress {
        match self {
            Stage::BuildTransaction => Progress::Continue(Stage::ProveTransaction),
            Stage::ProveTransaction => Progress::Proven(ProofKind::Transaction),
            Stage::VerifyBatch => Progress::Continue(Stage::ExecuteBatch),
            Stage::ExecuteBatch => Progress::Continue(Stage::ProveBatch),
            Stage::ProveBatch => Progress::Proven(ProofKind::Batch),
            Stage::DecodeBlock => Progress::Continue(Stage::ProposeBlock),
            Stage::ProposeBlock => Progress::Continue(Stage::ExecuteBlock),
            Stage::ExecuteBlock => Progress::Continue(Stage::ProveBlock),
            Stage::ProveBlock => Progress::Proven(ProofKind::Block),
        }
    }

    /// Whether the stage looks at what the requester supplied, so that its failure is the
    /// requester's.
    pub open spec fn checks_the_request(self) -> bool {
        self == Stage::BuildTransaction || self == Stage::VerifyBatch || self == Stage::DecodeBlock
            || self == Stage::ProposeBlock
    }

    /// What is said of a failure of the stage.
    pub open spec fn context(self) -> Seq<char> {
        match self {
            Stage::BuildTransaction => "failed to build transaction inputs"@,
            Stage::ProveTransaction => "failed to prove transaction"@,
            Stage::VerifyBatch => "failed to verify proposed batch"@,
            Stage::ExecuteBatch => "failed to execute batch"@,
            Stage::ProveBatch => "failed to prove batch"@,
            Stage::DecodeBlock => "failed to decode block proving inputs"@,
            Stage::ProposeBlock => "failed to construct proposed block"@,
            Stage::ExecuteBlock => "failed to execute block"@,
            Stage::ProveBlock => "failed to prove block"@,
        }
    }

    /// How a failure of the stage is answered.
    pub open spec fn failure(self, report: Seq<char>) -> StatusView {
        StatusView {
            code: if self.checks_the_request() {
                Code::InvalidArgument
            } else {
                Code::Internal
            },
            message: self.context() + ": "@ + report,
        }
    }

    /// Takes how the stage went: it succeeded, or it failed with a report.
    pub fn finish(self, outcome: Result<(), String>) -> (progress: Result<Progress, Status>)
        ensures
            match (outcome, progress) {
                (Ok(_), Ok(progress)) => progress == self.next(),
                (Err(report), Err(status)) => status@ == self.failure(report@),
                _ => false,
            },
    {
        match outcome {
            Ok(_) => Ok(self.successor()),
            Err(report) => {
                let mut message = self.failure_context().to_owned();
                message.append(": ");
                message.append(report.as_str());
                let code = match self {
                    Stage::BuildTransaction
                    | Stage::VerifyBatch
                    | Stage::DecodeBlock
                    | Stage::ProposeBlock => Code::InvalidArgument,
                    _ => Code::Internal,
                };
                Err(Status { code, message })
            },
        }
    }

    fn successor(self) -> (progress: Progress)
        ensures
            progress == self.next(),
    {
        match self {
            Stage::BuildTransaction => Progress::Continue(Stage::ProveTransaction),
            Stage::ProveTransaction => Progress::Proven(ProofKind::Transaction),
            Stage::VerifyBatch => Progress::Continue(Stage::ExecuteBatch),
            Stage::ExecuteBatch => Progress::Continue(Stage::ProveBatch),
            Stage::ProveBatch => Progress::Proven(ProofKind::Batch),
            Stage::DecodeBlock => Progress::Continue(Stage::ProposeBlock),
            Stage::ProposeBlock => Progress::Continue(Stage::ExecuteBlock),
            Stage::ExecuteBlock => Progress::Continue(Stage::ProveBlock),
            Stage::ProveBlock => Progress::Proven(ProofKind::Block),
        }
    }

    fn failure_context(self) -> (context: &'static str)
        ensures
            context@ == self.context(),
    {
        match self {
            Stage::BuildTransaction => "failed to build transaction inputs",
            Stage::ProveTransaction => "failed to prove transaction",
            Stage::VerifyBatch => "failed to verify proposed batch",
            Stage::ExecuteBatch => "failed to execute batch",
            Stage::ProveBatch => "failed to prove batch",
            Stage::DecodeBlock => "failed to decode block proving inputs",
            Stage::ProposeBlock => "failed to construct proposed block",
            Stage::ExecuteBlock => "failed to execute block",
            Stage::ProveBlock => "failed to prove block",
        }
    }
}

impl Prover {
    /// Constructs a [`Prover`] of the specified [`ProofKind`].
    pub fn new(proof_type: ProofKind) -> (prover: Prover)
        ensures
            prover.kind == proof_type,
    {
        Prover { kind: proof_type }
    }

    /// Takes the kind of a request, and refuses one which is not this prover's capability.
    pub fn prove(&self, request: ProofKind) -> (stage: Result<Stage, Status>)
        ensures
            match stage {
                Ok(stage) => request == self.kind && stage == first_stage(self.kind),
                Err(status) => request != self.kind && status@ == (StatusView {
                    code: Code::InvalidArgument,
                    message: "unsupported proof type"@,
                }),
            },
    {
        match (self.kind, request) {
            (ProofKind::Transaction, ProofKind::Transaction) => Ok(Stage::BuildTransaction),
            (ProofKind::Batch, ProofKind::Batch) => Ok(Stage::VerifyBatch),
            (ProofKind::Block, ProofKind::Block) => Ok(Stage::DecodeBlock),
            _ => Err(Status::invalid_argument("unsupported proof type")),
        }
    }

    /// Returns the context attached to failures of the blocking task running this prover.
    pub fn task_panic_context(&self) -> (context: &'static str)
        ensures
            context@ == (match self.kind {
                ProofKind::Transaction => "transaction prover task panicked"@,
                ProofKind::Batch => "batch prover task panicked"@,
                ProofKind::Block => "block prover task panicked"@,
            }),
    {
        match self.kind {
            ProofKind::Transaction => "transaction prover task panicked",
            ProofKind::Batch => "batch prover task panicked",
            ProofKind::Block => "block prover task panicked",
        }
    }
}

/// The number of stages which are left, this one counted.
pub open spec fn stages_left(stage: Stage) -> nat {
    match stage {
        Stage::BuildTransaction => 2,
        Stage::ProveTransaction => 1,
        Stage::VerifyBatch => 3,
        Stage::ExecuteBatch => 2,
        Stage::ProveBatch => 1,
        Stage::DecodeBlock => 4,
        Stage::ProposeBlock => 3,
        Stage::ExecuteBlock => 2,
        Stage::ProveBlock => 1,
    }
}

/// What a prover makes when every stage from `stage` on succeeds.
pub open spec fn proof_from(stage: Stage) -> ProofKind
    decreases stages_left(stage),
{
    match stage.next() {
        Progress::Proven(kind) => kind,
        Progress::Continue(next) => proof_from(next),
    }
}

/// A request which every stage accepts is answered with a proof of its own kind.
pub proof fn law_proof_is_of_the_requested_kind(kind: ProofKind)
    ensures
        proof_from(first_stage(kind)) == kind,
{
    reveal_with_fuel(proof_from, 5);
}

/// A stage never leaves the kind of proof it works on.
pub proof fn law_stages_keep_the_kind(stage: Stage)
    ensures
        match stage.next() {
            Progress::Continue(next) => next.kind() == stage.kind(),
            Progress::Proven(kind) => kind == stage.kind(),
        },
{
}

/// A transaction is built and then proven. A batch is verified, executed and then proven. A block is
/// decoded, proposed, executed and then proven. Nothing is proven before all of that.
pub proof fn law_stages_come_in_order(stage: Stage, later: Stage)
    ensures
        stage.next() == Progress::Continue(later) <==> {
            ||| stage == Stage::BuildTransaction && later == Stage::ProveTransaction
            ||| stage == Stage::VerifyBatch && later == Stage::ExecuteBatch
            ||| stage == Stage::ExecuteBatch && later == Stage::ProveBatch
            ||| stage == Stage::DecodeBlock && later == Stage::ProposeBlock
            ||| stage == Stage::ProposeBlock && later == Stage::ExecuteBlock
            ||| stage == Stage::ExecuteBlock && later == Stage::ProveBlock
        },
        stage.next() == Progress::Proven(ProofKind::Transaction) <==> stage
            == Stage::ProveTransaction,
        stage.next() == Progress::Proven(ProofKind::Batch) <==> stage == Stage::ProveBatch,
        stage.next() == Progress::Proven(ProofKind::Block) <==> stage == Stage::ProveBlock,
        (exists|kind: ProofKind| #[trigger] first_stage(kind) == stage) <==> stage
            == Stage::BuildTransaction || stage == Stage::VerifyBatch || stage
            == Stage::DecodeBlock,
{
    assert(first_stage(ProofKind::Transaction) == Stage::BuildTransaction);
    assert(first_stage(ProofKind::Batch) == Stage::VerifyBatch);
    assert(first_stage(ProofKind::Block) == Stage::DecodeBlock);
}

/// The requester is at fault for what it supplied: transaction inputs, transaction proofs of a batch,
/// block inputs and the block they propose. Whatever fails while executing or proving is the prover's.
pub proof fn law_failure_blames_what_failed(stage: Stage, report: Seq<char>)
    ensures
        ({
            let failure = stage.failure(report);
            let executes_or_proves = stage == Stage::ProveTransaction || stage == Stage::ExecuteBatch
                || stage == Stage::ProveBatch || stage == Stage::ExecuteBlock || stage
                == Stage::ProveBlock;
            &&& failure.code == Code::Internal <==> executes_or_proves
            &&& failure.code == Code::InvalidArgument <==> !executes_or_proves
        }),
{
}

/// A failure is told as what failed, followed by the report.
pub proof fn law_failure_tells_what_failed(stage: Stage, report: Seq<char>)
    ensures
        stage.failure(report).message == (match stage {
            Stage::BuildTransaction => "failed to build transaction inputs"@,
            Stage::ProveTransaction => "failed to prove transaction"@,
            Stage::VerifyBatch => "failed to verify proposed batch"@,
            Stage::ExecuteBatch => "failed to execute batch"@,
            Stage::ProveBatch => "failed to prove batch"@,
            Stage::DecodeBlock => "failed to decode block proving inputs"@,
            Stage::ProposeBlock => "failed to construct proposed block"@,
            Stage::ExecuteBlock => "failed to execute block"@,
            Stage::ProveBlock => "failed to prove block"@,
        }) + ": "@ + report,
{
}

} // verus!
