//! Service status types and constructors for the network monitor.
//!
//! This module defines the data model for service health reporting: the [`ServiceStatus`] struct
//! with its builder methods, the [`ServiceDetails`] enum covering all monitored service types, and
//! the corresponding detail structs.

use vstd::prelude::*;

use crate::clock;
use crate::text;

verus! {

// STATUS
// ================================================================================================

/// The health of a service.
#[derive(Debug, Clone, Copy, PartialEq, Eq, Structural)]
pub enum Status {
    Healthy,
    Unhealthy,
    Unknown,
}

/// The health which a service reports in words.
pub open spec fn status_of_text(value: Seq<char>) -> Status {
    if value == "HEALTHY"@ || value == "connected"@ {
        Status::Healthy
    } else if value == "UNHEALTHY"@ || value == "disconnected"@ {
        Status::Unhealthy
    } else {
        Status::Unknown
    }
}

impl vstd::std_specs::convert::FromSpecImpl<String> for Status {
    open spec fn obeys_from_spec() -> bool {
        true
    }

    open spec fn from_spec(value: String) -> Status {
        status_of_text(value@)
    }
}

impl From<String> for Status {
    fn from(value: String) -> (status: Status) {
        if text::is_text(&value, "HEALTHY") || text::is_text(&value, "connected") {
            Status::Healthy
        } else if text::is_text(&value, "UNHEALTHY") || text::is_text(&value, "disconnected") {
            Status::Unhealthy
        } else {
            Status::Unknown
        }
    }
}

/// The health which a remote prover reports of one of its workers.
#[derive(Debug, Clone, Copy, PartialEq, Eq, Structural)]
pub enum WorkerHealthStatus {
    Unknown,
    Healthy,
    Unhealthy,
}

/// The health of a worker by its discriminant on the wire.
pub open spec fn worker_health_of(discriminant: i32) -> Option<WorkerHealthStatus> {
    if discriminant == 0 {
        Some(WorkerHealthStatus::Unknown)
    } else if discriminant == 1 {
        Some(WorkerHealthStatus::Healthy)
    } else if discriminant == 2 {
        Some(WorkerHealthStatus::Unhealthy)
    } else {
        None
    }
}

impl WorkerHealthStatus {
    /// Reads a discriminant.
    pub fn from_discriminant(discriminant: i32) -> (health: Option<WorkerHealthStatus>)
        ensures
            health == worker_health_of(discriminant),
    {
        if discriminant == 0 {
            Some(WorkerHealthStatus::Unknown)
        } else if discriminant == 1 {
            Some(WorkerHealthStatus::Healthy)
        } else if discriminant == 2 {
            Some(WorkerHealthStatus::Unhealthy)
        } else {
            None
        }
    }
}

impl vstd::std_specs::convert::FromSpecImpl<WorkerHealthStatus> for Status {
    open spec fn obeys_from_spec() -> bool {
        true
    }

    open spec fn from_spec(value: WorkerHealthStatus) -> Status {
        match value {
            WorkerHealthStatus::Unknown => Status::Unknown,
            WorkerHealthStatus::Healthy => Status::Healthy,
            WorkerHealthStatus::Unhealthy => Status::Unhealthy,
        }
    }
}

impl From<WorkerHealthStatus> for Status {
    fn from(value: WorkerHealthStatus) -> (status: Status) {
        match value {
            WorkerHealthStatus::Unknown => Status::Unknown,
            WorkerHealthStatus::Healthy => Status::Healthy,
            WorkerHealthStatus::Unhealthy => Status::Unhealthy,
        }
    }
}

// SERVICE STATUS
// ================================================================================================

/// Status of a service.
///
/// This struct contains the status of a service, the last time it was checked, and any errors that
/// occurred. It also contains the details of the service, which is a union of the details of the
/// service.
#[derive(Debug, Clone)]
pub struct ServiceStatus {
    pub name: String,
    pub status: Status,
    pub last_checked: u64,
    pub error: Option<String>,
    pub details: ServiceDetails,
}

/// The text of an error, if there is one.
pub open spec fn error_text(error: Option<String>) -> Option<Seq<char>> {
    match error {
        Some(message) => Some(message@),
        None => None,
    }
}

/// Status of a service.
pub struct ServiceStatusView {
    pub name: Seq<char>,
    pub status: Status,
    pub last_checked: u64,
    pub error: Option<Seq<char>>,
    pub details: ServiceDetails,
}

impl View for ServiceStatus {
    type V = ServiceStatusView;

    open spec fn view(&self) -> ServiceStatusView {
        ServiceStatusView {
            name: self.name@,
            status: self.status,
            last_checked: self.last_checked,
            error: error_text(self.error),
            details: self.details,
        }
    }
}

impl ServiceStatusView {
    /// A healthy service which was checked at `now`.
    pub open spec fn healthy(name: Seq<char>, details: ServiceDetails, now: u64) -> Self {
        ServiceStatusView {
            name,
            status: Status::Healthy,
            last_checked: now,
            error: None,
            details,
        }
    }

    /// An unhealthy service which was checked at `now`, and what is wrong with it.
    pub open spec fn unhealthy(
        name: Seq<char>,
        error: Seq<char>,
        details: ServiceDetails,
        now: u64,
    ) -> Self {
        ServiceStatusView {
            name,
            status: Status::Unhealthy,
            last_checked: now,
            error: Some(error),
            details,
        }
    }

    /// A service of which nothing is known at `now`.
    pub open spec fn unknown(name: Seq<char>, details: ServiceDetails, now: u64) -> Self {
        ServiceStatusView {
            name,
            status: Status::Unknown,
            last_checked: now,
            error: None,
            details,
        }
    }

    /// A service whose check failed at `now`, and why.
    pub open spec fn error(name: Seq<char>, error: Seq<char>, now: u64) -> Self {
        ServiceStatusView {
            name,
            status: Status::Unhealthy,
            last_checked: now,
            error: Some(error),
            details: ServiceDetails::Error,
        }
    }
}

/// A service whose check failed is the unhealthy service with [`ServiceDetails::Error`] details, in
/// every field.
pub proof fn law_error_is_unhealthy_with_error_details(
    name: Seq<char>,
    error: Seq<char>,
    now: u64,
)
    ensures
        ServiceStatusView::error(name, error, now) == ServiceStatusView::unhealthy(
            name,
            error,
            ServiceDetails::Error,
            now,
        ),
{
}

impl ServiceStatus {
    /// Creates a healthy service status with the current timestamp.
    pub fn healthy(name: &str, details: ServiceDetails) -> (service: ServiceStatus)
        ensures
            exists|elapsed: Result<clock::Elapsed, String>|
                service@ == ServiceStatusView::healthy(
                    name@,
                    details,
                    #[trigger] clock::seconds_of(elapsed),
                ),
    {
        ServiceStatus::healthy_at(name, details, current_unix_timestamp_secs())
    }

    /// Creates a healthy service status with the given timestamp.
    pub fn healthy_at(name: &str, details: ServiceDetails, now: u64) -> (service: ServiceStatus)
        ensures
            service@ == ServiceStatusView::healthy(name@, details, now),
            service.name@ == name@,
            service.status == Status::Healthy,
            service.last_checked == now,
            service.error is None,
            service.details == details,
    {
        ServiceStatus {
            name: name.to_owned(),
            status: Status::Healthy,
            last_checked: now,
            error: None,
            details,
        }
    }

    /// Creates an unhealthy service status with the current timestamp and an error message.
    pub fn unhealthy(name: &str, error: &str, details: ServiceDetails) -> (service: ServiceStatus)
        ensures
            exists|elapsed: Result<clock::Elapsed, String>|
                service@ == ServiceStatusView::unhealthy(
                    name@,
                    error@,
                    details,
                    #[trigger] clock::seconds_of(elapsed),
                ),
    {
        ServiceStatus::unhealthy_at(name, error, details, current_unix_timestamp_secs())
    }

    /// Creates an unhealthy service status with the given timestamp and an error message.
    pub fn unhealthy_at(name: &str, error: &str, details: ServiceDetails, now: u64) -> (service:
        ServiceStatus)
        ensures
            service@ == ServiceStatusView::unhealthy(name@, error@, details, now),
            service.name@ == name@,
            service.status == Status::Unhealthy,
            service.last_checked == now,
            service.error matches Some(reason) && reason@ == error@,
            service.details == details,
    {
        ServiceStatus {
            name: name.to_owned(),
            status: Status::Unhealthy,
            last_checked: now,
            error: Some(error.to_owned()),
            details,
        }
    }

    /// Creates an unknown service status with the current timestamp.
    pub fn unknown(name: &str, details: ServiceDetails) -> (service: ServiceStatus)
        ensures
            exists|elapsed: Result<clock::Elapsed, String>|
                service@ == ServiceStatusView::unknown(
                    name@,
                    details,
                    #[trigger] clock::seconds_of(elapsed),
                ),
    {
        ServiceStatus::unknown_at(name, details, current_unix_timestamp_secs())
    }

    /// Creates an unknown service status with the given timestamp.
    pub fn unknown_at(name: &str, details: ServiceDetails, now: u64) -> (service: ServiceStatus)
        ensures
            service@ == ServiceStatusView::unknown(name@, details, now),
            service.name@ == name@,
            service.status == Status::Unknown,
            service.last_checked == now,
            service.error is None,
            service.details == details,
    {
        ServiceStatus {
            name: name.to_owned(),
            status: Status::Unknown,
            last_checked: now,
            error: None,
            details,
        }
    }

    /// Creates an unhealthy service status with [`ServiceDetails::Error`] details and the current
    /// timestamp.
    pub fn error(name: &str, error: &str) -> (service: ServiceStatus)
        ensures
            exists|elapsed: Result<clock::Elapsed, String>|
                service@ == ServiceStatusView::error(
                    name@,
                    error@,
                    #[trigger] clock::seconds_of(elapsed),
                ),
    {
        ServiceStatus::error_at(name, error, current_unix_timestamp_secs())
    }

    /// Creates an unhealthy service status with [`ServiceDetails::Error`] details and the given
    /// timestamp.
    pub fn error_at(name: &str, error: &str, now: u64) -> (service: ServiceStatus)
        ensures
            service@ == ServiceStatusView::error(name@, error@, now),
            service.name@ == name@,
            service.status == Status::Unhealthy,
            service.last_checked == now,
            service.error matches Some(reason) && reason@ == error@,
            service.details == ServiceDetails::Error,
    {
        ServiceStatus {
            name: name.to_owned(),
            status: Status::Unhealthy,
            last_checked: now,
            error: Some(error.to_owned()),
            details: ServiceDetails::Error,
        }
    }

    /// Overrides the `last_checked` timestamp on an existing status.
    ///
    /// Useful when composing a new status from pre-existing data where we want to preserve the
    /// original check timestamp instead of using the moment of construction.
    #[must_use]
    pub fn with_last_checked(self, ts: u64) -> (service: ServiceStatus)
        ensures
            service == (ServiceStatus { last_checked: ts, ..self }),
    {
        ServiceStatus {
            name: self.name,
            status: self.status,
            last_checked: ts,
            error: self.error,
            details: self.details,
        }
    }
}

// SERVICE DETAILS
// ================================================================================================

/// Details of a service.
#[derive(Debug, Clone)]
pub enum ServiceDetails {
    RpcStatus(RpcStatusDetails),
    RemoteProverStatus(RemoteProverDetails),
    FaucetTest(FaucetTestDetails),
    NtxIncrement(IncrementDetails),
    NtxTracking(CounterTrackingDetails),
    ExplorerStatus(ExplorerStatusDetails),
    NoteTransportStatus(NoteTransportStatusDetails),
    ValidatorStatus(ValidatorStatusDetails),
    Error,
}

/// Remote prover status combined with its most recent test result.
#[derive(Debug, Clone)]
pub struct RemoteProverDetails {
    pub status: RemoteProverStatusDetails,
    pub test: Option<ProverTestOutcome>,
}

/// Most recent outcome of a remote prover test task.
#[derive(Debug, Clone)]
pub struct ProverTestOutcome {
    pub details: ProverTestDetails,
    pub status: Status,
    /// Error message from the most recent test attempt; `None` when the last attempt succeeded.
    pub error: Option<String>,
}

/// Details of a remote prover test.
#[derive(Debug, Clone, Copy, PartialEq, Eq, Structural)]
pub struct ProverTestDetails {
    pub test_duration_ms: u64,
    pub proof_size_bytes: usize,
    pub success_count: u64,
    pub failure_count: u64,
    pub proof_type: ProofType,
}

/// The kinds of proof a remote prover makes.
#[derive(Debug, Clone, Copy, PartialEq, Eq, Structural)]
pub enum ProofType {
    Transaction,
    Batch,
    Block,
    Unknown,
}

/// Details of the faucet test.
#[derive(Debug, Clone)]
pub struct FaucetTestDetails {
    pub url: String,
    pub test_duration_ms: u64,
    pub success_count: u64,
    pub failure_count: u64,
    pub last_tx_id: Option<String>,
    pub faucet_metadata: Option<GetMetadataResponse>,
}

/// What the faucet says of its token.
#[derive(Debug, Clone)]
pub struct GetMetadataResponse {
    pub version: String,
    pub id: String,
    pub max_supply: u64,
    pub decimals: u8,
    pub explorer_url: Option<String>,
    pub pow_load_difficulty: u64,
    pub base_amount: u64,
    pub note_transport_url: Option<String>,
}

/// Details of the increment service.
#[derive(Debug, Clone)]
pub struct IncrementDetails {
    /// Number of successful counter increments.
    pub success_count: u64,
    /// Number of failed counter increments.
    pub failure_count: u64,
    /// Last transaction ID (if available).
    pub last_tx_id: Option<String>,
    /// Last measured latency in blocks from submission to state update.
    pub last_latency_blocks: Option<u32>,
    /// The wallet's fee-asset balance in base units; `None` on zero-fee chains.
    pub fee_balance: Option<u64>,
    /// Error from the most recent faucet top-up attempt; `None` when it succeeded or none was
    /// needed.
    pub fee_topup_error: Option<String>,
}

/// Details about an in-flight latency measurement.
#[derive(Debug, Clone, Copy, PartialEq, Eq, Structural)]
pub struct PendingLatencyDetails {
    /// Block height returned when the transaction was submitted.
    pub submit_height: u32,
    /// Counter value we expect to see once the transaction is applied.
    pub target_value: u64,
}

/// Details of the counter tracking service.
#[derive(Debug, Clone, Copy, PartialEq, Eq)]
pub struct CounterTrackingDetails {
    /// Current counter value observed on-chain (if available).
    pub current_value: Option<u64>,
    /// Expected counter value based on successful increments sent.
    pub expected_value: Option<u64>,
    /// Last time the counter value was successfully updated.
    pub last_updated: Option<u64>,
    /// Number of pending increments (expected - current).
    pub pending_increments: Option<u64>,
}

/// Details of the explorer service.
///
/// The `total_*` counters are network-wide totals sourced from the explorer's `overviewStats`
/// query, not per-block counts. `block_number`, `timestamp` and the commitments are still taken
/// from the latest block so that tip-drift against the RPC can be detected.
#[derive(Debug, Clone)]
pub struct ExplorerStatusDetails {
    pub block_number: u64,
    pub timestamp: u64,
    pub total_transactions: u64,
    pub total_nullifiers: u64,
    pub total_notes: u64,
    pub total_account_updates: u64,
    pub block_commitment: String,
    pub chain_commitment: String,
    pub proof_commitment: String,
}

/// Details of the note transport service.
#[derive(Debug, Clone)]
pub struct NoteTransportStatusDetails {
    pub url: String,
}

/// Details of the validator service.
#[derive(Debug, Clone)]
pub struct ValidatorStatusDetails {
    pub url: String,
    pub version: String,
    pub chain_tip: u32,
    pub validated_transactions_count: u64,
    pub signed_blocks_count: u64,
}

impl Default for IncrementDetails {
    fn default() -> (details: IncrementDetails)
        ensures
            details == (IncrementDetails {
                success_count: 0,
                failure_count: 0,
                last_tx_id: None,
                last_latency_blocks: None,
                fee_balance: None,
                fee_topup_error: None,
            }),
    {
        IncrementDetails {
            success_count: 0,
            failure_count: 0,
            last_tx_id: None,
            last_latency_blocks: None,
            fee_balance: None,
            fee_topup_error: None,
        }
    }
}

impl Default for PendingLatencyDetails {
    fn default() -> (details: PendingLatencyDetails)
        ensures
            details == (PendingLatencyDetails { submit_height: 0, target_value: 0 }),
    {
        PendingLatencyDetails { submit_height: 0, target_value: 0 }
    }
}

impl Default for CounterTrackingDetails {
    fn default() -> (details: CounterTrackingDetails)
        ensures
            details == (CounterTrackingDetails {
                current_value: None,
                expected_value: None,
                last_updated: None,
                pending_increments: None,
            }),
    {
        CounterTrackingDetails {
            current_value: None,
            expected_value: None,
            last_updated: None,
            pending_increments: None,
        }
    }
}

impl Default for ExplorerStatusDetails {
    fn default() -> (details: ExplorerStatusDetails)
        ensures
            details.block_number == 0,
            details.timestamp == 0,
            details.total_transactions == 0,
            details.total_nullifiers == 0,
            details.total_notes == 0,
            details.total_account_updates == 0,
            details.block_commitment@.len() == 0,
            details.chain_commitment@.len() == 0,
            details.proof_commitment@.len() == 0,
    {
        ExplorerStatusDetails {
            block_number: 0,
            timestamp: 0,
            total_transactions: 0,
            total_nullifiers: 0,
            total_notes: 0,
            total_account_updates: 0,
            block_commitment: String::new(),
            chain_commitment: String::new(),
            proof_commitment: String::new(),
        }
    }
}

impl Default for NoteTransportStatusDetails {
    fn default() -> (details: NoteTransportStatusDetails)
        ensures
            details.url@.len() == 0,
    {
        NoteTransportStatusDetails { url: String::new() }
    }
}

impl Default for ValidatorStatusDetails {
    fn default() -> (details: ValidatorStatusDetails)
        ensures
            details.url@.len() == 0,
            details.version@.len() == 0,
            details.chain_tip == 0,
            details.validated_transactions_count == 0,
            details.signed_blocks_count == 0,
    {
        ValidatorStatusDetails {
            url: String::new(),
            version: String::new(),
            chain_tip: 0,
            validated_transactions_count: 0,
            signed_blocks_count: 0,
        }
    }
}

// RPC STATUS DETAILS
// ================================================================================================

/// Details of an RPC service.
#[derive(Debug, Clone)]
pub struct RpcStatusDetails {
    /// The URL of the RPC service (used by the frontend for gRPC-Web probing).
    pub url: String,
    pub version: String,
    pub genesis_commitment: Option<String>,
    pub chain_tip: u32,
    pub block_producer_status: Option<BlockProducerStatusDetails>,
}

/// Details of a store service.
#[derive(Debug, Clone)]
pub struct StoreStatusDetails {
    pub version: String,
    pub status: Status,
    pub chain_tip: u32,
}

/// Details of a block producer service.
#[derive(Debug, Clone)]
pub struct BlockProducerStatusDetails {
    pub version: String,
    pub status: Status,
    /// The block producer's current view of the chain tip height.
    pub chain_tip: u32,
    /// Mempool statistics for this block producer; `None` when the node did not report them.
    pub mempool: Option<MempoolStatusDetails>,
}

/// Details about the block producer's mempool.
#[derive(Debug, Clone, Copy, PartialEq, Eq, Structural)]
pub struct MempoolStatusDetails {
    /// Number of transactions that have not yet been committed.
    pub uncommitted_transactions: u64,
    /// Number of transactions currently in the mempool waiting to be batched.
    pub unbatched_transactions: u64,
    /// Number of batches currently being proven.
    pub proposed_batches: u64,
    /// Number of proven batches waiting for block inclusion.
    pub proven_batches: u64,
}

// REMOTE PROVER STATUS DETAILS
// ================================================================================================

/// Details of a remote prover service.
#[derive(Debug, Clone)]
pub struct RemoteProverStatusDetails {
    pub url: String,
    pub version: String,
    pub supported_proof_type: ProofType,
    pub workers: Vec<WorkerStatusDetails>,
}

/// Details of a worker service.
#[derive(Debug, Clone)]
pub struct WorkerStatusDetails {
    pub name: String,
    pub version: String,
    pub status: Status,
}

// NETWORK STATUS
// ================================================================================================

/// Status of the entire network, aggregating all service statuses.
#[derive(Debug, Clone)]
pub struct NetworkStatus {
    pub services: Vec<ServiceStatus>,
    pub last_updated: u64,
    pub monitor_version: String,
    pub network_name: String,
}

// REPORTS OF THE SERVICES
// ================================================================================================

/// What a node reports of its mempool.
#[derive(Debug, Clone, Copy, PartialEq, Eq, Structural)]
pub struct MempoolStats {
    pub uncommitted_transactions: u64,
    pub unbatched_transactions: u64,
    pub proposed_batches: u64,
    pub proven_batches: u64,
}

/// What a node reports of its block producer.
#[derive(Debug)]
pub struct BlockProducerStatus {
    pub version: String,
    pub status: String,
    pub chain_tip: u32,
    /// Optional on the wire: a node version that omits them must not bring the monitor down.
    pub mempool_stats: Option<MempoolStats>,
}

/// What a node reports of itself.
#[derive(Debug)]
pub struct RpcStatus {
    pub version: String,
    /// The genesis commitment, as text.
    pub genesis_commitment: Option<String>,
    pub chain_tip: u32,
    pub block_producer: Option<BlockProducerStatus>,
}

/// What a remote prover reports of one of its workers.
#[derive(Debug)]
pub struct ProxyWorkerStatus {
    pub name: String,
    pub version: String,
    /// The discriminant of the worker's health.
    pub status: i32,
}

/// What a remote prover reports of itself.
#[derive(Debug)]
pub struct ProxyStatus {
    pub version: String,
    /// The discriminant of the proof type.
    pub supported_proof_type: i32,
    pub workers: Vec<ProxyWorkerStatus>,
}

impl vstd::std_specs::convert::FromSpecImpl<BlockProducerStatus> for BlockProducerStatusDetails {
    open spec fn obeys_from_spec() -> bool {
        true
    }

    open spec fn from_spec(value: BlockProducerStatus) -> BlockProducerStatusDetails {
        BlockProducerStatusDetails {
            version: value.version,
            status: status_of_text(value.status@),
            chain_tip: value.chain_tip,
            mempool: match value.mempool_stats {
                Some(stats) => Some(
                    MempoolStatusDetails {
                        uncommitted_transactions: stats.uncommitted_transactions,
                        unbatched_transactions: stats.unbatched_transactions,
                        proposed_batches: stats.proposed_batches,
                        proven_batches: stats.proven_batches,
                    },
                ),
                None => None,
            },
        }
    }
}

impl From<BlockProducerStatus> for BlockProducerStatusDetails {
    fn from(value: BlockProducerStatus) -> (details: BlockProducerStatusDetails) {
        let mempool = match value.mempool_stats {
            Some(stats) => Some(
                MempoolStatusDetails {
                    uncommitted_transactions: stats.uncommitted_transactions,
                    unbatched_transactions: stats.unbatched_transactions,
                    proposed_batches: stats.proposed_batches,
                    proven_batches: stats.proven_batches,
                },
            ),
            None => None,
        };
        BlockProducerStatusDetails {
            version: value.version,
            status: Status::from(value.status),
            chain_tip: value.chain_tip,
            mempool,
        }
    }
}

/// The health of a worker. A discriminant which is out of range, as a newer prover may report, is
/// unknown.
pub open spec fn worker_status_of(discriminant: i32) -> Status {
    match worker_health_of(discriminant) {
        Some(WorkerHealthStatus::Healthy) => Status::Healthy,
        Some(WorkerHealthStatus::Unhealthy) => Status::Unhealthy,
        _ => Status::Unknown,
    }
}

impl vstd::std_specs::convert::FromSpecImpl<ProxyWorkerStatus> for WorkerStatusDetails {
    open spec fn obeys_from_spec() -> bool {
        true
    }

    open spec fn from_spec(value: ProxyWorkerStatus) -> WorkerStatusDetails {
        WorkerStatusDetails {
            name: value.name,
            version: value.version,
            status: worker_status_of(value.status),
        }
    }
}

impl From<ProxyWorkerStatus> for WorkerStatusDetails {
    fn from(value: ProxyWorkerStatus) -> (details: WorkerStatusDetails) {
        let status = match WorkerHealthStatus::from_discriminant(value.status) {
            Some(health) => Status::from(health),
            None => Status::Unknown,
        };
        WorkerStatusDetails { name: value.name, version: value.version, status }
    }
}

/// The proof type by its discriminant on the wire. A discriminant which is out of range, as a newer
/// prover may report, is unknown.
pub open spec fn proof_type_of(discriminant: i32) -> ProofType {
    if discriminant == 0 {
        ProofType::Transaction
    } else if discriminant == 1 {
        ProofType::Batch
    } else if discriminant == 2 {
        ProofType::Block
    } else {
        ProofType::Unknown
    }
}

impl ProofType {
    /// Reads a discriminant.
    pub fn from_discriminant(discriminant: i32) -> (proof_type: ProofType)
        ensures
            proof_type == proof_type_of(discriminant),
    {
        if discriminant == 0 {
            ProofType::Transaction
        } else if discriminant == 1 {
            ProofType::Batch
        } else if discriminant == 2 {
            ProofType::Block
        } else {
            ProofType::Unknown
        }
    }
}

impl RemoteProverStatusDetails {
    /// Creates the details from the report of a remote prover and the configured URL.
    pub fn from_proxy_status(status: ProxyStatus, url: String) -> (details:
        RemoteProverStatusDetails)
        ensures
            details.url == url,
            details.version == status.version,
            details.supported_proof_type == proof_type_of(status.supported_proof_type),
            details.workers@.len() == status.workers@.len(),
            forall|i: int|
                0 <= i < status.workers@.len() ==> {
                    let worker = #[trigger] details.workers@[i];
                    &&& worker.name@ == status.workers@[i].name@
                    &&& worker.version@ == status.workers@[i].version@
                    &&& worker.status == worker_status_of(status.workers@[i].status)
                },
    {
        let reported = &status.workers;
        let mut workers: Vec<WorkerStatusDetails> = Vec::new();
        let mut i: usize = 0;
        while i < reported.len()
            invariant
                i <= reported@.len(),
                workers@.len() == i,
                forall|k: int|
                    0 <= k < i ==> {
                        let worker = #[trigger] workers@[k];
                        &&& worker.name@ == reported@[k].name@
                        &&& worker.version@ == reported@[k].version@
                        &&& worker.status == worker_status_of(reported@[k].status)
                    },
            decreases reported@.len() - i,
        {
            let copy = ProxyWorkerStatus {
                name: reported[i].name.clone(),
                version: reported[i].version.clone(),
                status: reported[i].status,
            };
            workers.push(WorkerStatusDetails::from(copy));
            i = i + 1;
        }
        RemoteProverStatusDetails {
            url,
            version: status.version,
            supported_proof_type: ProofType::from_discriminant(status.supported_proof_type),
            workers,
        }
    }
}

impl RpcStatusDetails {
    /// Creates the details from the report of a node and the configured URL.
    pub fn from_rpc_status(status: RpcStatus, url: String) -> (details: RpcStatusDetails)
        ensures
            details == (RpcStatusDetails {
                url,
                version: status.version,
                genesis_commitment: status.genesis_commitment,
                chain_tip: status.chain_tip,
                block_producer_status: match status.block_producer {
                    Some(block_producer) => Some(
                        <BlockProducerStatusDetails as vstd::std_specs::convert::FromSpec<
                            BlockProducerStatus,
                        >>::from_spec(block_producer),
                    ),
                    None => None,
                },
            }),
            details.block_producer_status is Some <==> status.block_producer is Some,
            status.block_producer matches Some(reported) ==> {
                let producer = details.block_producer_status->0;
                &&& producer.version == reported.version
                &&& producer.chain_tip == reported.chain_tip
                &&& producer.mempool is Some <==> reported.mempool_stats is Some
                &&& reported.mempool_stats matches Some(stats) ==> {
                    let mempool = producer.mempool->0;
                    &&& mempool.uncommitted_transactions == stats.uncommitted_transactions
                    &&& mempool.unbatched_transactions == stats.unbatched_transactions
                    &&& mempool.proposed_batches == stats.proposed_batches
                    &&& mempool.proven_batches == stats.proven_batches
                }
            },
    {
        let block_producer_status = match status.block_producer {
            Some(block_producer) => Some(BlockProducerStatusDetails::from(block_producer)),
            None => None,
        };
        RpcStatusDetails {
            url,
            version: status.version,
            genesis_commitment: status.genesis_commitment,
            chain_tip: status.chain_tip,
            block_producer_status,
        }
    }
}

// UTILITIES
// ================================================================================================

/// Gets the current Unix timestamp in seconds.
///
/// This function is infallible - if the system time is somehow before Unix epoch (extremely
/// unlikely), it returns 0.
pub fn current_unix_timestamp_secs() -> (seconds: u64)
    ensures
        exists|elapsed: Result<clock::Elapsed, String>|
            seconds == #[trigger] clock::seconds_of(elapsed),
{
    let elapsed = clock::since_epoch();
    clock::to_seconds(elapsed)
}

// LAWS OF REPORTS
// ================================================================================================

/// A block producer is shown as it was reported: its version, its chain tip, and each of the four
/// counts of its mempool in the field of that name, where the node reported them.
pub proof fn law_block_producer_is_shown_as_reported(
    reported: BlockProducerStatus,
    details: BlockProducerStatusDetails,
)
    requires
        details == <BlockProducerStatusDetails as vstd::std_specs::convert::FromSpec<
            BlockProducerStatus,
        >>::from_spec(reported),
    ensures
        details.version@ == reported.version@,
        details.chain_tip == reported.chain_tip,
        details.mempool is Some <==> reported.mempool_stats is Some,
        reported.mempool_stats matches Some(stats) ==> {
            let mempool = details.mempool->0;
            &&& mempool.uncommitted_transactions == stats.uncommitted_transactions
            &&& mempool.unbatched_transactions == stats.unbatched_transactions
            &&& mempool.proposed_batches == stats.proposed_batches
            &&& mempool.proven_batches == stats.proven_batches
        },
        details.status == Status::Healthy <==> reported.status@ == "HEALTHY"@ || reported.status@
            == "connected"@,
        details.status == Status::Unhealthy <==> reported.status@ == "UNHEALTHY"@
            || reported.status@ == "disconnected"@,
{
    law_health_in_words(reported.status@);
}

/// A service is healthy exactly when it says so or is connected, unhealthy exactly when it says so or
/// is disconnected, and unknown for every other word.
pub proof fn law_health_in_words(value: Seq<char>)
    ensures
        status_of_text(value) == Status::Healthy <==> value == "HEALTHY"@ || value == "connected"@,
        status_of_text(value) == Status::Unhealthy <==> value == "UNHEALTHY"@ || value
            == "disconnected"@,
        status_of_text(value) == Status::Unknown <==> value != "HEALTHY"@ && value != "connected"@
            && value != "UNHEALTHY"@ && value != "disconnected"@,
{
    reveal_strlit("HEALTHY");
    reveal_strlit("connected");
    reveal_strlit("UNHEALTHY");
    reveal_strlit("disconnected");
    assert("HEALTHY"@.len() == 7 && "connected"@.len() == 9);
    assert("UNHEALTHY"@.len() == 9 && "disconnected"@.len() == 12);
    assert("UNHEALTHY"@[0] == 'U' && "connected"@[0] == 'c');
}

/// A worker is shown with its name and its version, as healthy or unhealthy where the prover reports
/// one or two for it, and as unknown for every other number.
pub proof fn law_worker_is_shown_as_reported(
    reported: ProxyWorkerStatus,
    details: WorkerStatusDetails,
)
    requires
        details == <WorkerStatusDetails as vstd::std_specs::convert::FromSpec<
            ProxyWorkerStatus,
        >>::from_spec(reported),
    ensures
        details.name@ == reported.name@,
        details.version@ == reported.version@,
        details.status == worker_status_of(reported.status),
        details.status == Status::Healthy <==> reported.status == 1,
        details.status == Status::Unhealthy <==> reported.status == 2,
        details.status == Status::Unknown <==> reported.status < 1 || reported.status > 2,
{
}

/// A discriminant names the health of a worker exactly when it is zero, one or two, and different
/// ones name different healths. Converting the health keeps its name.
pub proof fn law_worker_health_by_discriminant(discriminant: i32, health: WorkerHealthStatus)
    ensures
        worker_health_of(discriminant) is Some <==> 0 <= discriminant <= 2,
        worker_health_of(discriminant) == Some(health) <==> discriminant == (match health {
            WorkerHealthStatus::Unknown => 0i32,
            WorkerHealthStatus::Healthy => 1,
            WorkerHealthStatus::Unhealthy => 2,
        }),
        <Status as vstd::std_specs::convert::FromSpec<WorkerHealthStatus>>::from_spec(health)
            == Status::Healthy <==> health == WorkerHealthStatus::Healthy,
        <Status as vstd::std_specs::convert::FromSpec<WorkerHealthStatus>>::from_spec(health)
            == Status::Unhealthy <==> health == WorkerHealthStatus::Unhealthy,
{
}

/// Zero, one and two stand for transaction, batch and block proofs, and every other number for a
/// proof type which is not known.
pub proof fn law_proof_type_by_discriminant(discriminant: i32)
    ensures
        proof_type_of(discriminant) == ProofType::Transaction <==> discriminant == 0,
        proof_type_of(discriminant) == ProofType::Batch <==> discriminant == 1,
        proof_type_of(discriminant) == ProofType::Block <==> discriminant == 2,
        proof_type_of(discriminant) == ProofType::Unknown <==> discriminant < 0 || discriminant > 2,
{
}

/// A status has an error exactly when it is unhealthy, and otherwise holds what it was made with.
pub proof fn law_status_holds_what_it_was_made_with(
    name: Seq<char>,
    error: Seq<char>,
    details: ServiceDetails,
    now: u64,
)
    ensures
        ({
            let healthy = ServiceStatusView::healthy(name, details, now);
            let unhealthy = ServiceStatusView::unhealthy(name, error, details, now);
            let unknown = ServiceStatusView::unknown(name, details, now);
            &&& healthy.status == Status::Healthy && unhealthy.status == Status::Unhealthy
            &&& unknown.status == Status::Unknown
            &&& healthy.error is None && unknown.error is None && unhealthy.error == Some(error)
            &&& healthy.name == name && unhealthy.name == name && unknown.name == name
            &&& healthy.last_checked == now && unhealthy.last_checked == now
            &&& unknown.last_checked == now
            &&& healthy.details == details && unhealthy.details == details
            &&& unknown.details == details
        }),
{
}

/// A status is seen with all its fields, its name and its error by their texts.
pub proof fn law_status_is_seen_whole(service: ServiceStatus)
    ensures
        service@.name == service.name@,
        service@.status == service.status,
        service@.last_checked == service.last_checked,
        service@.details == service.details,
        service@.error is Some <==> service.error is Some,
        service.error matches Some(message) ==> service@.error == Some(message@),
        error_text(service.error) == service@.error,
{
}

} // verus!
