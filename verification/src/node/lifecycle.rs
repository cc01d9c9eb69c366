//! Bootstrapping and migrating a node.

use vstd::prelude::*;

verus! {

/// Why a command fails: what it was doing, and what went wrong.
#[derive(Debug)]
pub struct CommandError {
    /// What the command was doing, where that is said.
    pub context: Option<String>,
    pub cause: String,
}

/// The text of what a command was doing.
pub open spec fn context_text(error: CommandError) -> Option<Seq<char>> {
    match error.context {
        Some(context) => Some(context@),
        None => None,
    }
}

// BOOTSTRAP
// ================================================================================================

/// Where the genesis block comes from: a trusted file, or an official network.
#[derive(Debug)]
pub enum GenesisSource<N> {
    File(String),
    Network(N),
}

/// Decides where the genesis block comes from. Exactly one source is configured.
pub fn read_bootstrap_genesis_block<N>(
    genesis_block_file: Option<String>,
    network: Option<N>,
) -> (source: GenesisSource<N>)
    requires
        genesis_block_file is Some <==> network is None,
    ensures
        match source {
            GenesisSource::File(path) => genesis_block_file == Some(path),
            GenesisSource::Network(chosen) => network == Some(chosen),
        },
{
    match genesis_block_file {
        Some(path) => GenesisSource::File(path),
        None => match network {
            Some(chosen) => GenesisSource::Network(chosen),
            None => {
                assert(false);
                GenesisSource::File(String::new())
            },
        },
    }
}

/// Bootstraps a node.
#[derive(Debug)]
pub struct BootstrapCommand {
    /// Directory to initialize with the node's local data storage.
    pub data_directory: String,
}

/// A step of the bootstrap.
#[derive(Debug, Clone, Copy, PartialEq, Eq, Structural)]
pub enum BootstrapStep {
    /// Make sure that the data directory is empty.
    EnsureEmptyDirectory,
    /// Read and validate the genesis block.
    ReadGenesisBlock,
    /// Initialize the data directory with the genesis block.
    BootstrapState,
    /// Save the collector and its signing key without registering the account on-chain.
    CreateCollectionAccount,
    /// The node is bootstrapped.
    Complete,
}

impl BootstrapStep {
    /// The step which follows when this one succeeds.
    pub open spec fn next(self) -> BootstrapStep {
        match self {
            BootstrapStep::EnsureEmptyDirectory => BootstrapStep::ReadGenesisBlock,
            BootstrapStep::ReadGenesisBlock => BootstrapStep::BootstrapState,
            BootstrapStep::BootstrapState => BootstrapStep::CreateCollectionAccount,
            _ => BootstrapStep::Complete,
        }
    }
}

impl BootstrapCommand {
    /// Takes how a step went, and decides what follows.
    pub fn handle(&self, step: BootstrapStep, outcome: Result<(), String>) -> (next: Result<
        BootstrapStep,
        CommandError,
    >)
        ensures
            match (outcome, next) {
                (Ok(_), Ok(next)) => next == step.next(),
                (Err(cause), Err(error)) => error.cause == cause && context_text(error) == (
                if step == BootstrapStep::CreateCollectionAccount {
                    Some("failed to create the batch builder collection account"@)
                } else {
                    None
                }),
                _ => false,
            },
    {
        match outcome {
            Ok(_) => Ok(
                match step {
                    BootstrapStep::EnsureEmptyDirectory => BootstrapStep::ReadGenesisBlock,
                    BootstrapStep::ReadGenesisBlock => BootstrapStep::BootstrapState,
                    BootstrapStep::BootstrapState => BootstrapStep::CreateCollectionAccount,
                    _ => BootstrapStep::Complete,
                },
            ),
            Err(cause) => {
                let context = match step {
                    BootstrapStep::CreateCollectionAccount => Some(
                        "failed to create the batch builder collection account".to_owned(),
                    ),
                    _ => None,
                };
                Err(CommandError { context, cause })
            },
        }
    }
}

// MIGRATE
// ================================================================================================

/// Migrates the databases of a node.
#[derive(Debug)]
pub struct MigrateCommand {
    /// Directory containing the node's local data storage.
    pub data_directory: String,
}

/// A step of the migration.
#[derive(Debug, Clone, Copy, PartialEq, Eq, Structural)]
pub enum MigrateStep {
    /// Load the data directory.
    LoadDirectory,
    /// Apply the migrations of the store database.
    MigrateStore,
    /// Look whether there is an account allowlist database. Only sequencer startup creates it, and
    /// migration must also work for full nodes that do not have it.
    FindAllowlist,
    /// Apply the migrations of the account allowlist database.
    MigrateAllowlist,
    /// The databases are migrated.
    Complete,
}

/// How a step of the migration went.
#[derive(Debug)]
pub enum MigrateOutcome {
    Done,
    /// Whether the account allowlist database exists.
    AllowlistExists(bool),
    Failed(String),
}

impl MigrateStep {
    /// Whether the outcome is one of this step.
    pub open spec fn expects(self, outcome: MigrateOutcome) -> bool {
        match outcome {
            MigrateOutcome::Done => self != MigrateStep::FindAllowlist,
            MigrateOutcome::AllowlistExists(_) => self == MigrateStep::FindAllowlist,
            MigrateOutcome::Failed(_) => true,
        }
    }

    /// The step which follows.
    pub open spec fn next(self, outcome: MigrateOutcome) -> MigrateStep {
        match self {
            MigrateStep::LoadDirectory => MigrateStep::MigrateStore,
            MigrateStep::MigrateStore => MigrateStep::FindAllowlist,
            MigrateStep::FindAllowlist => if outcome == MigrateOutcome::AllowlistExists(true) {
                MigrateStep::MigrateAllowlist
            } else {
                MigrateStep::Complete
            },
            _ => MigrateStep::Complete,
        }
    }
}

impl MigrateCommand {
    /// What is said of a failure of a step.
    pub open spec fn context_of(self, step: MigrateStep) -> Option<Seq<char>> {
        match step {
            MigrateStep::LoadDirectory => Some(
                "failed to load data directory at "@ + self.data_directory@,
            ),
            MigrateStep::MigrateStore => Some("failed to apply store database migrations"@),
            MigrateStep::FindAllowlist => Some("failed to check account allowlist database"@),
            MigrateStep::MigrateAllowlist => Some("failed to apply account allowlist migrations"@),
            MigrateStep::Complete => None,
        }
    }

    /// Takes how a step went, and decides what follows.
    pub fn handle(&self, step: MigrateStep, outcome: MigrateOutcome) -> (next: Result<
        MigrateStep,
        CommandError,
    >)
        requires
            step.expects(outcome),
        ensures
            match (outcome, next) {
                (MigrateOutcome::Failed(cause), Err(error)) => error.cause == cause
                    && context_text(error) == self.context_of(step),
                (MigrateOutcome::Failed(_), Ok(_)) => false,
                (_, Ok(next)) => next == step.next(outcome),
                _ => false,
            },
    {
        match outcome {
            MigrateOutcome::Failed(cause) => {
                let context = match step {
                    MigrateStep::LoadDirectory => {
                        let mut context = "failed to load data directory at ".to_owned();
                        context.append(self.data_directory.as_str());
                        Some(context)
                    },
                    MigrateStep::MigrateStore => Some(
                        "failed to apply store database migrations".to_owned(),
                    ),
                    MigrateStep::FindAllowlist => Some(
                        "failed to check account allowlist database".to_owned(),
                    ),
                    MigrateStep::MigrateAllowlist => Some(
                        "failed to apply account allowlist migrations".to_owned(),
                    ),
                    MigrateStep::Complete => None,
                };
                Err(CommandError { context, cause })
            },
            MigrateOutcome::AllowlistExists(exists_) => Ok(
                if exists_ {
                    MigrateStep::MigrateAllowlist
                } else {
                    MigrateStep::Complete
                },
            ),
            MigrateOutcome::Done => Ok(
                match step {
                    MigrateStep::LoadDirectory => MigrateStep::MigrateStore,
                    MigrateStep::MigrateStore => MigrateStep::FindAllowlist,
                    _ => MigrateStep::Complete,
                },
            ),
        }
    }
}

// LAWS OF THE COMMANDS
// ================================================================================================

/// The genesis block is read only once the directory is known to be empty, the state is initialized
/// only with the genesis block, and the collection account is created only for an initialized state,
/// which completes the bootstrap.
pub proof fn law_bootstrap_goes_step_by_step(step: BootstrapStep)
    ensures
        step.next() != BootstrapStep::EnsureEmptyDirectory,
        step.next() == BootstrapStep::ReadGenesisBlock <==> step
            == BootstrapStep::EnsureEmptyDirectory,
        step.next() == BootstrapStep::BootstrapState <==> step == BootstrapStep::ReadGenesisBlock,
        step.next() == BootstrapStep::CreateCollectionAccount <==> step
            == BootstrapStep::BootstrapState,
        step.next() == BootstrapStep::Complete <==> step == BootstrapStep::CreateCollectionAccount
            || step == BootstrapStep::Complete,
{
}

/// The store is migrated once the directory is loaded, and the account allowlist after the store and
/// only where it exists.
pub proof fn law_migration_goes_step_by_step(step: MigrateStep, outcome: MigrateOutcome)
    requires
        step.expects(outcome),
        !(outcome is Failed),
    ensures
        step.next(outcome) != MigrateStep::LoadDirectory,
        step.next(outcome) == MigrateStep::MigrateStore <==> step == MigrateStep::LoadDirectory,
        step.next(outcome) == MigrateStep::FindAllowlist <==> step == MigrateStep::MigrateStore,
        step.next(outcome) == MigrateStep::MigrateAllowlist <==> step == MigrateStep::FindAllowlist
            && (outcome matches MigrateOutcome::AllowlistExists(found) && found),
        step.next(outcome) == MigrateStep::Complete <==> step == MigrateStep::MigrateAllowlist
            || step == MigrateStep::Complete || (outcome matches MigrateOutcome::AllowlistExists(
            found,
        ) && !found),
{
}

/// Only the look for the allowlist tells whether it exists, every other step is done, and each of them
/// can fail.
pub proof fn law_migration_steps_have_their_outcomes(step: MigrateStep, found: bool, cause: String)
    ensures
        step.expects(MigrateOutcome::AllowlistExists(found)) <==> step
            == MigrateStep::FindAllowlist,
        step.expects(MigrateOutcome::Done) <==> step != MigrateStep::FindAllowlist,
        step.expects(MigrateOutcome::Failed(cause)),
{
}

/// A failed migration tells what it was doing, and names the directory it could not load.
pub proof fn law_failed_migration_tells_what_it_did(command: MigrateCommand, step: MigrateStep)
    ensures
        command.context_of(step) == (match step {
            MigrateStep::Complete => None,
            MigrateStep::LoadDirectory => Some(
                "failed to load data directory at "@ + command.data_directory@,
            ),
            MigrateStep::MigrateStore => Some("failed to apply store database migrations"@),
            MigrateStep::FindAllowlist => Some("failed to check account allowlist database"@),
            MigrateStep::MigrateAllowlist => Some("failed to apply account allowlist migrations"@),
        }),
{
}

/// An error tells what the command was doing exactly where that was said.
pub proof fn law_context_is_told_where_it_was_said(error: CommandError)
    ensures
        context_text(error) is Some <==> error.context is Some,
        error.context matches Some(context) ==> context_text(error) == Some(context@),
{
}

} // verus!
