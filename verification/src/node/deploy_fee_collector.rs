//! Deployment of a fee collector account.

use vstd::prelude::*;

use crate::node::collection_account;
use crate::node::collection_account::account_file_options;
use crate::node::collection_account::AccountFileOptions;
use crate::node::lifecycle;
use crate::node::lifecycle::CommandError;

verus! {

/// Deploys a new fee collector account.
#[derive(Debug)]
pub struct DeployFeeCollectorCommand {
    /// Overwrite the output file if it exists. This discards the previous account and signing key.
    pub clobber: bool,
}

/// What happened to the deployment.
#[derive(Debug)]
pub enum DeployEvent {
    /// The node state could not be loaded.
    LoadFailed(String),
    /// The node state is loaded and the block writer runs.
    Loaded { proven_tip: u32, committed_tip: u32 },
    /// The account was created and saved, or not.
    AccountSaved(Result<(), String>),
    /// The deployment itself ended.
    Deployed(DeployOutcome),
}

/// How the deployment itself ended.
#[derive(Debug)]
pub enum DeployOutcome {
    Cancelled,
    Finished(Result<(), String>),
}

/// What the deployment does next.
#[derive(Debug)]
pub enum DeployStep {
    /// Fail at once. Nothing was started.
    Fail(CommandError),
    /// Create the account and save it with its signing key, in a file which is opened like this.
    CreateAccount(AccountFileOptions),
    /// Deploy the account, until it is done or the service shuts down.
    Deploy,
    /// Stop the block writer and finish with this result.
    StopWriter(Result<(), String>),
}

/// What the deployment does next.
pub enum DeployStepView {
    Fail { context: Option<Seq<char>>, cause: Seq<char> },
    CreateAccount(AccountFileOptions),
    Deploy,
    StopWriter(Result<(), Seq<char>>),
}

/// A result with its failure by its text.
pub open spec fn result_text(result: Result<(), String>) -> Result<(), Seq<char>> {
    match result {
        Ok(_) => Ok(()),
        Err(error) => Err(error@),
    }
}

impl View for DeployStep {
    type V = DeployStepView;

    open spec fn view(&self) -> DeployStepView {
        match *self {
            DeployStep::Fail(error) => DeployStepView::Fail {
                context: lifecycle::context_text(error),
                cause: error.cause@,
            },
            DeployStep::CreateAccount(options) => DeployStepView::CreateAccount(options),
            DeployStep::Deploy => DeployStepView::Deploy,
            DeployStep::StopWriter(result) => DeployStepView::StopWriter(result_text(result)),
        }
    }
}

impl DeployFeeCollectorCommand {
    /// What follows an event. Every committed block must be proven before an account is created.
    pub open spec fn next(self, event: DeployEvent) -> DeployStepView {
        match event {
            DeployEvent::LoadFailed(cause) => DeployStepView::Fail {
                context: Some("failed to load node state"@),
                cause: cause@,
            },
            DeployEvent::Loaded { proven_tip, committed_tip } => if proven_tip == committed_tip {
                DeployStepView::CreateAccount(collection_account::options_of(self.clobber))
            } else {
                DeployStepView::StopWriter(
                    Err("sync all committed block proofs before deploying a fee collector"@),
                )
            },
            DeployEvent::AccountSaved(Ok(_)) => DeployStepView::Deploy,
            DeployEvent::AccountSaved(Err(error)) => DeployStepView::StopWriter(Err(error@)),
            DeployEvent::Deployed(DeployOutcome::Cancelled) => DeployStepView::StopWriter(
                Err("fee collector deployment cancelled"@),
            ),
            DeployEvent::Deployed(DeployOutcome::Finished(result)) => DeployStepView::StopWriter(
                result_text(result),
            ),
        }
    }

    /// Takes what happened, and decides what follows.
    pub fn handle(&self, event: DeployEvent) -> (step: DeployStep)
        ensures
            step@ == self.next(event),
    {
        match event {
            DeployEvent::LoadFailed(cause) => DeployStep::Fail(
                CommandError { context: Some("failed to load node state".to_owned()), cause },
            ),
            DeployEvent::Loaded { proven_tip, committed_tip } => {
                if proven_tip == committed_tip {
                    DeployStep::CreateAccount(account_file_options(self.clobber))
                } else {
                    DeployStep::StopWriter(
                        Err(
                            "sync all committed block proofs before deploying a fee collector".to_owned(),
                        ),
                    )
                }
            },
            DeployEvent::AccountSaved(Ok(_)) => DeployStep::Deploy,
            DeployEvent::AccountSaved(Err(error)) => DeployStep::StopWriter(Err(error)),
            DeployEvent::Deployed(DeployOutcome::Cancelled) => DeployStep::StopWriter(
                Err("fee collector deployment cancelled".to_owned()),
            ),
            DeployEvent::Deployed(DeployOutcome::Finished(result)) => DeployStep::StopWriter(result),
        }
    }
}

/// The signing key is saved before deployment can change the chain, and no account is created on a
/// chain whose blocks are not all proven.
pub proof fn law_key_is_saved_before_deployment(
    command: DeployFeeCollectorCommand,
    event: DeployEvent,
)
    ensures
        command.next(event) is Deploy ==> event matches DeployEvent::AccountSaved(Ok(_)),
        command.next(event) is CreateAccount ==> (event matches DeployEvent::Loaded {
            proven_tip,
            committed_tip,
        } && proven_tip == committed_tip),
{
}

/// Once the block writer runs, the command ends only by stopping it.
pub proof fn law_started_writer_is_stopped(command: DeployFeeCollectorCommand, event: DeployEvent)
    ensures
        command.next(event) is Fail <==> event is LoadFailed,
{
}

/// A deployment tells how it ended: with the failure to load, with committed blocks which are not
/// proven, with the failure to save the account, as cancelled, or as the deployment itself ended.
pub proof fn law_deployment_ends_as_it_went(
    command: DeployFeeCollectorCommand,
    text: String,
    proven_tip: u32,
    committed_tip: u32,
)
    ensures
        command.next(DeployEvent::LoadFailed(text)) == (DeployStepView::Fail {
            context: Some("failed to load node state"@),
            cause: text@,
        }),
        command.next(DeployEvent::Loaded { proven_tip, committed_tip }) == (if proven_tip
            != committed_tip {
            DeployStepView::StopWriter(
                Err("sync all committed block proofs before deploying a fee collector"@),
            )
        } else {
            DeployStepView::CreateAccount(
                AccountFileOptions {
                    create_new: !command.clobber,
                    create: command.clobber,
                    truncate: command.clobber,
                    write: true,
                    mode: 384,
                },
            )
        }),
        command.next(DeployEvent::AccountSaved(Ok(()))) == DeployStepView::Deploy,
        command.next(DeployEvent::AccountSaved(Err(text))) == DeployStepView::StopWriter(
            Err(text@),
        ),
        command.next(DeployEvent::Deployed(DeployOutcome::Cancelled)) == DeployStepView::StopWriter(
            Err("fee collector deployment cancelled"@),
        ),
        command.next(DeployEvent::Deployed(DeployOutcome::Finished(Err(text))))
            == DeployStepView::StopWriter(Err(text@)),
        command.next(DeployEvent::Deployed(DeployOutcome::Finished(Ok(()))))
            == DeployStepView::StopWriter(Ok(())),
{
}

/// A step of the deployment is seen with what it holds, its texts by their characters.
pub proof fn law_step_is_seen_whole(
    error: CommandError,
    options: AccountFileOptions,
    failure: String,
)
    ensures
        DeployStep::Fail(error)@ matches DeployStepView::Fail { context, cause } && cause
            == error.cause@ && (context is Some <==> error.context is Some) && (error.context
            is Some ==> context->0 == error.context->0@),
        DeployStep::CreateAccount(options)@ == DeployStepView::CreateAccount(options),
        DeployStep::Deploy@ == DeployStepView::Deploy,
        DeployStep::StopWriter(Ok(()))@ == DeployStepView::StopWriter(Ok(())),
        DeployStep::StopWriter(Err(failure))@ == DeployStepView::StopWriter(Err(failure@)),
{
}

} // verus!
