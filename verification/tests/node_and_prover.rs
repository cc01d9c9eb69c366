use miden_services::node::collection_account::account_file_options;
use miden_services::node::deploy_fee_collector::{
    DeployEvent,
    DeployFeeCollectorCommand,
    DeployOutcome,
    DeployStep,
};
use miden_services::node::lifecycle::{
    read_bootstrap_genesis_block,
    BootstrapCommand,
    BootstrapStep,
    GenesisSource,
    MigrateCommand,
    MigrateOutcome,
    MigrateStep,
};
use miden_services::prover::remote_client::RemoteTransactionProver;
use miden_services::prover::server::{Progress, ProofKind, Prover, Stage};
use miden_services::status::Code;

// PROVER
// ================================================================================================

/// Runs a request whose every stage succeeds.
fn stages(kind: ProofKind) -> (Vec<Stage>, ProofKind) {
    let mut stage = Prover::new(kind).prove(kind).expect("the prover's own kind");
    let mut seen = vec![stage];
    loop {
        match stage.finish(Ok(())).expect("a stage which succeeds") {
            Progress::Continue(next) => {
                seen.push(next);
                stage = next;
            },
            Progress::Proven(proven) => return (seen, proven),
        }
    }
}

#[test]
fn a_request_is_proven_by_the_stages_of_its_kind() {
    assert_eq!(
        stages(ProofKind::Transaction),
        (vec![Stage::BuildTransaction, Stage::ProveTransaction], ProofKind::Transaction)
    );
    assert_eq!(
        stages(ProofKind::Batch),
        (vec![Stage::VerifyBatch, Stage::ExecuteBatch, Stage::ProveBatch], ProofKind::Batch)
    );
    assert_eq!(
        stages(ProofKind::Block),
        (
            vec![Stage::DecodeBlock, Stage::ProposeBlock, Stage::ExecuteBlock, Stage::ProveBlock],
            ProofKind::Block
        )
    );
}

#[test]
fn another_kind_of_proof_is_refused() {
    for kind in [ProofKind::Transaction, ProofKind::Batch, ProofKind::Block] {
        for request in [ProofKind::Transaction, ProofKind::Batch, ProofKind::Block] {
            let stage = Prover::new(kind).prove(request);
            assert_eq!(stage.is_ok(), kind == request);
            if let Err(status) = stage {
                assert_eq!(status.code, Code::InvalidArgument);
                assert_eq!(status.message, "unsupported proof type");
            }
        }
    }
}

#[test]
fn a_failed_stage_is_the_fault_of_the_requester_or_of_the_prover() {
    for (stage, code, context) in [
        (Stage::BuildTransaction, Code::InvalidArgument, "failed to build transaction inputs"),
        (Stage::ProveTransaction, Code::Internal, "failed to prove transaction"),
        (Stage::VerifyBatch, Code::InvalidArgument, "failed to verify proposed batch"),
        (Stage::ExecuteBatch, Code::Internal, "failed to execute batch"),
        (Stage::ProveBatch, Code::Internal, "failed to prove batch"),
        (Stage::DecodeBlock, Code::InvalidArgument, "failed to decode block proving inputs"),
        (Stage::ProposeBlock, Code::InvalidArgument, "failed to construct proposed block"),
        (Stage::ExecuteBlock, Code::Internal, "failed to execute block"),
        (Stage::ProveBlock, Code::Internal, "failed to prove block"),
    ] {
        let status = stage.finish(Err("boom".to_string())).unwrap_err();
        assert_eq!(status.code, code);
        assert_eq!(status.message, format!("{context}: boom"));
    }
}

#[test]
fn a_panicked_task_names_its_prover() {
    let context = |kind| Prover::new(kind).task_panic_context();
    assert_eq!(context(ProofKind::Transaction), "transaction prover task panicked");
    assert_eq!(context(ProofKind::Batch), "batch prover task panicked");
    assert_eq!(context(ProofKind::Block), "block prover task panicked");
}

#[test]
fn a_remote_proof_is_taken_or_explained() {
    let prover = RemoteTransactionProver::new("http://prover.example".to_string(), 1_000);
    assert_eq!(prover.url, "http://prover.example");
    assert_eq!(prover.timeout, 1_000);
    assert_eq!(prover.prove(Ok(Ok(7))).unwrap(), 7);
    let unanswered = prover.prove::<u8>(Err("unavailable".to_string())).unwrap_err();
    assert_eq!(unanswered.message, "failed to prove transaction");
    assert_eq!(unanswered.source, "unavailable");
    let invalid = prover.prove::<u8>(Ok(Err("no proof".to_string()))).unwrap_err();
    assert_eq!(invalid.message, "invalid remote transaction proof response");
    assert_eq!(invalid.source, "no proof");
}

// NODE
// ================================================================================================

#[test]
fn a_fee_collector_is_deployed_only_on_a_proven_chain() {
    let command = DeployFeeCollectorCommand { clobber: false };
    let loaded = |proven_tip, committed_tip| {
        command.handle(DeployEvent::Loaded { proven_tip, committed_tip })
    };
    assert!(matches!(
        loaded(7, 7),
        DeployStep::CreateAccount(options) if options == account_file_options(false)
    ));
    assert!(matches!(
        loaded(6, 7),
        DeployStep::StopWriter(Err(error))
            if error == "sync all committed block proofs before deploying a fee collector"
    ));
    let clobber = DeployFeeCollectorCommand { clobber: true };
    assert!(matches!(
        clobber.handle(DeployEvent::Loaded { proven_tip: 7, committed_tip: 7 }),
        DeployStep::CreateAccount(options) if options.truncate
    ));
}

#[test]
fn a_deployment_ends_by_stopping_the_block_writer() {
    let command = DeployFeeCollectorCommand { clobber: false };
    assert!(matches!(
        command.handle(DeployEvent::LoadFailed("no state".to_string())),
        DeployStep::Fail(error)
            if error.context.as_deref() == Some("failed to load node state")
                && error.cause == "no state"
    ));
    assert!(matches!(command.handle(DeployEvent::AccountSaved(Ok(()))), DeployStep::Deploy));
    assert!(matches!(
        command.handle(DeployEvent::AccountSaved(Err("exists".to_string()))),
        DeployStep::StopWriter(Err(error)) if error == "exists"
    ));
    assert!(matches!(
        command.handle(DeployEvent::Deployed(DeployOutcome::Cancelled)),
        DeployStep::StopWriter(Err(error)) if error == "fee collector deployment cancelled"
    ));
    assert!(matches!(
        command.handle(DeployEvent::Deployed(DeployOutcome::Finished(Ok(())))),
        DeployStep::StopWriter(Ok(()))
    ));
    assert!(matches!(
        command.handle(DeployEvent::Deployed(DeployOutcome::Finished(Err("late".to_string())))),
        DeployStep::StopWriter(Err(error)) if error == "late"
    ));
}

#[test]
fn an_account_file_is_replaced_only_on_request() {
    let kept = account_file_options(false);
    assert!(kept.create_new && !kept.create && !kept.truncate && kept.write);
    assert_eq!(kept.mode, 0o600);
    let clobbered = account_file_options(true);
    assert!(!clobbered.create_new && clobbered.create && clobbered.truncate && clobbered.write);
    assert_eq!(clobbered.mode, 0o600);
}

#[test]
fn the_genesis_block_comes_from_the_configured_source() {
    let file = read_bootstrap_genesis_block::<u8>(Some("genesis.dat".to_string()), None);
    assert!(matches!(file, GenesisSource::File(path) if path == "genesis.dat"));
    let network = read_bootstrap_genesis_block(None, Some(3));
    assert!(matches!(network, GenesisSource::Network(3)));
}

#[test]
fn bootstrap_goes_through_its_steps() {
    let command = BootstrapCommand { data_directory: "/data".to_string() };
    let mut step = BootstrapStep::EnsureEmptyDirectory;
    let mut seen = vec![step];
    while step != BootstrapStep::Complete {
        step = command.handle(step, Ok(())).expect("a step which succeeds");
        seen.push(step);
    }
    assert_eq!(
        seen,
        vec![
            BootstrapStep::EnsureEmptyDirectory,
            BootstrapStep::ReadGenesisBlock,
            BootstrapStep::BootstrapState,
            BootstrapStep::CreateCollectionAccount,
            BootstrapStep::Complete,
        ]
    );
    let failed = command
        .handle(BootstrapStep::ReadGenesisBlock, Err("no file".to_string()))
        .unwrap_err();
    assert_eq!(failed.context, None);
    assert_eq!(failed.cause, "no file");
    let failed = command
        .handle(BootstrapStep::CreateCollectionAccount, Err("exists".to_string()))
        .unwrap_err();
    assert_eq!(
        failed.context.as_deref(),
        Some("failed to create the batch builder collection account")
    );
}

#[test]
fn migration_skips_an_allowlist_which_is_not_there() {
    let command = MigrateCommand { data_directory: "/data".to_string() };
    let mut step = MigrateStep::LoadDirectory;
    step = command.handle(step, MigrateOutcome::Done).unwrap();
    assert_eq!(step, MigrateStep::MigrateStore);
    step = command.handle(step, MigrateOutcome::Done).unwrap();
    assert_eq!(step, MigrateStep::FindAllowlist);
    let without = command.handle(step, MigrateOutcome::AllowlistExists(false)).unwrap();
    assert_eq!(without, MigrateStep::Complete);
    let with = command.handle(step, MigrateOutcome::AllowlistExists(true)).unwrap();
    assert_eq!(with, MigrateStep::MigrateAllowlist);
    assert_eq!(command.handle(with, MigrateOutcome::Done).unwrap(), MigrateStep::Complete);
}

#[test]
fn a_failed_migration_says_where_it_failed() {
    let command = MigrateCommand { data_directory: "/data".to_string() };
    for (step, context) in [
        (MigrateStep::LoadDirectory, "failed to load data directory at /data"),
        (MigrateStep::MigrateStore, "failed to apply store database migrations"),
        (MigrateStep::FindAllowlist, "failed to check account allowlist database"),
        (MigrateStep::MigrateAllowlist, "failed to apply account allowlist migrations"),
    ] {
        let failed =
            command.handle(step, MigrateOutcome::Failed("boom".to_string())).unwrap_err();
        assert_eq!(failed.context.as_deref(), Some(context));
        assert_eq!(failed.cause, "boom");
    }
}
