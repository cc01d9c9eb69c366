use miden_services::clock::{now_micros, reading_to_micros, to_micros, to_seconds, Elapsed};
use miden_services::monitor::helpers::{format_timestamp, truncate};
use miden_services::monitor::note_transport::{
    status_from_health,
    status_from_health_at,
    NoteTransportService,
    Url,
};
use miden_services::monitor::service_status::{
    current_unix_timestamp_secs,
    BlockProducerStatus,
    BlockProducerStatusDetails,
    CounterTrackingDetails,
    ExplorerStatusDetails,
    IncrementDetails,
    MempoolStats,
    NetworkStatus,
    NoteTransportStatusDetails,
    PendingLatencyDetails,
    ProofType,
    ProxyStatus,
    ProxyWorkerStatus,
    RemoteProverStatusDetails,
    RpcStatus,
    RpcStatusDetails,
    ServiceDetails,
    ServiceStatus,
    Status,
    ValidatorStatusDetails,
    WorkerHealthStatus,
    WorkerStatusDetails,
};
use miden_services::monitor::view::{
    explorer_lag_warning,
    find_rpc_chain_tip,
    footer,
    metrics_class,
    service_card,
    snapshot,
    snapshot_at,
    ServerState,
};
use miden_services::text::{to_decimal, to_signed_decimal};

// TRUNCATION
// ================================================================================================

#[test]
fn truncate_short_string_is_returned_verbatim() {
    assert_eq!(truncate("abc", 10), "abc");
}

#[test]
fn truncate_at_boundary_takes_prefix() {
    assert_eq!(truncate("abcdef", 3), "abc");
}

#[test]
fn truncate_snaps_back_to_char_boundary() {
    // 'é' is 2 bytes (0xC3 0xA9). Asking for 4 bytes lands inside the second 'é'.
    let value = "abéé";
    let out = truncate(value, 4);
    assert_eq!(out, "abé");
    assert!(value.is_char_boundary(out.len()));
}

#[test]
fn truncate_to_nothing() {
    assert_eq!(truncate("é", 1), "");
    assert_eq!(truncate("", 0), "");
    assert_eq!(truncate("a✓b", 4), "a✓");
}

// TIMESTAMPS
// ================================================================================================

#[test]
fn format_timestamp_zero_renders_dash() {
    assert_eq!(format_timestamp(0), "-");
}

#[test]
fn format_timestamp_renders_utc() {
    // 2021-01-01T00:00:00Z
    assert_eq!(format_timestamp(1_609_459_200), "2021-01-01 00:00:00 UTC");
}

#[test]
fn format_timestamp_unrepresentable_renders_dash() {
    assert_eq!(format_timestamp(u64::MAX), "-");
}

#[test]
fn format_timestamp_knows_the_calendar() {
    for (timestamp, expected) in [
        (1, "1970-01-01 00:00:01 UTC"),
        (951_782_400, "2000-02-29 00:00:00 UTC"),
        (951_868_799, "2000-02-29 23:59:59 UTC"),
        (951_868_800, "2000-03-01 00:00:00 UTC"),
        (1_709_164_800, "2024-02-29 00:00:00 UTC"),
        (4_107_542_399, "2100-02-28 23:59:59 UTC"),
        (4_107_542_400, "2100-03-01 00:00:00 UTC"),
        (1_735_689_599, "2024-12-31 23:59:59 UTC"),
        (253_402_300_799, "9999-12-31 23:59:59 UTC"),
        (253_402_300_800, "-"),
    ] {
        assert_eq!(format_timestamp(timestamp), expected);
    }
}

#[test]
fn numbers_render_in_decimal() {
    for n in [0, 7, 10, 99, 100, u64::MAX] {
        assert_eq!(to_decimal(n), n.to_string());
    }
    for n in [0, -1, 42, i32::MIN, i32::MAX] {
        assert_eq!(to_signed_decimal(n), n.to_string());
    }
}

// CLOCK
// ================================================================================================

#[test]
fn clock_readings_are_converted() {
    assert_eq!(to_micros(Elapsed { seconds: 2, nanos: 3_999 }), Ok(2_000_003));
    let largest = Elapsed { seconds: 9_223_372_036_854, nanos: 775_807_999 };
    assert_eq!(to_micros(largest), Ok(i64::MAX));
    assert!(to_micros(Elapsed { seconds: u64::MAX, nanos: 0 }).is_err());
    assert_eq!(reading_to_micros(Ok(Elapsed { seconds: 2, nanos: 3_999 })), Ok(2_000_003));
    assert_eq!(
        reading_to_micros(Ok(Elapsed { seconds: u64::MAX, nanos: 0 })),
        Err("out of range integral type conversion attempted".to_string())
    );
    assert_eq!(
        reading_to_micros(Err("before the epoch".to_string())),
        Err("before the epoch".to_string())
    );
    assert_eq!(to_seconds(Ok(Elapsed { seconds: 5, nanos: 999_999_999 })), 5);
    assert_eq!(to_seconds(Err("before the epoch".to_string())), 0);
    // The clock is past 2020.
    assert!(now_micros().unwrap() > 1_577_836_800_000_000);
    assert!(current_unix_timestamp_secs() > 1_577_836_800);
}

// SERVICE STATUS
// ================================================================================================

#[test]
fn a_status_has_the_time_it_was_given() {
    let parts = |service: ServiceStatus| {
        (service.name, service.status, service.last_checked, service.error)
    };
    let healthy = ServiceStatus::healthy_at("a", ServiceDetails::Error, 7);
    assert_eq!(parts(healthy), ("a".to_string(), Status::Healthy, 7, None));
    let unknown = ServiceStatus::unknown_at("b", ServiceDetails::Error, 8);
    assert_eq!(parts(unknown), ("b".to_string(), Status::Unknown, 8, None));
    let unhealthy = ServiceStatus::unhealthy_at("c", "", ServiceDetails::Error, 9);
    let expected = ("c".to_string(), Status::Unhealthy, 9, Some(String::new()));
    assert_eq!(parts(unhealthy), expected);
    let error = ServiceStatus::error_at("c", "", 9);
    assert!(matches!(error.details, ServiceDetails::Error));
    assert_eq!(parts(error), expected);

    let past = 1_577_836_800;
    assert!(ServiceStatus::healthy("a", ServiceDetails::Error).last_checked > past);
    assert!(ServiceStatus::unknown("a", ServiceDetails::Error).last_checked > past);
    assert!(ServiceStatus::unhealthy("a", "b", ServiceDetails::Error).last_checked > past);
    assert!(ServiceStatus::error("a", "b").last_checked > past);
}

#[test]
fn a_check_has_the_time_it_was_made_at() {
    let url = Url::parse("http://nt.example").unwrap();
    let service = NoteTransportService::new(url, 1, 2);
    let initial = service.initial_status_at(5);
    assert_eq!((initial.status, initial.last_checked), (Status::Unknown, 5));
    let checked = service.check_at(Ok(1), 6);
    assert_eq!((checked.status, checked.last_checked), (Status::Healthy, 6));
    let failed = service.check_at(Err("down".to_string()), 7);
    assert_eq!((failed.status, failed.last_checked), (Status::Unhealthy, 7));
    assert_eq!(failed.error.as_deref(), Some("health check failed: down"));
    let details = NoteTransportStatusDetails { url: "http://nt.example/".to_string() };
    let stopped = status_from_health_at("name", details, Ok(2), 8);
    assert_eq!((stopped.name.as_str(), stopped.last_checked), ("name", 8));
    assert_eq!(stopped.error.as_deref(), Some("service is not serving: 2"));
}

#[test]
fn block_producer_status_without_mempool_stats_does_not_panic() {
    let reported = BlockProducerStatus {
        version: "1.0.0".to_string(),
        status: "HEALTHY".to_string(),
        chain_tip: 7,
        mempool_stats: None,
    };
    let details = BlockProducerStatusDetails::from(reported);
    assert!(details.mempool.is_none());
    assert_eq!(details.status, Status::Healthy);
    assert_eq!(details.chain_tip, 7);
}

#[test]
fn worker_status_with_unknown_discriminant_degrades_to_unknown() {
    let reported = ProxyWorkerStatus {
        name: "worker-1".to_string(),
        version: "1.0".to_string(),
        status: 99,
    };
    let details = WorkerStatusDetails::from(reported);
    assert_eq!(details.status, Status::Unknown);
    assert_eq!(details.name, "worker-1");
}

#[test]
fn proxy_status_with_unknown_proof_type_degrades_to_unknown() {
    let reported = ProxyStatus {
        version: "1.0".to_string(),
        supported_proof_type: 99,
        workers: vec![ProxyWorkerStatus {
            name: "worker-1".to_string(),
            version: "1.0".to_string(),
            status: WorkerHealthStatus::Healthy as i32,
        }],
    };
    let details = RemoteProverStatusDetails::from_proxy_status(reported, "url".to_string());
    assert!(matches!(details.supported_proof_type, ProofType::Unknown));
    assert_eq!(details.workers.len(), 1);
    assert_eq!(details.workers[0].status, Status::Healthy);
}

#[test]
fn reported_words_map_to_a_status() {
    for (word, expected) in [
        ("HEALTHY", Status::Healthy),
        ("connected", Status::Healthy),
        ("UNHEALTHY", Status::Unhealthy),
        ("disconnected", Status::Unhealthy),
        ("healthy", Status::Unknown),
        ("", Status::Unknown),
    ] {
        assert_eq!(Status::from(word.to_string()), expected);
    }
    assert_eq!(Status::from(WorkerHealthStatus::Unknown), Status::Unknown);
    assert_eq!(Status::from(WorkerHealthStatus::Unhealthy), Status::Unhealthy);
}

#[test]
fn discriminants_map_to_proof_types_and_worker_health() {
    assert_eq!(ProofType::from_discriminant(0), ProofType::Transaction);
    assert_eq!(ProofType::from_discriminant(1), ProofType::Batch);
    assert_eq!(ProofType::from_discriminant(2), ProofType::Block);
    assert_eq!(ProofType::from_discriminant(-1), ProofType::Unknown);
    for health in
        [WorkerHealthStatus::Unknown, WorkerHealthStatus::Healthy, WorkerHealthStatus::Unhealthy]
    {
        assert_eq!(WorkerHealthStatus::from_discriminant(health as i32), Some(health));
    }
    assert_eq!(WorkerHealthStatus::from_discriminant(3), None);
}

#[test]
fn rpc_status_keeps_what_the_node_reports() {
    let reported = RpcStatus {
        version: "1.2.3".to_string(),
        genesis_commitment: Some("0xabcdef".to_string()),
        chain_tip: 42,
        block_producer: Some(BlockProducerStatus {
            version: "1.2.4".to_string(),
            status: "disconnected".to_string(),
            chain_tip: 41,
            mempool_stats: Some(MempoolStats {
                uncommitted_transactions: 4,
                unbatched_transactions: 1,
                proposed_batches: 2,
                proven_batches: 3,
            }),
        }),
    };
    let details = RpcStatusDetails::from_rpc_status(reported, "https://rpc.example".to_string());
    assert_eq!(details.url, "https://rpc.example");
    assert_eq!(details.version, "1.2.3");
    assert_eq!(details.genesis_commitment.as_deref(), Some("0xabcdef"));
    assert_eq!(details.chain_tip, 42);
    let producer = details.block_producer_status.expect("the block producer was reported");
    assert_eq!(producer.status, Status::Unhealthy);
    let mempool = producer.mempool.expect("the mempool was reported");
    assert_eq!(mempool.uncommitted_transactions, 4);
    assert_eq!(mempool.proven_batches, 3);
}

#[test]
fn service_statuses_are_built_with_the_current_time() {
    let before = current_unix_timestamp_secs();
    let healthy = ServiceStatus::healthy("rpc", ServiceDetails::Error);
    assert_eq!(healthy.status, Status::Healthy);
    assert!(healthy.last_checked >= before);
    assert!(healthy.error.is_none());
    let unhealthy = ServiceStatus::unhealthy("rpc", "boom", ServiceDetails::Error);
    assert_eq!(unhealthy.status, Status::Unhealthy);
    assert_eq!(unhealthy.error.as_deref(), Some("boom"));
    let unknown = ServiceStatus::unknown("rpc", ServiceDetails::Error);
    assert_eq!(unknown.status, Status::Unknown);
    let error = ServiceStatus::error("rpc", "down").with_last_checked(7);
    assert_eq!(error.last_checked, 7);
    assert_eq!(error.name, "rpc");
    assert_eq!(error.error.as_deref(), Some("down"));
    assert!(matches!(error.details, ServiceDetails::Error));
}

#[test]
fn details_default_to_nothing() {
    assert_eq!(IncrementDetails::default().success_count, 0);
    assert_eq!(PendingLatencyDetails::default().target_value, 0);
    assert_eq!(CounterTrackingDetails::default().current_value, None);
    assert_eq!(ExplorerStatusDetails::default().block_commitment, "");
    assert_eq!(NoteTransportStatusDetails::default().url, "");
    assert_eq!(ValidatorStatusDetails::default().version, "");
}

// NOTE TRANSPORT
// ================================================================================================

#[test]
fn only_serving_health_response_is_healthy() {
    for (response, expected) in [
        (1, Status::Healthy),
        (2, Status::Unhealthy),
        (0, Status::Unhealthy),
        (3, Status::Unhealthy),
        (99, Status::Unhealthy),
    ] {
        let status = status_from_health(
            "Note Transport",
            NoteTransportStatusDetails { url: "https://nt.example".to_string() },
            Ok(response),
        );
        assert_eq!(status.status, expected);
        assert_eq!(status.error.is_none(), expected == Status::Healthy);
        let ServiceDetails::NoteTransportStatus(details) = status.details else {
            panic!("expected note transport details");
        };
        assert_eq!(details.url, "https://nt.example");
    }
}

#[test]
fn failed_health_response_is_unhealthy_and_preserves_url() {
    let status = status_from_health(
        "Note Transport",
        NoteTransportStatusDetails { url: "https://nt.example".to_string() },
        Err("status: Unavailable, message: \"service unavailable\"".to_string()),
    );
    assert_eq!(status.status, Status::Unhealthy);
    assert!(status.error.as_deref().is_some_and(|error| {
        error.contains("health check failed") && error.contains("service unavailable")
    }));
    let ServiceDetails::NoteTransportStatus(details) = status.details else {
        panic!("expected note transport details");
    };
    assert_eq!(details.url, "https://nt.example");
}

#[test]
fn a_service_which_does_not_serve_says_so() {
    let details = || NoteTransportStatusDetails { url: "https://nt.example".to_string() };
    let status = status_from_health("Note Transport", details(), Ok(-2));
    assert_eq!(status.error.as_deref(), Some("service is not serving: -2"));
}

#[test]
fn the_note_transport_check_reports_its_url() {
    let url = Url::parse("HTTPS://NT.example").expect("valid URL");
    assert_eq!(url.text, "https://nt.example/");
    let service = NoteTransportService::new(url, 1_000, 5_000);
    assert_eq!(service.name(), "Note Transport");
    assert_eq!(service.interval(), 1_000);
    assert!(service.channel.tls);
    assert_eq!(service.channel.endpoint, "https://nt.example/");
    let initial = service.initial_status();
    assert_eq!(initial.status, Status::Unknown);
    let checked = service.check(Ok(1));
    assert_eq!(checked.status, Status::Healthy);
    for status in [initial, checked] {
        let ServiceDetails::NoteTransportStatus(details) = status.details else {
            panic!("expected note transport details");
        };
        assert_eq!(details.url, "https://nt.example/");
    }

    let plain = NoteTransportService::new(Url::parse("http://nt.example").unwrap(), 1, 1);
    assert!(!plain.channel.tls);
    assert_eq!(plain.check(Err("down".to_string())).status, Status::Unhealthy);
    assert!(Url::parse("not a url").is_none());
}

// DASHBOARD
// ================================================================================================

fn rpc(chain_tip: u32) -> ServiceDetails {
    ServiceDetails::RpcStatus(RpcStatusDetails {
        url: "https://rpc.example".to_string(),
        version: "1.2.3".to_string(),
        genesis_commitment: None,
        chain_tip,
        block_producer_status: None,
    })
}

fn service(status: Status, details: ServiceDetails) -> ServiceStatus {
    ServiceStatus {
        name: "service".to_string(),
        status,
        last_checked: 1_609_459_200,
        error: None,
        details,
    }
}

fn network(services: Vec<ServiceStatus>, monitor_version: &str) -> NetworkStatus {
    let state = ServerState {
        services,
        monitor_version: monitor_version.to_string(),
        network_name: "Test".to_string(),
    };
    snapshot_at(state, 1_609_459_200)
}

#[test]
fn the_chain_tip_is_that_of_the_first_rpc_service() {
    assert_eq!(find_rpc_chain_tip(&vec![]), None);
    let services = vec![
        service(Status::Healthy, ServiceDetails::Error),
        service(Status::Unhealthy, rpc(42)),
        service(Status::Healthy, rpc(43)),
    ];
    assert_eq!(find_rpc_chain_tip(&services), Some(42));
}

#[test]
fn explorer_lag_warning_appears_when_delta_exceeds_tolerance() {
    // The RPC chain tip is 42 and the explorer is at 0, well past the lag tolerance.
    let explorer = ExplorerStatusDetails::default();
    let services = vec![
        service(Status::Healthy, rpc(42)),
        service(Status::Healthy, ServiceDetails::ExplorerStatus(explorer.clone())),
    ];
    let warning = explorer_lag_warning(explorer.block_number, find_rpc_chain_tip(&services))
        .expect("the explorer lags behind");
    assert!(warning.contains("Explorer tip is"));
    assert!(warning.contains("behind"));
    assert_eq!(warning, "Explorer tip is 42 blocks behind");

    assert_eq!(explorer_lag_warning(22, Some(42)), None);
    assert_eq!(explorer_lag_warning(21, Some(42)).unwrap(), "Explorer tip is 21 blocks behind");
    assert_eq!(explorer_lag_warning(43, Some(42)), None);
    assert_eq!(explorer_lag_warning(0, None), None);
}

#[test]
fn a_card_shows_the_status_of_its_service() {
    let card = service_card(&service(Status::Healthy, ServiceDetails::Error));
    assert_eq!(card.card_class, "service-card healthy");
    assert_eq!(card.badge_class, "service-status healthy");
    assert_eq!((card.status_icon, card.status_text), ("✓", "HEALTHY"));
    assert_eq!(card.last_checked, "2021-01-01 00:00:00 UTC");
    let card = service_card(&service(Status::Unhealthy, ServiceDetails::Error));
    assert_eq!(card.card_class, "service-card unhealthy");
    assert_eq!((card.status_icon, card.status_text), ("✗", "UNHEALTHY"));
    let card = service_card(&service(Status::Unknown, ServiceDetails::Error));
    assert_eq!(card.card_class, "service-card unhealthy");
    assert_eq!(card.badge_class, "service-status unknown");
    assert_eq!((card.status_icon, card.status_text), ("?", "UNKNOWN"));
    assert_eq!(card.name, "service");
    assert_eq!(card.error, None);
    for status in [Status::Healthy, Status::Unhealthy, Status::Unknown] {
        let mut failed = service(status, ServiceDetails::Error);
        failed.error = Some("boom".to_string());
        assert_eq!(service_card(&failed).error.as_deref(), Some("boom"));
    }
    assert_eq!(metrics_class(true), "test-metrics healthy");
    assert_eq!(metrics_class(false), "test-metrics unhealthy");
}

#[test]
fn the_footer_sums_the_network_up() {
    let healthy = || service(Status::Healthy, ServiceDetails::Error);
    let unknown = || service(Status::Unknown, ServiceDetails::Error);

    let all = footer(&network(vec![healthy(), healthy()], "0.1"));
    assert_eq!(all.overall, "All Systems Operational");
    assert_eq!(all.overall_class, "footer-value healthy");
    assert_eq!(all.version.as_deref(), Some("Monitor v0.1"));
    assert_eq!(all.services, "2 Services");

    let some = footer(&network(vec![healthy(), unknown(), healthy()], ""));
    assert_eq!(some.overall, "2/3 Services Healthy");
    assert_eq!(some.overall_class, "footer-value unhealthy");
    assert_eq!(some.version, None);

    let none = footer(&network(vec![], ""));
    assert_eq!(none.overall, "0/0 Services Healthy");
    assert_eq!(none.overall_class, "footer-value unhealthy");
}

#[test]
fn a_snapshot_keeps_the_state() {
    let state = ServerState {
        services: vec![service(Status::Healthy, rpc(1))],
        monitor_version: "0.1".to_string(),
        network_name: "Test".to_string(),
    };
    let before = current_unix_timestamp_secs();
    let taken = snapshot(state);
    assert_eq!(taken.services.len(), 1);
    assert_eq!(taken.monitor_version, "0.1");
    assert_eq!(taken.network_name, "Test");
    assert!(taken.last_updated >= before);
}
