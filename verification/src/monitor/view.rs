//! What the dashboard shows. The markup around it is written elsewhere.

use vstd::prelude::*;

use crate::clock;
use crate::monitor::helpers::format_timestamp;
use crate::monitor::helpers;
use crate::monitor::service_status;
use crate::monitor::service_status::current_unix_timestamp_secs;
use crate::monitor::service_status::NetworkStatus;
use crate::monitor::service_status::ServiceDetails;
use crate::monitor::service_status::ServiceStatus;
use crate::monitor::service_status::Status;
use crate::text;

verus! {

// SNAPSHOT
// ================================================================================================

/// The latest status of every service, and what the monitor calls itself.
#[derive(Debug)]
pub struct ServerState {
    pub services: Vec<ServiceStatus>,
    pub monitor_version: String,
    pub network_name: String,
}

/// Snapshots every service into a single `NetworkStatus` value, with the current timestamp.
pub fn snapshot(state: ServerState) -> (snapshot: NetworkStatus)
    ensures
        exists|elapsed: Result<clock::Elapsed, String>|
            snapshot == (NetworkStatus {
                services: state.services,
                last_updated: #[trigger] clock::seconds_of(elapsed),
                monitor_version: state.monitor_version,
                network_name: state.network_name,
            }),
{
    snapshot_at(state, current_unix_timestamp_secs())
}

/// Snapshots every service at the given time, in seconds since the Unix epoch.
pub fn snapshot_at(state: ServerState, now: u64) -> (snapshot: NetworkStatus)
    ensures
        snapshot == (NetworkStatus {
            services: state.services,
            last_updated: now,
            monitor_version: state.monitor_version,
            network_name: state.network_name,
        }),
{
    NetworkStatus {
        services: state.services,
        last_updated: now,
        monitor_version: state.monitor_version,
        network_name: state.network_name,
    }
}

// CARD CHROME
// ================================================================================================

/// The uniform chrome of a card: its class, the name of the service, the badge with the status, and
/// what is wrong with the service, where something is.
#[derive(Debug)]
pub struct CardChrome {
    pub card_class: &'static str,
    pub name: String,
    pub badge_class: &'static str,
    pub status_icon: &'static str,
    pub status_text: &'static str,
    pub error: Option<String>,
    pub last_checked: String,
}

/// The class of a card.
pub open spec fn card_class_of(status: Status) -> Seq<char> {
    match status {
        Status::Healthy => "service-card healthy"@,
        _ => "service-card unhealthy"@,
    }
}

/// The class of the status badge.
pub open spec fn badge_class_of(status: Status) -> Seq<char> {
    match status {
        Status::Healthy => "service-status healthy"@,
        Status::Unhealthy => "service-status unhealthy"@,
        Status::Unknown => "service-status unknown"@,
    }
}

/// The icon on the status badge.
pub open spec fn status_icon_of(status: Status) -> Seq<char> {
    match status {
        Status::Healthy => "✓"@,
        Status::Unhealthy => "✗"@,
        Status::Unknown => "?"@,
    }
}

/// The text on the status badge.
pub open spec fn status_text_of(status: Status) -> Seq<char> {
    match status {
        Status::Healthy => "HEALTHY"@,
        Status::Unhealthy => "UNHEALTHY"@,
        Status::Unknown => "UNKNOWN"@,
    }
}

/// Whether `rendered` is how a time in seconds since the Unix epoch is shown.
pub open spec fn shows_time(rendered: Seq<char>, timestamp: u64) -> bool {
    if helpers::is_representable(timestamp) {
        exists|time: helpers::CivilTime| #[trigger]
            time.valid() && time.seconds() == timestamp && rendered == time.text()
    } else {
        rendered == "-"@
    }
}

/// The chrome of a service's card.
pub fn service_card(service: &ServiceStatus) -> (chrome: CardChrome)
    ensures
        chrome.card_class@ == card_class_of(service.status),
        chrome.name@ == service.name@,
        chrome.badge_class@ == badge_class_of(service.status),
        chrome.status_icon@ == status_icon_of(service.status),
        chrome.status_text@ == status_text_of(service.status),
        service_status::error_text(chrome.error) == service_status::error_text(service.error),
        shows_time(chrome.last_checked@, service.last_checked),
{
    let card_class = match service.status {
        Status::Healthy => "service-card healthy",
        _ => "service-card unhealthy",
    };
    let (badge_class, status_icon, status_text) = match service.status {
        Status::Healthy => ("service-status healthy", "✓", "HEALTHY"),
        Status::Unhealthy => ("service-status unhealthy", "✗", "UNHEALTHY"),
        Status::Unknown => ("service-status unknown", "?", "UNKNOWN"),
    };
    let error = match &service.error {
        Some(message) => Some(message.clone()),
        None => None,
    };
    CardChrome {
        card_class,
        name: service.name.clone(),
        badge_class,
        status_icon,
        status_text,
        error,
        last_checked: format_timestamp(service.last_checked),
    }
}

/// The class of the metrics on a card.
pub fn metrics_class(healthy: bool) -> (class: &'static str)
    ensures
        class@ == (if healthy {
            "test-metrics healthy"@
        } else {
            "test-metrics unhealthy"@
        }),
{
    if healthy {
        "test-metrics healthy"
    } else {
        "test-metrics unhealthy"
    }
}

// EXPLORER LAG
// ================================================================================================

/// How many blocks the explorer may be behind the RPC service before the dashboard warns. The number
/// is chosen here.
pub const EXPLORER_LAG_TOLERANCE: u64 = 20;

/// How many blocks the explorer is behind the RPC service, zero where no RPC service reports a tip.
pub open spec fn explorer_lag(block_number: u64, rpc_chain_tip: Option<u32>) -> nat {
    match rpc_chain_tip {
        Some(tip) => if tip > block_number {
            (tip - block_number) as nat
        } else {
            0
        },
        None => 0,
    }
}

/// The warning on the explorer's card, when the explorer is further behind than tolerated. Its words
/// are chosen here.
pub fn explorer_lag_warning(block_number: u64, rpc_chain_tip: Option<u32>) -> (warning: Option<
    String,
>)
    ensures
        match warning {
            Some(warning) => explorer_lag(block_number, rpc_chain_tip) > EXPLORER_LAG_TOLERANCE
                && warning@ == "Explorer tip is "@ + text::decimal(
                explorer_lag(block_number, rpc_chain_tip),
            ) + " blocks behind"@,
            None => explorer_lag(block_number, rpc_chain_tip) <= EXPLORER_LAG_TOLERANCE,
        },
{
    let lag: u64 = match rpc_chain_tip {
        Some(tip) => (tip as u64).saturating_sub(block_number),
        None => 0,
    };
    if lag <= EXPLORER_LAG_TOLERANCE {
        return None;
    }
    let mut warning = "Explorer tip is ".to_owned();
    warning.append(text::to_decimal(lag).as_str());
    warning.append(" blocks behind");
    Some(warning)
}

// FOOTER
// ================================================================================================

/// What the footer shows.
#[derive(Debug)]
pub struct Footer {
    pub overall: String,
    pub overall_class: &'static str,
    /// The version of the monitor, where it is known.
    pub version: Option<String>,
    pub services: String,
}

/// How many services are healthy.
pub open spec fn healthy_count(services: Seq<ServiceStatus>) -> nat
    decreases services.len(),
{
    if services.len() == 0 {
        0
    } else if services.last().status == Status::Healthy {
        healthy_count(services.drop_last()) + 1
    } else {
        healthy_count(services.drop_last())
    }
}

/// Whether there are services and all of them are healthy.
pub open spec fn all_healthy(services: Seq<ServiceStatus>) -> bool {
    services.len() > 0 && healthy_count(services) == services.len()
}

/// There are at most as many healthy services as there are services, and as many exactly when every
/// service is healthy.
pub proof fn law_all_counted_when_all_are_healthy(services: Seq<ServiceStatus>)
    ensures
        healthy_count(services) <= services.len(),
        healthy_count(services) == services.len() <==> (forall|i: int|
            0 <= i < services.len() ==> (#[trigger] services[i]).status == Status::Healthy),
    decreases services.len(),
{
    if services.len() > 0 {
        let rest = services.drop_last();
        law_all_counted_when_all_are_healthy(rest);
        assert(services.last() == services[services.len() - 1]);
        if healthy_count(services) == services.len() {
            assert forall|i: int| 0 <= i < services.len() implies (#[trigger] services[i]).status
                == Status::Healthy by {
                if i < rest.len() {
                    assert(rest[i].status == Status::Healthy);
                }
            }
        }
        if forall|i: int|
            0 <= i < services.len() ==> (#[trigger] services[i]).status == Status::Healthy {
            assert forall|i: int| 0 <= i < rest.len() implies (#[trigger] rest[i]).status
                == Status::Healthy by {
                assert(services[i].status == Status::Healthy);
            }
        }
    }
}

/// What the footer says of the network.
pub open spec fn overall_of(services: Seq<ServiceStatus>) -> Seq<char> {
    if all_healthy(services) {
        "All Systems Operational"@
    } else {
        text::decimal(healthy_count(services)) + "/"@ + text::decimal(services.len())
            + " Services Healthy"@
    }
}

/// Sums the network up for the footer.
pub fn footer(snapshot: &NetworkStatus) -> (footer: Footer)
    ensures
        footer.overall@ == overall_of(snapshot.services@),
        footer.overall_class@ == (if all_healthy(snapshot.services@) {
            "footer-value healthy"@
        } else {
            "footer-value unhealthy"@
        }),
        match footer.version {
            Some(version) => snapshot.monitor_version@.len() > 0 && version@ == "Monitor v"@
                + snapshot.monitor_version@,
            None => snapshot.monitor_version@.len() == 0,
        },
        footer.services@ == text::decimal(snapshot.services@.len()) + " Services"@,
{
    let services = &snapshot.services;
    let total: usize = services.len();
    let mut healthy: usize = 0;
    let mut i: usize = 0;
    while i < services.len()
        invariant
            i <= services@.len(),
            healthy == healthy_count(services@.take(i as int)),
            healthy <= i,
        decreases services@.len() - i,
    {
        proof {
            assert(services@.take(i + 1).drop_last() =~= services@.take(i as int));
        }
        if services[i].status == Status::Healthy {
            healthy = healthy + 1;
        }
        i = i + 1;
    }
    assert(services@.take(i as int) =~= services@);

    let operational = total > 0 && healthy == total;
    let overall = if operational {
        "All Systems Operational".to_owned()
    } else {
        let mut overall = text::to_decimal(healthy as u64);
        overall.append("/");
        overall.append(text::to_decimal(total as u64).as_str());
        overall.append(" Services Healthy");
        overall
    };
    let overall_class = if operational {
        "footer-value healthy"
    } else {
        "footer-value unhealthy"
    };
    let version = if snapshot.monitor_version.as_str().is_empty() {
        None
    } else {
        let mut version = "Monitor v".to_owned();
        version.append(snapshot.monitor_version.as_str());
        Some(version)
    };
    let mut counted = text::to_decimal(total as u64);
    counted.append(" Services");
    Footer { overall, overall_class, version, services: counted }
}

// CROSS-SERVICE LOOKUP
// ================================================================================================

/// Whether the service is an RPC service.
pub open spec fn is_rpc(service: ServiceStatus) -> bool {
    service.details is RpcStatus
}

/// The chain tip of the first RPC service.
pub fn find_rpc_chain_tip(services: &Vec<ServiceStatus>) -> (tip: Option<u32>)
    ensures
        match tip {
            Some(tip) => exists|i: int|
                0 <= i < services@.len() && #[trigger] is_rpc(services@[i]) && (forall|k: int|
                    0 <= k < i ==> !#[trigger] is_rpc(services@[k])) && tip
                    == services@[i].details->RpcStatus_0.chain_tip,
            None => forall|k: int| 0 <= k < services@.len() ==> !#[trigger] is_rpc(services@[k]),
        },
{
    let mut i: usize = 0;
    while i < services.len()
        invariant
            i <= services@.len(),
            forall|k: int| 0 <= k < i ==> !#[trigger] is_rpc(services@[k]),
        decreases services@.len() - i,
    {
        if let ServiceDetails::RpcStatus(rpc) = &services[i].details {
            assert(is_rpc(services@[i as int]));
            return Some(rpc.chain_tip);
        }
        i = i + 1;
    }
    None
}

// LAWS OF THE DASHBOARD
// ================================================================================================

/// A card and its badge show a healthy service as such and no other, and the badge tells an unhealthy
/// service from an unknown one.
pub proof fn law_card_shows_the_status(status: Status)
    ensures
        card_class_of(status) == (if status == Status::Healthy {
            "service-card healthy"@
        } else {
            "service-card unhealthy"@
        }),
        status == Status::Healthy ==> badge_class_of(status) == "service-status healthy"@
            && status_icon_of(status) == "✓"@ && status_text_of(status) == "HEALTHY"@,
        status == Status::Unhealthy ==> badge_class_of(status) == "service-status unhealthy"@
            && status_icon_of(status) == "✗"@ && status_text_of(status) == "UNHEALTHY"@,
        status == Status::Unknown ==> badge_class_of(status) == "service-status unknown"@
            && status_icon_of(status) == "?"@ && status_text_of(status) == "UNKNOWN"@,
{
}

/// A time is shown as the one point in UTC which is so many seconds after the epoch. The epoch itself
/// and what is beyond four-digit years are shown as a dash.
pub proof fn law_time_is_shown_in_utc(rendered: Seq<char>, timestamp: u64, time: helpers::CivilTime)
    requires
        shows_time(rendered, timestamp),
    ensures
        timestamp == 0 || timestamp >= 253_402_300_800 ==> rendered == "-"@,
        0 < timestamp < 253_402_300_800 && time.valid() && time.seconds() == timestamp ==> rendered
            == time.text(),
{
    if helpers::is_representable(timestamp) && time.valid() && time.seconds() == timestamp {
        let shown = choose|shown: helpers::CivilTime| #[trigger]
            shown.valid() && shown.seconds() == timestamp && rendered == shown.text();
        helpers::law_seconds_determine_the_time(shown, time);
    }
}

/// The explorer lags by the blocks which the RPC service has beyond it: none without an RPC service,
/// and none where the explorer has as many.
pub proof fn law_explorer_lags_by_the_missing_blocks(block_number: u64, tip: u32)
    ensures
        explorer_lag(block_number, None) == 0,
        tip >= block_number ==> explorer_lag(block_number, Some(tip)) + block_number == tip,
        tip < block_number ==> explorer_lag(block_number, Some(tip)) == 0,
        explorer_lag(block_number, Some(tip)) > EXPLORER_LAG_TOLERANCE <==> tip > block_number + 20,
{
}

/// Each healthy service counts once, and no other.
pub proof fn law_healthy_services_are_counted(services: Seq<ServiceStatus>, service: ServiceStatus)
    ensures
        healthy_count(Seq::empty()) == 0,
        service.status == Status::Healthy ==> healthy_count(services.push(service))
            == healthy_count(services) + 1,
        service.status != Status::Healthy ==> healthy_count(services.push(service))
            == healthy_count(services),
{
    assert(services.push(service).drop_last() =~= services);
}

/// All systems are operational exactly when there are services and every one of them is healthy.
/// Otherwise the footer counts the healthy ones among all.
pub proof fn law_footer_sums_the_services_up(services: Seq<ServiceStatus>)
    ensures
        ({
            let operational = services.len() > 0 && (forall|i: int|
                0 <= i < services.len() ==> (#[trigger] services[i]).status == Status::Healthy);
            &&& all_healthy(services) <==> operational
            &&& operational ==> overall_of(services) == "All Systems Operational"@
            &&& !operational ==> overall_of(services) == text::decimal(healthy_count(services))
                + "/"@ + text::decimal(services.len()) + " Services Healthy"@
        }),
{
    law_all_counted_when_all_are_healthy(services);
}

/// A service is an RPC service by the details it reports, whatever its health.
pub proof fn law_rpc_service_is_told_by_its_details(service: ServiceStatus)
    ensures
        is_rpc(service) <==> (service.details matches ServiceDetails::RpcStatus(_)),
{
}

} // verus!
