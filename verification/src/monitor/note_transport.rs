//! The check of the note transport service.

use vstd::prelude::*;

use crate::clock;
use crate::monitor::service_status::current_unix_timestamp_secs;
use crate::monitor::service_status::NoteTransportStatusDetails;
use crate::monitor::service_status::ServiceDetails;
use crate::monitor::service_status::ServiceStatus;
use crate::monitor::service_status::ServiceStatusView;
use crate::monitor::service_status::Status;
use crate::text;

verus! {

/// The discriminant with which a service reports that it serves.
pub const SERVING: i32 = 1;

// URLS
// ================================================================================================

/// What a URL is: its normalized text and its scheme.
pub struct UrlView {
    pub text: Seq<char>,
    pub scheme: Seq<char>,
}

/// What the `url` crate parses out of a text, `None` for a text which is not a URL.
pub uninterp spec fn url_of_text(input: Seq<char>) -> Option<UrlView>;

/// A parsed URL.
#[derive(Debug, Clone)]
pub struct Url {
    pub text: String,
    pub scheme: String,
}

impl View for Url {
    type V = UrlView;

    open spec fn view(&self) -> UrlView {
        UrlView { text: self.text@, scheme: self.scheme@ }
    }
}

/// Parses a URL.
///
/// Calls `url::Url::parse`, `url::Url::to_string` and `url::Url::scheme`. The contract names what
/// is parsed.
#[verifier::external_body]
fn parse_url(input: &str) -> (parsed: Option<Url>)
    ensures
        parsed is Some <==> url_of_text(input@) is Some,
        parsed matches Some(parsed) ==> url_of_text(input@) == Some(parsed@),
{
    let parsed = url::Url::parse(input).ok()?;
    Some(Url { text: parsed.to_string(), scheme: parsed.scheme().to_string() })
}

impl Url {
    /// Parses a URL. Returns `None` for a text which is not one.
    pub fn parse(input: &str) -> (parsed: Option<Url>)
        ensures
            parsed is Some <==> url_of_text(input@) is Some,
            parsed matches Some(parsed) ==> url_of_text(input@) == Some(parsed@),
    {
        parse_url(input)
    }
}

// CHANNEL
// ================================================================================================

/// How the service is reached.
#[derive(Debug)]
pub struct ChannelPlan {
    pub endpoint: String,
    /// How long one request may take, in nanoseconds.
    pub timeout: u64,
    pub tls: bool,
}

/// Plans a channel for the given URL, enabling TLS for `https` schemes.
pub fn create_channel(url: &Url, timeout: u64) -> (channel: ChannelPlan)
    ensures
        channel.endpoint@ == url@.text,
        channel.timeout == timeout,
        channel.tls == (url@.scheme == "https"@),
{
    ChannelPlan {
        endpoint: url.text.clone(),
        timeout,
        tls: text::is_text(&url.scheme, "https"),
    }
}

// NOTE TRANSPORT STATUS
// ================================================================================================

/// Checks the note transport service.
#[derive(Debug)]
pub struct NoteTransportService {
    pub url: Url,
    /// The time between two checks, in nanoseconds.
    pub interval: u64,
    /// How the service is reached.
    pub channel: ChannelPlan,
}

impl NoteTransportService {
    /// Creates a check of the service at `url`.
    pub fn new(url: Url, interval: u64, timeout: u64) -> (service: NoteTransportService)
        ensures
            service.url == url,
            service.interval == interval,
            service.channel.endpoint@ == url@.text,
            service.channel.timeout == timeout,
            service.channel.tls == (url@.scheme == "https"@),
    {
        let channel = create_channel(&url, timeout);
        NoteTransportService { url, interval, channel }
    }

    /// The name of the service on the dashboard.
    pub fn name(&self) -> (name: &'static str)
        ensures
            name@ == "Note Transport"@,
    {
        "Note Transport"
    }

    /// The time between two checks, in nanoseconds.
    pub fn interval(&self) -> (interval: u64)
        ensures
            interval == self.interval,
    {
        self.interval
    }

    /// The status before the first check, with the current timestamp.
    pub fn initial_status(&self) -> (service: ServiceStatus)
        ensures
            exists|elapsed: Result<clock::Elapsed, String>|
                self.is_initial_status(service, #[trigger] clock::seconds_of(elapsed)),
    {
        self.initial_status_at(current_unix_timestamp_secs())
    }

    /// Whether `service` is the status before the first check, at `now`.
    pub open spec fn is_initial_status(self, service: ServiceStatus, now: u64) -> bool {
        &&& service.details is NoteTransportStatus
        &&& service.details->NoteTransportStatus_0.url@ == self.url@.text
        &&& service@ == ServiceStatusView::unknown("Note Transport"@, service.details, now)
    }

    /// The status before the first check, with the given timestamp.
    pub fn initial_status_at(&self, now: u64) -> (service: ServiceStatus)
        ensures
            self.is_initial_status(service, now),
    {
        ServiceStatus::unknown_at(
            self.name(),
            ServiceDetails::NoteTransportStatus(
                NoteTransportStatusDetails { url: self.url.text.clone() },
            ),
            now,
        )
    }

    /// Concludes the status from what the health check answered: the reported discriminant, or the
    /// text of the failure. The status has the current timestamp.
    pub fn check(&self, health: Result<i32, String>) -> (service: ServiceStatus)
        ensures
            exists|elapsed: Result<clock::Elapsed, String>|
                self.is_checked_status(service, health, #[trigger] clock::seconds_of(elapsed)),
    {
        self.check_at(health, current_unix_timestamp_secs())
    }

    /// Whether `service` is the status which the answer to the health check shows, at `now`.
    pub open spec fn is_checked_status(
        self,
        service: ServiceStatus,
        health: Result<i32, String>,
        now: u64,
    ) -> bool {
        &&& service.details is NoteTransportStatus
        &&& service.details->NoteTransportStatus_0.url@ == self.url@.text
        &&& service@ == checked_status(
            "Note Transport"@,
            service.details->NoteTransportStatus_0,
            health,
            now,
        )
    }

    /// Concludes the status from what the health check answered, with the given timestamp.
    pub fn check_at(&self, health: Result<i32, String>, now: u64) -> (service: ServiceStatus)
        ensures
            self.is_checked_status(service, health, now),
    {
        let details = NoteTransportStatusDetails { url: self.url.text.clone() };
        status_from_health_at(self.name(), details, health, now)
    }
}

/// The health which an answer to the health check shows: only a service which serves is healthy.
pub open spec fn status_of_health(health: Result<i32, String>) -> Status {
    if health == Ok::<i32, String>(SERVING) {
        Status::Healthy
    } else {
        Status::Unhealthy
    }
}

/// What is wrong with a service, by its answer to the health check.
pub open spec fn error_of_health(health: Result<i32, String>) -> Option<Seq<char>> {
    match health {
        Ok(status) => if status == SERVING {
            None
        } else {
            Some("service is not serving: "@ + text::signed_decimal(status as int))
        },
        Err(error) => Some("health check failed: "@ + error@),
    }
}

/// The status which the answer to the health check shows, at `now`.
pub open spec fn checked_status(
    name: Seq<char>,
    details: NoteTransportStatusDetails,
    health: Result<i32, String>,
    now: u64,
) -> ServiceStatusView {
    ServiceStatusView {
        name,
        status: status_of_health(health),
        last_checked: now,
        error: error_of_health(health),
        details: ServiceDetails::NoteTransportStatus(details),
    }
}

/// Builds the service status from the health response, with the current timestamp.
pub fn status_from_health(
    service_name: &str,
    details: NoteTransportStatusDetails,
    health: Result<i32, String>,
) -> (service: ServiceStatus)
    ensures
        exists|elapsed: Result<clock::Elapsed, String>|
            service@ == checked_status(
                service_name@,
                details,
                health,
                #[trigger] clock::seconds_of(elapsed),
            ),
{
    status_from_health_at(service_name, details, health, current_unix_timestamp_secs())
}

/// Builds the service status from the health response, with the given timestamp.
pub fn status_from_health_at(
    service_name: &str,
    details: NoteTransportStatusDetails,
    health: Result<i32, String>,
    now: u64,
) -> (service: ServiceStatus)
    ensures
        service@ == checked_status(service_name@, details, health, now),
{
    let error = match &health {
        Ok(status) => {
            if *status == SERVING {
                return ServiceStatus::healthy_at(
                    service_name,
                    ServiceDetails::NoteTransportStatus(details),
                    now,
                );
            }
            let mut error = "service is not serving: ".to_owned();
            error.append(text::to_signed_decimal(*status).as_str());
            error
        },
        Err(message) => {
            let mut error = "health check failed: ".to_owned();
            error.append(message.as_str());
            error
        },
    };
    ServiceStatus::unhealthy_at(
        service_name,
        error.as_str(),
        ServiceDetails::NoteTransportStatus(details),
        now,
    )
}

/// A service is healthy exactly when there is nothing wrong with it.
pub proof fn law_healthy_without_error(health: Result<i32, String>)
    ensures
        status_of_health(health) == Status::Healthy <==> error_of_health(health) is None,
        status_of_health(health) != Status::Unknown,
{
}

/// A service is healthy exactly when it answers that it serves, which is one. Another answer is shown
/// with its number, and a failure with its text. The name, the time and the details stay as they are.
pub proof fn law_service_is_healthy_when_it_serves(
    name: Seq<char>,
    details: NoteTransportStatusDetails,
    health: Result<i32, String>,
    now: u64,
)
    ensures
        ({
            let checked = checked_status(name, details, health, now);
            &&& checked.status == Status::Healthy <==> health == Ok::<i32, String>(1)
            &&& checked.status == Status::Unhealthy <==> health != Ok::<i32, String>(1)
            &&& health == Ok::<i32, String>(1) ==> checked.error is None
            &&& health matches Ok(reported) ==> reported != 1 ==> checked.error == Some(
                "service is not serving: "@ + text::signed_decimal(reported as int),
            )
            &&& health matches Err(failure) ==> checked.error == Some(
                "health check failed: "@ + failure@,
            )
            &&& checked.name == name
            &&& checked.last_checked == now
            &&& checked.details == ServiceDetails::NoteTransportStatus(details)
        }),
{
}

/// A check names the service and its URL. Before the first one nothing is known of the service, and
/// afterwards it is healthy exactly when it serves.
pub proof fn law_check_names_the_service(
    transport: NoteTransportService,
    service: ServiceStatus,
    health: Result<i32, String>,
    now: u64,
)
    ensures
        transport.is_initial_status(service, now) ==> {
            &&& service.name@ == "Note Transport"@
            &&& service.status == Status::Unknown
            &&& service.error is None
            &&& service.last_checked == now
            &&& service.details matches ServiceDetails::NoteTransportStatus(details)
                && details.url@ == transport.url.text@
        },
        transport.is_checked_status(service, health, now) ==> {
            &&& service.name@ == "Note Transport"@
            &&& service.status == Status::Healthy <==> health == Ok::<i32, String>(1)
            &&& service.error is None <==> health == Ok::<i32, String>(1)
            &&& service.last_checked == now
            &&& service.details matches ServiceDetails::NoteTransportStatus(details)
                && details.url@ == transport.url.text@
        },
{
}

/// A URL is seen by its text and its scheme.
pub proof fn law_url_is_seen_whole(url: Url)
    ensures
        url@.text == url.text@,
        url@.scheme == url.scheme@,
{
}

} // verus!
