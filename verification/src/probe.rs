//! Health over HTTP: which endpoints there are, and how they answer.
//!
//! Readiness and liveness are answered alike, because the signal is the same;
//! whoever polls decides which endpoint to poll.

use crate::health::{CheckView, HealthCheck, HealthChecker, HealthStatus, StatusView};
use vstd::prelude::*;

verus! {

/// The general endpoint.
pub const HEALTH_PATH: &'static str = "/health";

/// The endpoint to poll for whether the service takes traffic.
pub const READINESS_PATH: &'static str = "/readiness";

/// The endpoint to poll for whether the process is functioning.
pub const LIVENESS_PATH: &'static str = "/liveness";

/// The HTTP status code of a service that is up.
pub const OK: u16 = 200;

/// The HTTP status code of a service that is not operational.
pub const SERVICE_UNAVAILABLE: u16 = 503;

/// The HTTP status code for a status: a degraded service still answers.
pub open spec fn http_code(status: StatusView) -> u16 {
    if status is Unhealthy {
        SERVICE_UNAVAILABLE
    } else {
        OK
    }
}

/// An answer of a health endpoint: a status code, and the report to serialize.
#[derive(Debug)]
pub struct HealthResponse {
    pub code: u16,
    pub body: HealthCheck,
}

/// How a service with this status, name and version answers.
pub open spec fn is_response(
    r: HealthResponse,
    status: StatusView,
    service: Seq<char>,
    version: Seq<char>,
) -> bool {
    &&& r.code == http_code(status)
    &&& r.body@ == CheckView::new(service, version, status)
}

/// Answers for a service with this status, name and version.
#[must_use]
pub fn health_response(status: HealthStatus, service: &str, version: &str) -> (r: HealthResponse)
    ensures
        is_response(r, status@, service@, version@),
{
    match status {
        HealthStatus::Healthy => HealthResponse {
            code: OK,
            body: HealthCheck::healthy(service, version),
        },
        HealthStatus::Degraded(reason) => HealthResponse {
            code: OK,
            body: HealthCheck::degraded(service, version, reason.as_str()),
        },
        HealthStatus::Unhealthy(reason) => HealthResponse {
            code: SERVICE_UNAVAILABLE,
            body: HealthCheck::unhealthy(service, version, reason.as_str()),
        },
    }
}

/// Asks `checker` and answers for it.
#[must_use]
pub fn health_handler<C: HealthChecker + ?Sized>(checker: &C) -> (r: HealthResponse)
    ensures
        exists|status: HealthStatus, service: &str, version: &str|
            call_ensures(C::check, (checker,), status) && call_ensures(
                C::service_name,
                (checker,),
                service,
            ) && call_ensures(C::version, (checker,), version) && is_response(
                r,
                status@,
                service@,
                version@,
            ),
{
    let status = checker.check();
    let ghost answered = status;
    let service = checker.service_name();
    let version = checker.version();
    let r = health_response(status, service, version);
    assert(is_response(r, answered@, service@, version@));
    r
}

/// An endpoint answers 503 exactly for an unhealthy service, and 200 otherwise;
/// the body carries the reason if there is one.
pub proof fn law_unavailable_iff_unhealthy(
    r: HealthResponse,
    status: StatusView,
    service: Seq<char>,
    version: Seq<char>,
)
    requires
        is_response(r, status, service, version),
    ensures
        r.code == 503 <==> status is Unhealthy,
        r.code == 200 <==> status is Healthy || status is Degraded,
        r.body@.status.reason() == status.reason(),
{
}

/// An endpoint answers 503 for an unhealthy service and 200 for any other, and
/// reports the service's own name, version and status, with no uptime.
pub proof fn law_answer_reports_the_service(
    status: HealthStatus,
    service: &str,
    version: &str,
    r: HealthResponse,
)
    requires
        call_ensures(health_response, (status, service, version), r),
    ensures
        r.code == if status is Unhealthy {
            503u16
        } else {
            200u16
        },
        r.body.service@ == service@,
        r.body.version@ == version@,
        r.body.uptime_secs is None,
        match (status, r.body.status) {
            (HealthStatus::Healthy, HealthStatus::Healthy) => true,
            (HealthStatus::Degraded(asked), HealthStatus::Degraded(told)) => asked@ == told@,
            (HealthStatus::Unhealthy(asked), HealthStatus::Unhealthy(told)) => asked@ == told@,
            _ => false,
        },
{
    assert(r.body@.service == service@);
}

} // verus!
