use tsunagu::probe::{
    health_handler, health_response, HEALTH_PATH, LIVENESS_PATH, READINESS_PATH,
};
use tsunagu::{HealthChecker, HealthStatus, SimpleHealthChecker};

#[test]
fn a_healthy_service_answers_ok() {
    let r = health_response(HealthStatus::Healthy, "svc", "1.0");
    assert_eq!(r.code, 200);
    assert!(r.body.is_healthy());
    assert_eq!((r.body.service.as_str(), r.body.version.as_str()), ("svc", "1.0"));
    assert_eq!(r.body.uptime_secs, None);
}

#[test]
fn a_degraded_service_still_answers_ok() {
    let r = health_response(HealthStatus::Degraded("slow".into()), "svc", "1.0");
    assert_eq!(r.code, 200);
    assert_eq!(r.body.status, HealthStatus::Degraded("slow".into()));
}

#[test]
fn an_unhealthy_service_is_unavailable() {
    let r = health_response(HealthStatus::Unhealthy("down".into()), "svc", "1.0");
    assert_eq!(r.code, 503);
    assert_eq!(r.body.status, HealthStatus::Unhealthy("down".into()));
}

#[test]
fn a_checker_is_asked_anew_each_time() {
    let mut checker = SimpleHealthChecker::new("svc", "1.0");
    assert_eq!(health_handler(&checker).code, 200);
    checker.set_unhealthy();
    let boxed: Box<dyn HealthChecker> = Box::new(checker);
    let r = health_handler(boxed.as_ref());
    assert_eq!(r.code, 503);
    assert_eq!(r.body.status.reason(), Some("unhealthy"));
}

#[test]
fn there_are_three_endpoints() {
    assert_eq!([HEALTH_PATH, READINESS_PATH, LIVENESS_PATH], ["/health", "/readiness", "/liveness"]);
}
