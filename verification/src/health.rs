//! Health of a service: its status, and the report that states it.

use crate::text;
use crate::text::{decimal_text, same_text, strip_prefix};
use std::str::FromStr;
use vstd::prelude::*;

verus! {

/// The code of a healthy service.
pub const HEALTHY: u8 = 0;

/// The code of a degraded service.
pub const DEGRADED: u8 = 1;

/// The code of an unhealthy service.
pub const UNHEALTHY: u8 = 2;

/// Trait for pluggable health check implementations.
///
/// Services implement this to provide custom health semantics. The default
/// [`SimpleHealthChecker`] reports a fixed status that can be changed at run
/// time.
pub trait HealthChecker: Send + Sync {
    /// Perform a health check and return the current status.
    fn check(&self) -> HealthStatus;

    /// Service name for reporting.
    fn service_name(&self) -> &str;

    /// Service version for reporting.
    fn version(&self) -> &str;
}

/// The status that `code` stands for. A code that stands for nothing else is
/// healthy.
pub open spec fn status_of(code: u8) -> StatusView {
    if code == DEGRADED {
        StatusView::Degraded("degraded"@)
    } else if code == UNHEALTHY {
        StatusView::Unhealthy("unhealthy"@)
    } else {
        StatusView::Healthy
    }
}

/// The status that a status code stands for.
#[must_use]
pub fn status_from_code(code: u8) -> (r: HealthStatus)
    ensures
        r@ == status_of(code),
{
    if code == DEGRADED {
        HealthStatus::Degraded("degraded".to_owned())
    } else if code == UNHEALTHY {
        HealthStatus::Unhealthy("unhealthy".to_owned())
    } else {
        HealthStatus::Healthy
    }
}

/// Basic health checker that reports a fixed status.
///
/// The status can be changed with [`set_healthy`](Self::set_healthy),
/// [`set_degraded`](Self::set_degraded), and
/// [`set_unhealthy`](Self::set_unhealthy). It is kept as a status code.
#[derive(Debug)]
pub struct SimpleHealthChecker {
    service: String,
    version: String,
    status: u8,
}

/// A [`SimpleHealthChecker`]: what it reports for, and its status code.
pub struct CheckerView {
    pub service: Seq<char>,
    pub version: Seq<char>,
    pub status: u8,
}

impl View for SimpleHealthChecker {
    type V = CheckerView;

    closed spec fn view(&self) -> CheckerView {
        CheckerView { service: self.service@, version: self.version@, status: self.status }
    }
}

impl SimpleHealthChecker {
    /// Create a new checker that starts in the [`HealthStatus::Healthy`] state.
    #[must_use]
    pub fn new(service: &str, version: &str) -> (r: Self)
        ensures
            r@ == (CheckerView { service: service@, version: version@, status: HEALTHY }),
    {
        SimpleHealthChecker {
            service: service.to_owned(),
            version: version.to_owned(),
            status: HEALTHY,
        }
    }

    /// Set the status to [`HealthStatus::Healthy`].
    pub fn set_healthy(&mut self)
        ensures
            final(self)@ == (CheckerView { status: HEALTHY, ..old(self)@ }),
    {
        self.status = HEALTHY;
    }

    /// Set the status to [`HealthStatus::Degraded`].
    pub fn set_degraded(&mut self)
        ensures
            final(self)@ == (CheckerView { status: DEGRADED, ..old(self)@ }),
    {
        self.status = DEGRADED;
    }

    /// Set the status to [`HealthStatus::Unhealthy`].
    pub fn set_unhealthy(&mut self)
        ensures
            final(self)@ == (CheckerView { status: UNHEALTHY, ..old(self)@ }),
    {
        self.status = UNHEALTHY;
    }
}

impl HealthChecker for SimpleHealthChecker {
    fn check(&self) -> (r: HealthStatus)
        ensures
            r@ == status_of(self@.status),
    {
        status_from_code(self.status)
    }

    fn service_name(&self) -> (r: &str)
        ensures
            r@ == self@.service,
    {
        self.service.as_str()
    }

    fn version(&self) -> (r: &str)
        ensures
            r@ == self@.version,
    {
        self.version.as_str()
    }
}

/// Health status for a daemon service.
#[derive(Debug, PartialEq, Eq, Hash)]
#[non_exhaustive]
pub enum HealthStatus {
    /// Service is fully operational.
    Healthy,
    /// Service is running but with degraded functionality.
    Degraded(String),
    /// Service is not operational.
    Unhealthy(String),
}

/// A [`HealthStatus`], with its reason as a sequence of characters.
pub enum StatusView {
    Healthy,
    Degraded(Seq<char>),
    Unhealthy(Seq<char>),
}

impl View for HealthStatus {
    type V = StatusView;

    open spec fn view(&self) -> StatusView {
        match self {
            HealthStatus::Healthy => StatusView::Healthy,
            HealthStatus::Degraded(r) => StatusView::Degraded(r@),
            HealthStatus::Unhealthy(r) => StatusView::Unhealthy(r@),
        }
    }
}

impl StatusView {
    /// Why the service is not healthy, if it is not.
    pub open spec fn reason(self) -> Option<Seq<char>> {
        match self {
            StatusView::Healthy => None,
            StatusView::Degraded(r) => Some(r),
            StatusView::Unhealthy(r) => Some(r),
        }
    }

    /// How the status is written.
    pub open spec fn text(self) -> Seq<char> {
        match self {
            StatusView::Healthy => "healthy"@,
            StatusView::Degraded(r) => "degraded: "@ + r,
            StatusView::Unhealthy(r) => "unhealthy: "@ + r,
        }
    }
}

/// The status that is written `s`, if there is one.
pub open spec fn parsed_status(s: Seq<char>) -> Option<StatusView> {
    if s == "healthy"@ {
        Some(StatusView::Healthy)
    } else if text::starts_with(s, "degraded: "@) {
        Some(StatusView::Degraded(s.skip("degraded: "@.len() as int)))
    } else if text::starts_with(s, "unhealthy: "@) {
        Some(StatusView::Unhealthy(s.skip("unhealthy: "@.len() as int)))
    } else {
        None
    }
}

impl Default for HealthStatus {
    fn default() -> (r: Self)
        ensures
            r == HealthStatus::Healthy,
    {
        HealthStatus::Healthy
    }
}

impl Clone for HealthStatus {
    fn clone(&self) -> (r: Self)
        ensures
            r@ == self@,
    {
        match self {
            HealthStatus::Healthy => HealthStatus::Healthy,
            HealthStatus::Degraded(r) => HealthStatus::Degraded(r.clone()),
            HealthStatus::Unhealthy(r) => HealthStatus::Unhealthy(r.clone()),
        }
    }
}

impl HealthStatus {
    /// Returns the reason string for `Degraded` or `Unhealthy`, `None` for
    /// `Healthy`.
    #[must_use]
    pub fn reason(&self) -> (r: Option<&str>)
        ensures
            match r {
                Some(reason) => self@.reason() == Some(reason@),
                None => self@.reason() is None,
            },
    {
        match self {
            HealthStatus::Healthy => None,
            HealthStatus::Degraded(r) => Some(r.as_str()),
            HealthStatus::Unhealthy(r) => Some(r.as_str()),
        }
    }

    /// `true` when `Healthy`.
    #[must_use]
    pub fn is_healthy(&self) -> (r: bool)
        ensures
            r == (self@ is Healthy),
    {
        matches!(self, HealthStatus::Healthy)
    }

    /// `true` when `Degraded`.
    #[must_use]
    pub fn is_degraded(&self) -> (r: bool)
        ensures
            r == (self@ is Degraded),
    {
        matches!(self, HealthStatus::Degraded(_))
    }

    /// `true` when `Unhealthy`.
    #[must_use]
    pub fn is_unhealthy(&self) -> (r: bool)
        ensures
            r == (self@ is Unhealthy),
    {
        matches!(self, HealthStatus::Unhealthy(_))
    }

    /// Writes the status.
    #[must_use]
    pub fn to_string(&self) -> (r: String)
        ensures
            r@ == self@.text(),
    {
        let mut out: String;
        match self {
            HealthStatus::Healthy => {
                out = "healthy".to_owned();
            },
            HealthStatus::Degraded(r) => {
                out = "degraded: ".to_owned();
                out.append(r.as_str());
            },
            HealthStatus::Unhealthy(r) => {
                out = "unhealthy: ".to_owned();
                out.append(r.as_str());
            },
        }
        out
    }

    /// Reads a status as [`to_string`](Self::to_string) writes it.
    pub fn from_text(s: &str) -> (r: Result<Self, ParseHealthStatusError>)
        ensures
            parse_result(s@, r),
    {
        if same_text(s, "healthy") {
            return Ok(HealthStatus::Healthy);
        }
        if let Some(reason) = strip_prefix(s, "degraded: ") {
            return Ok(HealthStatus::Degraded(reason.to_owned()));
        }
        if let Some(reason) = strip_prefix(s, "unhealthy: ") {
            return Ok(HealthStatus::Unhealthy(reason.to_owned()));
        }
        Err(ParseHealthStatusError { input: s.to_owned() })
    }
}

/// `r` is what reading the status `s` gives: the status that is written so, or
/// an error that holds `s`.
pub open spec fn parse_result(
    s: Seq<char>,
    r: Result<HealthStatus, ParseHealthStatusError>,
) -> bool {
    match r {
        Ok(status) => parsed_status(s) == Some(status@),
        Err(e) => parsed_status(s) is None && e@ == s,
    }
}

/// Parse error returned when a string cannot be interpreted as a
/// [`HealthStatus`]; its view is that string.
#[derive(Debug, PartialEq, Eq)]
pub struct ParseHealthStatusError {
    input: String,
}

impl Clone for ParseHealthStatusError {
    fn clone(&self) -> (r: Self)
        ensures
            r == *self,
    {
        ParseHealthStatusError { input: self.input.clone() }
    }
}

impl View for ParseHealthStatusError {
    type V = Seq<char>;

    closed spec fn view(&self) -> Seq<char> {
        self.input@
    }
}

/// `s` as a string literal: what the `Debug` impl of `str` writes.
pub uninterp spec fn quoted(s: Seq<char>) -> Seq<char>;

/// Writes `s` with `format!` and the `Debug` impl of `str`.
///
/// Claimed of it: what it writes depends on the characters of `s` alone.
#[verifier::external_body]
fn quote(s: &str) -> (r: String)
    ensures
        r@ == quoted(s@),
{
    format!("{:?}", s)
}

impl ParseHealthStatusError {
    /// Writes the error, given the input as a string literal.
    #[must_use]
    pub fn message(literal: &str) -> (r: String)
        ensures
            r@ == "invalid health status: "@ + literal@,
    {
        let mut out = "invalid health status: ".to_owned();
        out.append(literal);
        out
    }

    /// Writes what the error says.
    #[must_use]
    pub fn to_string(&self) -> (r: String)
        ensures
            r@ == "invalid health status: "@ + quoted(self@),
    {
        Self::message(quote(self.input.as_str()).as_str())
    }
}

impl FromStr for HealthStatus {
    type Err = ParseHealthStatusError;

    fn from_str(s: &str) -> (r: Result<Self, ParseHealthStatusError>)
        ensures
            parse_result(s@, r),
    {
        HealthStatus::from_text(s)
    }
}

impl TryFrom<&str> for HealthStatus {
    type Error = ParseHealthStatusError;

    fn try_from(value: &str) -> (r: Result<Self, ParseHealthStatusError>)
        ensures
            parse_result(value@, r),
    {
        HealthStatus::from_text(value)
    }
}

impl vstd::std_specs::convert::TryFromSpecImpl<&str> for HealthStatus {
    // The result is stated over views, in the contract of `try_from` itself.
    open spec fn obeys_try_from_spec() -> bool {
        false
    }

    open spec fn try_from_spec(value: &str) -> Result<Self, ParseHealthStatusError> {
        arbitrary()
    }
}

/// Standardized health check response for daemon services.
#[derive(Debug, PartialEq, Eq, Hash)]
#[non_exhaustive]
pub struct HealthCheck {
    pub service: String,
    pub status: HealthStatus,
    pub version: String,
    pub uptime_secs: Option<u64>,
}

/// A [`HealthCheck`], with its texts as sequences of characters.
pub struct CheckView {
    pub service: Seq<char>,
    pub status: StatusView,
    pub version: Seq<char>,
    pub uptime_secs: Option<u64>,
}

impl View for HealthCheck {
    type V = CheckView;

    open spec fn view(&self) -> CheckView {
        CheckView {
            service: self.service@,
            status: self.status@,
            version: self.version@,
            uptime_secs: self.uptime_secs,
        }
    }
}

impl CheckView {
    /// A report that says nothing of the uptime.
    pub open spec fn new(service: Seq<char>, version: Seq<char>, status: StatusView) -> CheckView {
        CheckView { service, status, version, uptime_secs: None }
    }

    /// How the report is written.
    pub open spec fn text(self) -> Seq<char> {
        self.service + " v"@ + self.version + " — "@ + self.status.text() + match self.uptime_secs {
            Some(uptime) => " (uptime: "@ + text::decimal(uptime as nat) + "s)"@,
            None => Seq::empty(),
        }
    }
}

impl Clone for HealthCheck {
    fn clone(&self) -> (r: Self)
        ensures
            r@ == self@,
    {
        HealthCheck {
            service: self.service.clone(),
            status: self.status.clone(),
            version: self.version.clone(),
            uptime_secs: self.uptime_secs,
        }
    }
}

impl HealthCheck {
    /// Create a healthy check result.
    #[must_use]
    pub fn healthy(service: &str, version: &str) -> (r: Self)
        ensures
            r@ == CheckView::new(service@, version@, StatusView::Healthy),
    {
        HealthCheck {
            service: service.to_owned(),
            status: HealthStatus::Healthy,
            version: version.to_owned(),
            uptime_secs: None,
        }
    }

    /// Create an unhealthy check result.
    #[must_use]
    pub fn unhealthy(service: &str, version: &str, reason: &str) -> (r: Self)
        ensures
            r@ == CheckView::new(service@, version@, StatusView::Unhealthy(reason@)),
    {
        HealthCheck {
            service: service.to_owned(),
            status: HealthStatus::Unhealthy(reason.to_owned()),
            version: version.to_owned(),
            uptime_secs: None,
        }
    }

    /// Create a degraded check result.
    #[must_use]
    pub fn degraded(service: &str, version: &str, reason: &str) -> (r: Self)
        ensures
            r@ == CheckView::new(service@, version@, StatusView::Degraded(reason@)),
    {
        HealthCheck {
            service: service.to_owned(),
            status: HealthStatus::Degraded(reason.to_owned()),
            version: version.to_owned(),
            uptime_secs: None,
        }
    }

    /// Set the uptime in seconds.
    #[must_use]
    pub fn with_uptime(self, secs: u64) -> (r: Self)
        ensures
            r@ == (CheckView { uptime_secs: Some(secs), ..self@ }),
    {
        let mut check = self;
        check.uptime_secs = Some(secs);
        check
    }

    /// Whether the service is healthy.
    #[must_use]
    pub fn is_healthy(&self) -> (r: bool)
        ensures
            r == (self@.status is Healthy),
    {
        self.status.is_healthy()
    }

    /// Whether the service is degraded (running but impaired).
    #[must_use]
    pub fn is_degraded(&self) -> (r: bool)
        ensures
            r == (self@.status is Degraded),
    {
        self.status.is_degraded()
    }

    /// Whether the service is unhealthy.
    #[must_use]
    pub fn is_unhealthy(&self) -> (r: bool)
        ensures
            r == (self@.status is Unhealthy),
    {
        self.status.is_unhealthy()
    }

    /// Writes the report on one line.
    #[must_use]
    pub fn to_string(&self) -> (r: String)
        ensures
            r@ == self@.text(),
    {
        let mut out = self.service.clone();
        out.append(" v");
        out.append(self.version.as_str());
        out.append(" — ");
        out.append(self.status.to_string().as_str());
        if let Some(uptime) = self.uptime_secs {
            out.append(" (uptime: ");
            out.append(decimal_text(uptime).as_str());
            out.append("s)");
        }
        assert(out@ =~= self@.text());
        out
    }

    /// Start building a [`HealthCheck`] with the required fields.
    #[must_use]
    pub fn builder(service: &str, version: &str) -> (r: HealthCheckBuilder)
        ensures
            r@ == CheckView::new(service@, version@, StatusView::Healthy),
    {
        HealthCheckBuilder {
            service: service.to_owned(),
            version: version.to_owned(),
            status: HealthStatus::Healthy,
            uptime_secs: None,
        }
    }
}

/// Incremental builder for [`HealthCheck`]; its view is the report that it
/// would build.
#[derive(Debug)]
pub struct HealthCheckBuilder {
    service: String,
    version: String,
    status: HealthStatus,
    uptime_secs: Option<u64>,
}

impl View for HealthCheckBuilder {
    type V = CheckView;

    closed spec fn view(&self) -> CheckView {
        CheckView {
            service: self.service@,
            status: self.status@,
            version: self.version@,
            uptime_secs: self.uptime_secs,
        }
    }
}

impl Clone for HealthCheckBuilder {
    fn clone(&self) -> (r: Self)
        ensures
            r@ == self@,
    {
        HealthCheckBuilder {
            service: self.service.clone(),
            version: self.version.clone(),
            status: self.status.clone(),
            uptime_secs: self.uptime_secs,
        }
    }
}

impl HealthCheckBuilder {
    /// Set the health status (defaults to [`HealthStatus::Healthy`]).
    #[must_use]
    pub fn status(self, status: HealthStatus) -> (r: Self)
        ensures
            r@ == (CheckView { status: status@, ..self@ }),
    {
        let mut builder = self;
        builder.status = status;
        builder
    }

    /// Set uptime in seconds.
    #[must_use]
    pub fn uptime_secs(self, secs: u64) -> (r: Self)
        ensures
            r@ == (CheckView { uptime_secs: Some(secs), ..self@ }),
    {
        let mut builder = self;
        builder.uptime_secs = Some(secs);
        builder
    }

    /// Consume the builder and produce a [`HealthCheck`].
    #[must_use]
    pub fn build(self) -> (r: HealthCheck)
        ensures
            r@ == self@,
    {
        HealthCheck {
            service: self.service,
            status: self.status,
            version: self.version,
            uptime_secs: self.uptime_secs,
        }
    }
}

proof fn lemma_status_literals()
    ensures
        "healthy"@.len() == 7,
        "degraded: "@.len() == 10,
        "unhealthy: "@.len() == 11,
        "healthy"@[0] == 'h',
        "degraded: "@[0] == 'd',
        "unhealthy: "@[0] == 'u',
{
    reveal_strlit("healthy");
    reveal_strlit("degraded: ");
    reveal_strlit("unhealthy: ");
}

/// Reading what was written gives the status back, whatever its reason.
pub proof fn law_status_round_trip(status: StatusView)
    ensures
        parsed_status(status.text()) == Some(status),
{
    lemma_status_literals();
    match status {
        StatusView::Healthy => {},
        StatusView::Degraded(r) => {
            let s = "degraded: "@ + r;
            assert(s[0] == 'd');
            assert(s.take(10) =~= "degraded: "@);
            assert(s.skip(10) =~= r);
        },
        StatusView::Unhealthy(r) => {
            let s = "unhealthy: "@ + r;
            assert(s[0] == 'u');
            assert(s.take(10)[0] == 'u');
            assert(s.take(11) =~= "unhealthy: "@);
            assert(s.skip(11) =~= r);
        },
    }
}

/// What can be read is written exactly so: no two texts are read as one status.
pub proof fn law_parsed_status_is_written_so(s: Seq<char>)
    ensures
        parsed_status(s) matches Some(status) ==> status.text() == s,
{
    lemma_status_literals();
    if s != "healthy"@ {
        if text::starts_with(s, "degraded: "@) {
            assert(s =~= "degraded: "@ + s.skip(10));
        } else if text::starts_with(s, "unhealthy: "@) {
            assert(s =~= "unhealthy: "@ + s.skip(11));
        }
    }
}

/// Different statuses are written differently.
pub proof fn law_status_text_is_injective(a: StatusView, b: StatusView)
    requires
        a.text() == b.text(),
    ensures
        a == b,
{
    law_status_round_trip(a);
    law_status_round_trip(b);
}

/// A status is healthy exactly when it has no reason.
pub proof fn law_reason_iff_not_healthy(status: StatusView)
    ensures
        status is Healthy <==> status.reason() is None,
        status is Degraded || status is Unhealthy <==> status.reason() is Some,
{
}

/// A status code is one of three, and each code that a checker stores is told
/// from the others by its status.
pub proof fn law_status_codes(code: u8)
    ensures
        status_of(code) is Degraded <==> code == DEGRADED,
        status_of(code) is Unhealthy <==> code == UNHEALTHY,
        status_of(code) is Healthy <==> code != DEGRADED && code != UNHEALTHY,
        status_of(HEALTHY) is Healthy,
{
}

/// A checker reports the status that was set last, and setting it changes
/// nothing else.
pub proof fn law_checker_reports_what_was_set(checker: CheckerView, first: u8, last: u8)
    ensures
        ({
            let set = CheckerView { status: last, ..CheckerView { status: first, ..checker } };
            &&& status_of(set.status) == status_of(last)
            &&& set.service == checker.service
            &&& set.version == checker.version
        }),
{
}

/// Building a report step by step gives what the constructor for its status
/// gives, in whatever order the steps come; the last uptime counts.
pub proof fn law_builder_matches_constructors(
    service: Seq<char>,
    version: Seq<char>,
    status: StatusView,
    first: u64,
    last: u64,
)
    ensures
        ({
            let start = CheckView::new(service, version, StatusView::Healthy);
            let finished = CheckView {
                uptime_secs: Some(last),
                ..CheckView::new(service, version, status)
            };
            &&& (CheckView { status, ..start }) == CheckView::new(service, version, status)
            &&& (CheckView {
                uptime_secs: Some(last),
                ..CheckView { status, ..CheckView { uptime_secs: Some(first), ..start } }
            }) == finished
            &&& (CheckView { status, ..CheckView { uptime_secs: Some(last), ..start } }) == finished
        }),
{
}

/// A status is written as its name, and a reason follows it as it stands.
pub proof fn law_status_reads_so(reason: Seq<char>)
    ensures
        StatusView::Healthy.text() == "healthy"@,
        StatusView::Degraded(reason).text() == "degraded: "@ + reason,
        StatusView::Unhealthy(reason).text() == "unhealthy: "@ + reason,
{
}

/// A text is read as the status that is written so; any other text is refused,
/// and the refusal holds it.
pub proof fn law_reading_a_status(s: Seq<char>, r: Result<HealthStatus, ParseHealthStatusError>)
    requires
        parse_result(s, r),
    ensures
        match r {
            Ok(HealthStatus::Healthy) => s == "healthy"@,
            Ok(HealthStatus::Degraded(reason)) => s == "degraded: "@ + reason@,
            Ok(HealthStatus::Unhealthy(reason)) => s == "unhealthy: "@ + reason@,
            Err(e) => {
                &&& e@ == s
                &&& s != "healthy"@
                &&& forall|reason: Seq<char>|
                    s != #[trigger] ("degraded: "@ + reason) && s != "unhealthy: "@ + reason
            },
        },
{
    law_parsed_status_is_written_so(s);
    if r is Err {
        assert forall|reason: Seq<char>|
            s != #[trigger] ("degraded: "@ + reason) && s != "unhealthy: "@ + reason by {
            law_status_round_trip(StatusView::Degraded(reason));
            law_status_round_trip(StatusView::Unhealthy(reason));
        }
        law_status_round_trip(StatusView::Healthy);
    }
}

/// A report names the service and its version, then gives the status as it is
/// written, whatever it is, and then the uptime, exactly if there is one.
pub proof fn law_report_reads_so(check: CheckView)
    ensures
        ({
            let head = check.service + " v"@ + check.version + " — "@;
            let status = match check.status {
                StatusView::Healthy => "healthy"@,
                StatusView::Degraded(reason) => "degraded: "@ + reason,
                StatusView::Unhealthy(reason) => "unhealthy: "@ + reason,
            };
            &&& check.text().take(head.len() as int) == head
            &&& check.uptime_secs is None ==> check.text() == head + status
            &&& check.uptime_secs matches Some(secs) ==> check.text() == head + status
                + " (uptime: "@ + text::decimal(secs as nat) + "s)"@
        }),
{
    let head = check.service + " v"@ + check.version + " — "@;
    assert(check.text().take(head.len() as int) =~= head);
    match check.uptime_secs {
        Some(secs) => {
            assert(check.text() =~= head + check.status.text() + " (uptime: "@ + text::decimal(
                secs as nat,
            ) + "s)"@);
        },
        None => {
            assert(check.text() =~= head + check.status.text());
        },
    }
}

/// Reports that differ in one point only are written differently: the service,
/// the version, the status, or the uptime.
pub proof fn law_reports_are_told_apart(a: CheckView, b: CheckView)
    requires
        a.text() == b.text(),
    ensures
        a.version == b.version && a.status == b.status && a.uptime_secs == b.uptime_secs
            ==> a.service == b.service,
        a.service == b.service && a.status == b.status && a.uptime_secs == b.uptime_secs
            ==> a.version == b.version,
        a.service == b.service && a.version == b.version && a.uptime_secs == b.uptime_secs
            ==> a.status == b.status,
        a.service == b.service && a.version == b.version && a.status == b.status
            ==> a.uptime_secs == b.uptime_secs,
{
    lemma_report_in_parts(a);
    lemma_report_in_parts(b);
    if a.version == b.version && a.status == b.status && a.uptime_secs == b.uptime_secs {
        lemma_same_end(a.service, b.service, after_service(a));
    }
    if a.service == b.service {
        lemma_same_start(a.service, after_service(a), after_service(b));
        lemma_same_start(" v"@, a.version + after_version(a), b.version + after_version(b));
        if a.status == b.status && a.uptime_secs == b.uptime_secs {
            lemma_same_end(a.version, b.version, after_version(a));
        }
        if a.version == b.version {
            lemma_same_start(a.version, after_version(a), after_version(b));
            lemma_same_start(
                " — "@,
                a.status.text() + uptime_text(a.uptime_secs),
                b.status.text() + uptime_text(b.uptime_secs),
            );
            if a.uptime_secs == b.uptime_secs {
                lemma_same_end(a.status.text(), b.status.text(), uptime_text(a.uptime_secs));
                law_status_text_is_injective(a.status, b.status);
            }
            if a.status == b.status {
                lemma_same_start(
                    a.status.text(),
                    uptime_text(a.uptime_secs),
                    uptime_text(b.uptime_secs),
                );
                lemma_uptime_text(a.uptime_secs, b.uptime_secs);
            }
        }
    }
}

/// How the uptime is written behind a report.
spec fn uptime_text(uptime_secs: Option<u64>) -> Seq<char> {
    match uptime_secs {
        Some(secs) => " (uptime: "@ + (text::decimal(secs as nat) + "s)"@),
        None => Seq::empty(),
    }
}

/// What stands behind the version in a report.
spec fn after_version(check: CheckView) -> Seq<char> {
    " — "@ + (check.status.text() + uptime_text(check.uptime_secs))
}

/// What stands behind the service in a report.
spec fn after_service(check: CheckView) -> Seq<char> {
    " v"@ + (check.version + after_version(check))
}

proof fn lemma_report_in_parts(check: CheckView)
    ensures
        check.text() == check.service + after_service(check),
{
    law_report_reads_so(check);
    assert(check.text() =~= check.service + after_service(check));
}

proof fn lemma_uptime_text(a: Option<u64>, b: Option<u64>)
    requires
        uptime_text(a) == uptime_text(b),
    ensures
        a == b,
{
    reveal_strlit(" (uptime: ");
    if a is Some && b is Some {
        let da = text::decimal(a->0 as nat);
        let db = text::decimal(b->0 as nat);
        lemma_same_start(" (uptime: "@, da + "s)"@, db + "s)"@);
        lemma_same_end(da, db, "s)"@);
        text::law_decimal_injective(a->0 as nat, b->0 as nat);
    } else if a is Some {
        assert(uptime_text(a).len() > 0);
    } else if b is Some {
        assert(uptime_text(b).len() > 0);
    }
}

proof fn lemma_same_end(a: Seq<char>, b: Seq<char>, end: Seq<char>)
    requires
        a + end == b + end,
    ensures
        a == b,
{
    assert((a + end).len() == a.len() + end.len());
    assert((b + end).len() == b.len() + end.len());
    assert(a =~= (a + end).take(a.len() as int));
    assert(b =~= (b + end).take(a.len() as int));
}

proof fn lemma_same_start(start: Seq<char>, a: Seq<char>, b: Seq<char>)
    requires
        start + a == start + b,
    ensures
        a == b,
{
    assert(a =~= (start + a).skip(start.len() as int));
    assert(b =~= (start + b).skip(start.len() as int));
}

/// A new report holds the name, the version and the status it was made for, the
/// reason as it stands, and no uptime.
pub proof fn law_new_report_holds_what_it_was_given(
    service: &str,
    version: &str,
    reason: &str,
    healthy: HealthCheck,
    degraded: HealthCheck,
    unhealthy: HealthCheck,
)
    requires
        call_ensures(HealthCheck::healthy, (service, version), healthy),
        call_ensures(HealthCheck::degraded, (service, version, reason), degraded),
        call_ensures(HealthCheck::unhealthy, (service, version, reason), unhealthy),
    ensures
        healthy.status is Healthy,
        degraded.status matches HealthStatus::Degraded(r) && r@ == reason@,
        unhealthy.status matches HealthStatus::Unhealthy(r) && r@ == reason@,
        forall|check: HealthCheck|
            check == healthy || check == degraded || check == unhealthy ==> {
                &&& (#[trigger] check.service)@ == service@
                &&& check.version@ == version@
                &&& check.uptime_secs is None
            },
{
    assert(healthy@.service == service@);
    assert(degraded@.service == service@);
    assert(unhealthy@.service == service@);
}

/// Each of the three questions is answered by the status alone, and the reason
/// that is given is the one that the status holds.
pub proof fn law_status_answers(
    status: HealthStatus,
    healthy: bool,
    degraded: bool,
    unhealthy: bool,
    reason: Option<&str>,
)
    requires
        call_ensures(HealthStatus::is_healthy, (&status,), healthy),
        call_ensures(HealthStatus::is_degraded, (&status,), degraded),
        call_ensures(HealthStatus::is_unhealthy, (&status,), unhealthy),
        call_ensures(HealthStatus::reason, (&status,), reason),
    ensures
        match status {
            HealthStatus::Healthy => healthy && !degraded && !unhealthy && reason is None,
            HealthStatus::Degraded(r) => !healthy && degraded && !unhealthy && reason is Some
                && reason->0@ == r@,
            HealthStatus::Unhealthy(r) => !healthy && !degraded && unhealthy && reason is Some
                && reason->0@ == r@,
        },
{
}

/// A checker that was set to a status gives that status, with a word for its
/// reason; what was never set is healthy.
pub proof fn law_codes_read_so(code: u8)
    ensures
        status_of(1) == StatusView::Degraded("degraded"@),
        status_of(2) == StatusView::Unhealthy("unhealthy"@),
        code != 1 && code != 2 ==> status_of(code) == StatusView::Healthy,
{
}

/// What is built is what was set, and a report keeps each part where it was put.
pub proof fn law_report_keeps_its_parts(check: HealthCheck)
    ensures
        check@.service == check.service@,
        check@.version == check.version@,
        check@.uptime_secs == check.uptime_secs,
        match check.status {
            HealthStatus::Healthy => check@.status is Healthy,
            HealthStatus::Degraded(r) => check@.status == StatusView::Degraded(r@),
            HealthStatus::Unhealthy(r) => check@.status == StatusView::Unhealthy(r@),
        },
{
}

} // verus!
