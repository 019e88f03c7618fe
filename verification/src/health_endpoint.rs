use vstd::prelude::*;
use vstd::string::*;

use crate::service_manager::{ServiceReport, ServiceReportSummary, Unhealthy};
use crate::text::{digits, digits_string, same_text};

verus! {

#[verifier::external_type_specification]
#[verifier::external_body]
pub struct ExStatusCode(hyper::StatusCode);

/// The number of an HTTP status, as `StatusCode::as_u16` gives it.
pub uninterp spec fn status_number(s: hyper::StatusCode) -> u16;

/// `StatusCode::from_u16`: the HTTP status with this number; `None` exactly
/// where the number lies outside 100..=999, as http's source checks. The
/// status keeps the number it was made from, which `as_u16` gives back.
#[verifier::external_body]
fn status_code(code: u16) -> (r: Option<hyper::StatusCode>)
    ensures
        r is Some <==> 100 <= code <= 999,
        r matches Some(s) ==> status_number(s) == code,
{
    hyper::StatusCode::from_u16(code).ok()
}

/// Where the health endpoint listens and how it answers.
pub struct HealthEndpointConfig {
    pub port: u16,
    pub success_status: hyper::StatusCode,
    pub fail_status: hyper::StatusCode,
}

impl Clone for HealthEndpointConfig {
    /// A copy of every field.
    fn clone(&self) -> (c: Self)
        ensures
            c == *self,
    {
        HealthEndpointConfig {
            port: self.port,
            success_status: self.success_status,
            fail_status: self.fail_status,
        }
    }
}

impl Default for HealthEndpointConfig {
    /// Port 3417, answering 200 when all services are alive and 500 otherwise.
    fn default() -> (c: Self)
        ensures
            c.port == 3417,
            status_number(c.success_status) == 200,
            status_number(c.fail_status) == 500,
    {
        let success = status_code(200);
        let fail = status_code(500);
        HealthEndpointConfig {
            port: 3417,
            success_status: success.unwrap(),
            fail_status: fail.unwrap(),
        }
    }
}

/// What `{:#?}` renders a list of dead-service reports as (the derived
/// pretty debug formatting).
pub uninterp spec fn reports_debug_text(v: Seq<ServiceReport<Unhealthy>>) -> Seq<char>;

/// `format!("{:#?}")` on a vector of dead-service reports: its text is named
/// by `reports_debug_text`; nothing more is claimed.
#[verifier::external_body]
fn debug_text_of_reports(v: &Vec<ServiceReport<Unhealthy>>) -> (s: String)
    ensures
        s@ == reports_debug_text(v@),
{
    format!("{v:#?}")
}

/// The answer to a health check.
#[derive(Debug)]
pub enum HealthReply {
    /// All services are alive: answer with the success status and this body.
    Live(String),
    /// Some services are dead: answer with the failure status and this body.
    Dead(String),
}

/// The body that tells how many services are alive.
pub open spec fn live_body(alive: nat) -> Seq<char> {
    digits(alive) + " live services"@
}

/// The body that tells how many services are alive and which are dead.
pub open spec fn dead_body(alive: nat, dead: Seq<ServiceReport<Unhealthy>>) -> Seq<char> {
    digits(alive) + " live services. dead services: "@ + reports_debug_text(dead)
}

/// Whether a request with method GET or not (`is_get`) and `path` is a
/// health check: only `GET /health` is.
pub fn is_health_check(is_get: bool, path: &str) -> (r: bool)
    ensures
        r == (is_get && path@ == "/health"@),
{
    is_get && same_text(path, "/health")
}

/// The answer to a health check, given the latest check of the services: it
/// succeeds exactly when no service is dead.
pub fn health_reply(summary: &ServiceReportSummary) -> (r: HealthReply)
    ensures
        match r {
            HealthReply::Live(body) => summary.dead@.len() == 0 && body@ == live_body(
                summary.alive@.len(),
            ),
            HealthReply::Dead(body) => summary.dead@.len() > 0 && body@ == dead_body(
                summary.alive@.len(),
                summary.dead@,
            ),
        },
{
    let alive = digits_string(summary.alive.len() as u64);
    if summary.dead.len() == 0 {
        HealthReply::Live(alive.concat(" live services"))
    } else {
        let body = alive.concat(" live services. dead services: ");
        let body = body.concat(debug_text_of_reports(&summary.dead).as_str());
        HealthReply::Dead(body)
    }
}

} // verus!
