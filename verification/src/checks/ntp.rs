//! Clock offset against an NTP server.

use vstd::prelude::*;
use crate::checks::CheckResult;
use crate::config::AppConfig;

verus! {

/// The check of the local clock's offset from the configured NTP server.
pub struct NTPDriftCheck;

/// The server the NTP check queries: the `ntp` service's `ntp_pool_server`,
/// when the service exists and names a non-empty one.
pub open spec fn ntp_server_of(services: Map<Seq<char>, crate::config::ServiceView>) -> Option<
    Seq<char>,
> {
    if services.contains_key("ntp"@) {
        match services["ntp"@].ntp_pool_server {
            Some(server) => if server.len() > 0 {
                Some(server)
            } else {
                None
            },
            None => None,
        }
    } else {
        None
    }
}

impl NTPDriftCheck {
    pub fn name(&self) -> (r: &'static str)
        ensures
            r@ == "NTP Drift"@,
    {
        "NTP Drift"
    }

    pub fn config_key(&self) -> (r: &'static str)
        ensures
            r@ == "ntp"@,
    {
        "ntp"
    }

    pub fn default_period(&self) -> (r: u64)
        ensures
            r == 120,
    {
        120
    }

    /// The server to query; without one the check does not run.
    pub fn server(&self, config: &AppConfig) -> (r: Option<String>)
        ensures
            r.deep_view() == ntp_server_of(config.services.map()),
    {
        match config.services.get("ntp") {
            Some(service) => match &service.ntp_pool_server {
                Some(server) => if server.unicode_len() > 0 {
                    Some(server.clone())
                } else {
                    None
                },
                None => None,
            },
            None => None,
        }
    }

    /// The CRITICAL result of a failed query, with the failure's text.
    pub fn failure(error: &str) -> (r: CheckResult)
        ensures
            r matches CheckResult::Single { status, message } && status@ == "CRITICAL"@
                && message@ == "NTP Error: "@ + error@,
    {
        let mut message = "NTP Error: ".to_owned();
        message.append(error);
        CheckResult::Single { status: "CRITICAL".to_owned(), message }
    }
}

} // verus!
