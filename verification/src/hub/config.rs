//! The hub's settings, from the values of its environment variables.
use vstd::prelude::*;
use crate::agent::config::{port_or, port_setting, text_or, text_setting};
use crate::numbers::{parse_i64, parse_signed};

verus! {

/// Seconds between staleness checks.
pub const STALE_CHECK_SECS: u64 = 2;

/// Seconds the hub waits for an agent to answer.
pub const AGENT_TIMEOUT_SECS: u64 = 5;

/// The hub's settings.
#[derive(Debug)]
pub struct HubConfig {
    pub host: String,
    pub port: u16,
    pub api_key: String,
    pub stale_secs: i64,
}

/// A seconds setting, or `default` when it is unset or not a number.
pub open spec fn secs_or(v: Option<String>, default: i64) -> i64 {
    match v {
        Some(s) => match parse_signed(s@) {
            Some(n) => n as i64,
            None => default,
        },
        None => default,
    }
}

/// The hub's settings from `HUB_HOST`, `HUB_PORT`, `HUB_API_KEY` and
/// `HUB_STALE_SECS`: the host defaults to `0.0.0.0`, the port to 8001, the
/// key to `dev-secret`, and agents count as stale after 8 silent seconds.
pub fn hub_config(
    host: Option<String>,
    port: Option<String>,
    api_key: Option<String>,
    stale_secs: Option<String>,
) -> (c: HubConfig)
    ensures
        c.host@ == text_or(host, "0.0.0.0"@),
        c.port == port_or(port, 8001),
        c.api_key@ == text_or(api_key, "dev-secret"@),
        c.stale_secs == secs_or(stale_secs, 8),
{
    let port = port_setting(&port, 8001);
    let stale = match &stale_secs {
        Some(s) => match parse_i64(s.as_str()) {
            Some(n) => n,
            None => 8,
        },
        None => 8,
    };
    HubConfig {
        host: text_setting(host, "0.0.0.0"),
        port,
        api_key: text_setting(api_key, "dev-secret"),
        stale_secs: stale,
    }
}

/// The answer to `/ping` on the hub.
pub fn ping() -> (r: &'static str)
    ensures
        r@ == "ok"@,
{
    "ok"
}

} // verus!
