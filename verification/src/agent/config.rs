//! The agent's settings, from the values of its environment variables.
use vstd::prelude::*;
use crate::numbers::{decimal, parse_u16, parse_unsigned, write_decimal};
use crate::text::{copy_str, push_char};

verus! {

/// How the agent reaches the hub.
#[derive(Debug)]
pub struct HubLinkConfig {
    pub hub_url: String,
    pub api_key: String,
    pub agent_id: String,
    pub agent_public_url: String,
}

/// The agent's settings.
#[derive(Debug)]
pub struct AgentConfig {
    pub host: String,
    pub port: u16,
    pub hub: Option<HubLinkConfig>,
    pub disk_path: String,
}

/// A setting's text, or `default` when it is not set.
pub open spec fn text_or(v: Option<String>, default: Seq<char>) -> Seq<char> {
    match v {
        Some(s) => s@,
        None => default,
    }
}

/// A port setting, or `default` when it is unset or not a port number.
pub open spec fn port_or(v: Option<String>, default: u16) -> u16 {
    match v {
        Some(s) => match parse_unsigned(s@, u16::MAX as nat) {
            Some(n) => n as u16,
            None => default,
        },
        None => default,
    }
}

/// Reads a port setting.
pub fn port_setting(v: &Option<String>, default: u16) -> (p: u16)
    ensures
        p == port_or(*v, default),
{
    match v {
        Some(s) => match parse_u16(s.as_str()) {
            Some(n) => n,
            None => default,
        },
        None => default,
    }
}

/// Reads a text setting.
pub fn text_setting(v: Option<String>, default: &str) -> (s: String)
    ensures
        s@ == text_or(v, default@),
{
    match v {
        Some(s) => s,
        None => copy_str(default),
    }
}

/// The agent's settings from `AGENT_HOST`, `AGENT_PORT`, `HUB_URL`,
/// `HUB_API_KEY`, `AGENT_ID`, `AGENT_PUBLIC_URL` and `AGENT_DISK_PATH`: the
/// host defaults to `0.0.0.0`, the port to 7001, the disk path to `/`; the
/// hub is reached only when all four of its settings are present.
pub fn agent_config(
    host: Option<String>,
    port: Option<String>,
    hub_url: Option<String>,
    hub_api_key: Option<String>,
    agent_id: Option<String>,
    agent_public_url: Option<String>,
    disk_path: Option<String>,
) -> (c: AgentConfig)
    ensures
        c.host@ == text_or(host, "0.0.0.0"@),
        c.port == port_or(port, 7001),
        c.disk_path@ == text_or(disk_path, "/"@),
        c.hub is Some <==> (hub_url is Some && hub_api_key is Some && agent_id is Some
            && agent_public_url is Some),
        c.hub matches Some(h) ==> h.hub_url == hub_url->0 && h.api_key == hub_api_key->0
            && h.agent_id == agent_id->0 && h.agent_public_url == agent_public_url->0,
{
    let port = port_setting(&port, 7001);
    let hub = match (hub_url, hub_api_key, agent_id, agent_public_url) {
        (Some(hub_url), Some(api_key), Some(agent_id), Some(agent_public_url)) => Some(
            HubLinkConfig { hub_url, api_key, agent_id, agent_public_url },
        ),
        _ => None,
    };
    AgentConfig {
        host: text_setting(host, "0.0.0.0"),
        port,
        hub,
        disk_path: text_setting(disk_path, "/"),
    }
}

/// The address to listen on: the host, a colon and the port.
pub fn listen_address(host: &str, port: u16) -> (a: String)
    ensures
        a@ == host@ + seq![':'] + decimal(port as nat),
{
    let mut a = copy_str(host);
    push_char(&mut a, ':');
    write_decimal(&mut a, port as u64);
    a
}

} // verus!
