use schrodinger_compute::agent::types::{GpuInfo, ResourceReport};
use schrodinger_compute::error::ErrorKind;
use schrodinger_compute::hub::auth::{check_api_key, AUTH_HEADER};
use schrodinger_compute::hub::config::{hub_config, ping};
use schrodinger_compute::hub::registry::{heartbeat, register_agent, NodeRegistry};
use schrodinger_compute::hub::sessions::{
    create_session, delete_session, finish_create, finish_delete, list_sessions, SessionTable,
    StartReply, StopReply,
};
use schrodinger_compute::hub::types::{
    AgentStartSessionResponse, CreateSessionRequest, HeartbeatRequest, NodeStatus, RegisterRequest,
};
use schrodinger_compute::numbers::{parse_i64, parse_u16, parse_u32, parse_u64, write_decimal, write_signed_decimal};
use schrodinger_compute::time::Timestamp;

const KEY: &str = "dev-secret";

fn ts(secs: i64) -> Timestamp {
    Timestamp { secs, nanos: 0 }
}

fn key() -> Option<String> {
    Some(KEY.to_string())
}

fn report(ram_free_mb: u64, gpu: bool) -> ResourceReport {
    ResourceReport {
        ram_total_mb: 64000,
        ram_free_mb,
        cpu_cores: 16,
        disk_free_mb: 1,
        disk_total_mb: 2,
        disk_path: "/".to_string(),
        gpu: if gpu {
            Some(GpuInfo {
                kind: "nvidia".to_string(),
                count: 0,
                driver_version: None,
                cuda_version: None,
                gpus: Vec::new(),
            })
        } else {
            None
        },
    }
}

fn register(reg: &mut NodeRegistry, id: &str, now: i64) -> bool {
    let req = RegisterRequest { agent_id: id.to_string(), agent_url: format!("http://{}:7001", id) };
    register_agent(reg, &key(), KEY, &req, ts(now)).unwrap()
}

fn beat(reg: &mut NodeRegistry, id: &str, now: i64, r: Option<ResourceReport>) {
    let req = HeartbeatRequest { agent_id: id.to_string(), resources: r };
    heartbeat(reg, &key(), KEY, req, ts(now)).unwrap();
}

#[test]
fn api_key_check() {
    assert_eq!(AUTH_HEADER, "x-api-key");
    assert!(check_api_key(&key(), KEY).is_ok());
    let e = check_api_key(&Some("wrong".to_string()), KEY).unwrap_err();
    assert_eq!(e.kind, ErrorKind::Unauthorized);
    assert_eq!(e.kind.status_code(), 401);
    assert_eq!(e.message, "invalid api key");
    assert!(check_api_key(&None, KEY).is_err());
    assert!(check_api_key(&None, "").is_ok());
}

#[test]
fn registration_is_an_upsert() {
    let mut reg = NodeRegistry::new();
    assert!(!register(&mut reg, "n1", 10));
    beat(&mut reg, "n1", 11, Some(report(100, false)));
    assert!(register(&mut reg, "n1", 12));
    let agents = reg.list_agents();
    assert_eq!(agents.len(), 1);
    assert_eq!(agents[0].id, "n1");
    assert_eq!(agents[0].url, "http://n1:7001");
    assert_eq!(agents[0].status, NodeStatus::Up);
    assert_eq!(agents[0].last_seen, ts(12));
    assert!(agents[0].resources.is_none());
    assert!(agents[0].last_error.is_none());
}

#[test]
fn registration_needs_the_key() {
    let mut reg = NodeRegistry::new();
    let req = RegisterRequest { agent_id: "n1".to_string(), agent_url: "u".to_string() };
    let e = register_agent(&mut reg, &None, KEY, &req, ts(1)).unwrap_err();
    assert_eq!(e.kind, ErrorKind::Unauthorized);
    assert_eq!(reg.list_agents().len(), 0);
}

#[test]
fn heartbeat_from_unknown_agent_is_refused() {
    let mut reg = NodeRegistry::new();
    let req = HeartbeatRequest { agent_id: "ghost".to_string(), resources: None };
    let e = heartbeat(&mut reg, &key(), KEY, req, ts(1)).unwrap_err();
    assert_eq!(e.kind, ErrorKind::NotFound);
    assert_eq!(e.message, "agent not registered");
    assert_eq!(reg.list_agents().len(), 0);
}

#[test]
fn heartbeat_keeps_resources_when_none_are_reported() {
    let mut reg = NodeRegistry::new();
    register(&mut reg, "n1", 0);
    beat(&mut reg, "n1", 1, Some(report(500, true)));
    beat(&mut reg, "n1", 2, None);
    let a = &reg.list_agents()[0];
    assert_eq!(a.last_seen, ts(2));
    assert_eq!(a.resources.as_ref().unwrap().ram_free_mb, 500);
}

#[test]
fn stale_agents_go_down_and_heartbeats_revive_them() {
    let mut reg = NodeRegistry::new();
    register(&mut reg, "old", 0);
    register(&mut reg, "fresh", 95);
    reg.mark_stale_nodes(ts(100), 8);
    let agents = reg.list_agents();
    assert_eq!(agents[0].id, "fresh");
    assert_eq!(agents[0].status, NodeStatus::Up);
    assert!(agents[0].last_error.is_none());
    assert_eq!(agents[1].id, "old");
    assert_eq!(agents[1].status, NodeStatus::Down);
    assert_eq!(agents[1].last_error.as_deref(), Some("stale heartbeat: 100s"));
    reg.mark_stale_nodes(ts(100), 8);
    assert_eq!(reg.list_agents()[1].last_error.as_deref(), Some("stale heartbeat: 100s"));
    beat(&mut reg, "old", 101, None);
    reg.mark_stale_nodes(ts(101), 8);
    let revived = &reg.list_agents()[1];
    assert_eq!(revived.status, NodeStatus::Up);
    assert!(revived.last_error.is_none());
}

#[test]
fn registered_agent_is_never_dropped() {
    let mut reg = NodeRegistry::new();
    register(&mut reg, "a", 0);
    reg.mark_stale_nodes(ts(1000), 8);
    register(&mut reg, "b", 1000);
    let bad = Some("wrong".to_string());
    let req = HeartbeatRequest { agent_id: "a".to_string(), resources: None };
    assert_eq!(heartbeat(&mut reg, &bad, KEY, req, ts(1001)).unwrap_err().kind, ErrorKind::Unauthorized);
    reg.mark_stale_nodes(ts(2000), 8);
    let req = HeartbeatRequest { agent_id: "missing".to_string(), resources: None };
    assert!(heartbeat(&mut reg, &key(), KEY, req, ts(2000)).is_err());
    let req = HeartbeatRequest { agent_id: "a".to_string(), resources: Some(report(7, false)) };
    assert!(heartbeat(&mut reg, &key(), KEY, req, ts(2001)).is_ok());
    let agents = reg.list_agents();
    assert_eq!(agents.len(), 2);
    assert_eq!(agents[0].id, "a");
    assert_eq!(agents[0].status, NodeStatus::Up);
    assert_eq!(agents[0].last_seen, ts(2001));
    assert!(agents[0].last_error.is_none());
    assert_eq!(agents[1].status, NodeStatus::Down);
}

#[test]
fn staleness_limit_is_exclusive() {
    let mut reg = NodeRegistry::new();
    register(&mut reg, "n", 0);
    reg.mark_stale_nodes(ts(8), 8);
    assert_eq!(reg.list_agents()[0].status, NodeStatus::Up);
    reg.mark_stale_nodes(ts(9), 8);
    assert_eq!(reg.list_agents()[0].status, NodeStatus::Down);
    let mut future = NodeRegistry::new();
    register(&mut future, "f", 50);
    future.mark_stale_nodes(ts(0), -100);
    assert_eq!(future.list_agents()[0].last_error.as_deref(), Some("stale heartbeat: -50s"));
}

#[test]
fn agents_are_listed_by_id() {
    let mut reg = NodeRegistry::new();
    for id in ["b", "a", "ab", "B", "é", "aa"] {
        register(&mut reg, id, 0);
    }
    let ids: Vec<String> = reg.list_agents().into_iter().map(|n| n.id).collect();
    let mut expected: Vec<String> = ["b", "a", "ab", "B", "é", "aa"].iter().map(|s| s.to_string()).collect();
    expected.sort();
    assert_eq!(ids, expected);
}

#[test]
fn pick_node_prefers_most_free_memory() {
    let mut reg = NodeRegistry::new();
    register(&mut reg, "small", 0);
    register(&mut reg, "big", 0);
    register(&mut reg, "gpu", 0);
    register(&mut reg, "bare", 0);
    beat(&mut reg, "small", 0, Some(report(100, false)));
    beat(&mut reg, "big", 0, Some(report(900, false)));
    beat(&mut reg, "gpu", 0, Some(report(300, true)));
    assert_eq!(reg.pick_node(false).unwrap().id, "big");
    assert_eq!(reg.pick_node(true).unwrap().id, "gpu");
    reg.mark_stale_nodes(ts(100), 8);
    assert!(reg.pick_node(false).is_none());
    assert!(reg.pick_node(true).is_none());
}

#[test]
fn pick_node_counts_missing_reports_as_no_memory() {
    let mut reg = NodeRegistry::new();
    register(&mut reg, "bare", 0);
    assert_eq!(reg.pick_node(false).unwrap().id, "bare");
    assert!(reg.pick_node(true).is_none());
}

fn create_request(gpu: Option<bool>) -> CreateSessionRequest {
    CreateSessionRequest {
        image: "ubuntu".to_string(),
        requires_gpu: gpu,
        cmd: Some(vec!["bash".to_string()]),
    }
}

#[test]
fn create_session_plans_on_the_best_node() {
    let mut reg = NodeRegistry::new();
    register(&mut reg, "n1", 0);
    beat(&mut reg, "n1", 0, Some(report(10, false)));
    let plan = create_session(&reg, &key(), KEY, &create_request(None)).unwrap();
    assert_eq!(plan.node.id, "n1");
    assert_eq!(plan.start_url, "http://n1:7001/v1/sessions/start");
    assert_eq!(plan.body.image, "ubuntu");
    assert_eq!(plan.body.requires_gpu, Some(false));
    assert_eq!(plan.body.cmd, Some(vec!["bash".to_string()]));
    assert!(!plan.requires_gpu);
    let e = create_session(&reg, &key(), KEY, &create_request(Some(true))).unwrap_err();
    assert_eq!(e.kind, ErrorKind::ServiceUnavailable);
    assert_eq!(e.kind.status_code(), 503);
    assert_eq!(e.message, "no eligible nodes");
    let e = create_session(&reg, &None, KEY, &create_request(None)).unwrap_err();
    assert_eq!(e.kind, ErrorKind::Unauthorized);
}

fn started(id: &str, container: &str) -> StartReply {
    StartReply::Answered {
        status: 200,
        body: String::new(),
        parsed: Ok(AgentStartSessionResponse {
            session_id: id.to_string(),
            container_id: container.to_string(),
        }),
    }
}

fn one_node_registry() -> NodeRegistry {
    let mut reg = NodeRegistry::new();
    register(&mut reg, "n1", 0);
    reg
}

#[test]
fn finish_create_records_started_sessions() {
    let reg = one_node_registry();
    let mut table = SessionTable::new();
    let plan = create_session(&reg, &key(), KEY, &create_request(None)).unwrap();
    let rec = finish_create(&mut table, plan, started("s1", "c1"), ts(42)).unwrap();
    assert_eq!(rec.session_id, "s1");
    assert_eq!(rec.node_id, "n1");
    assert_eq!(rec.agent_url, "http://n1:7001");
    assert_eq!(rec.container_id, "c1");
    assert_eq!(rec.image, "ubuntu");
    assert!(!rec.requires_gpu);
    assert_eq!(rec.created_at, ts(42));
    assert_eq!(rec.running_for_secs, 0);
    let listed = list_sessions(&table);
    assert_eq!(listed.len(), 1);
    assert_eq!(listed[0].session_id, "s1");
}

#[test]
fn finish_create_reports_agent_failures() {
    let reg = one_node_registry();
    let mut table = SessionTable::new();
    let plan = create_session(&reg, &key(), KEY, &create_request(None)).unwrap();
    let e = finish_create(&mut table, plan, StartReply::Unreachable { error: "timeout".to_string() }, ts(1))
        .unwrap_err();
    assert_eq!(e.kind, ErrorKind::BadGateway);
    assert_eq!(e.kind.status_code(), 502);
    assert_eq!(e.message, "agent unreachable: timeout");
    let plan = create_session(&reg, &key(), KEY, &create_request(None)).unwrap();
    let reply = StartReply::Answered { status: 400, body: "docker run failed: x".to_string(), parsed: Err("n/a".to_string()) };
    let e = finish_create(&mut table, plan, reply, ts(1)).unwrap_err();
    assert_eq!(e.message, "agent error: docker run failed: x");
    let plan = create_session(&reg, &key(), KEY, &create_request(None)).unwrap();
    let reply = StartReply::Answered { status: 200, body: "{".to_string(), parsed: Err("EOF".to_string()) };
    let e = finish_create(&mut table, plan, reply, ts(1)).unwrap_err();
    assert_eq!(e.message, "bad agent json: EOF");
    assert_eq!(list_sessions(&table).len(), 0);
}

#[test]
fn sessions_are_listed_oldest_first() {
    let reg = one_node_registry();
    let mut table = SessionTable::new();
    for (id, t) in [("late", 30), ("early", 10), ("middle", 20)] {
        let plan = create_session(&reg, &key(), KEY, &create_request(None)).unwrap();
        finish_create(&mut table, plan, started(id, "c"), ts(t)).unwrap();
    }
    let ids: Vec<String> = list_sessions(&table).into_iter().map(|r| r.session_id).collect();
    assert_eq!(ids, vec!["early", "middle", "late"]);
}

#[test]
fn delete_session_flow() {
    let reg = one_node_registry();
    let mut table = SessionTable::new();
    let plan = create_session(&reg, &key(), KEY, &create_request(None)).unwrap();
    finish_create(&mut table, plan, started("s1", "c1"), ts(1)).unwrap();
    let id = "s1".to_string();
    let d = delete_session(&table, &key(), KEY, &id).unwrap();
    assert_eq!(d.session_id, "s1");
    assert_eq!(d.stop_url, "http://n1:7001/v1/sessions/stop");
    let e = finish_delete(&mut table, &id, StopReply::Answered { status: 404, body: "unknown session_id".to_string() })
        .unwrap_err();
    assert_eq!(e.kind, ErrorKind::BadGateway);
    assert_eq!(e.message, "agent stop failed: unknown session_id");
    assert_eq!(list_sessions(&table).len(), 1);
    let e = finish_delete(&mut table, &id, StopReply::Unreachable { error: "refused".to_string() }).unwrap_err();
    assert_eq!(e.message, "agent unreachable: refused");
    assert!(finish_delete(&mut table, &id, StopReply::Answered { status: 200, body: String::new() }).is_ok());
    assert_eq!(list_sessions(&table).len(), 0);
    let e = delete_session(&table, &key(), KEY, &id).unwrap_err();
    assert_eq!(e.kind, ErrorKind::NotFound);
    assert_eq!(e.message, "unknown session_id");
    let e = delete_session(&table, &Some("bad".to_string()), KEY, &id).unwrap_err();
    assert_eq!(e.kind, ErrorKind::Unauthorized);
}

#[test]
fn hub_config_defaults_and_overrides() {
    let c = hub_config(None, None, None, None);
    assert_eq!(c.host, "0.0.0.0");
    assert_eq!(c.port, 8001);
    assert_eq!(c.api_key, "dev-secret");
    assert_eq!(c.stale_secs, 8);
    let s = |x: &str| Some(x.to_string());
    let c = hub_config(s("::"), s("9000"), s("k"), s("-3"));
    assert_eq!((c.host.as_str(), c.port, c.api_key.as_str(), c.stale_secs), ("::", 9000, "k", -3));
    assert_eq!(hub_config(None, None, None, s("ten")).stale_secs, 8);
    assert_eq!(ping(), "ok");
}

#[test]
fn number_parsing_matches_std() {
    for s in ["0", "+12", "007", "18446744073709551615", "18446744073709551616", "", "+", "-1", " 1", "1a", "-0"] {
        assert_eq!(parse_u64(s), s.parse::<u64>().ok(), "u64 {:?}", s);
        assert_eq!(parse_u32(s), s.parse::<u32>().ok(), "u32 {:?}", s);
        assert_eq!(parse_u16(s), s.parse::<u16>().ok(), "u16 {:?}", s);
    }
    for s in ["0", "-0", "+5", "-9223372036854775808", "9223372036854775807", "9223372036854775808", "-9223372036854775809", "-", "+", "--1", "-+1", "x"] {
        assert_eq!(parse_i64(s), s.parse::<i64>().ok(), "i64 {:?}", s);
    }
}

#[test]
fn decimal_text_matches_display() {
    for n in [0u64, 7, 10, 99, 100, 12345, u64::MAX] {
        let mut s = String::new();
        write_decimal(&mut s, n);
        assert_eq!(s, n.to_string());
        assert_eq!(parse_u64(&s), Some(n));
    }
    for i in [0i64, -1, 42, -42, i64::MIN, i64::MAX] {
        let mut s = String::from("x");
        write_signed_decimal(&mut s, i);
        assert_eq!(s, format!("x{}", i));
        assert_eq!(parse_i64(&s[1..]), Some(i));
    }
}
