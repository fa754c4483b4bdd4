use schrodinger_compute::agent::config::{agent_config, listen_address};
use schrodinger_compute::agent::gpu::{
    cuda_version_of, detect_nvidia_gpu, gpu_query_args, gpu_rows, wants_cuda_banner,
};
use schrodinger_compute::agent::hub_link::{
    heartbeat_request, heartbeat_url, hub_link_step, register_request, register_url, LinkAction,
    LinkEvent, LinkPhase,
};
use schrodinger_compute::agent::resources::{
    bytes_to_mb, collect_resources, disk_for_path, disk_stats_for_path, health, kb_to_mb, ping,
    starts_with_path, utf8_length, DiskEntry,
};
use schrodinger_compute::agent::sessions::{
    docker_run_args, finish_start, finish_stop, list_sessions, start_session, stop_session,
    ws_attach_terminal, CommandOutcome, SessionStore,
};
use schrodinger_compute::agent::terminal::{
    docker_exec_args, terminal_action, TerminalAction, TerminalInput, INITIAL_COLS, INITIAL_ROWS,
};
use schrodinger_compute::agent::types::{
    ControlMsg, ResourceReport, StartSessionRequest, StopSessionRequest,
};
use schrodinger_compute::error::ErrorKind;
use schrodinger_compute::time::{elapsed_secs, Timestamp};

fn ts(secs: i64, nanos: u32) -> Timestamp {
    Timestamp { secs, nanos }
}

fn strings(v: &[&str]) -> Vec<String> {
    v.iter().map(|s| s.to_string()).collect()
}

#[test]
fn unit_conversions_round_down() {
    assert_eq!(kb_to_mb(2048), 2);
    assert_eq!(kb_to_mb(1023), 0);
    assert_eq!(kb_to_mb(u64::MAX), u64::MAX / 1024);
    assert_eq!(bytes_to_mb(3 * 1048576 + 5), 3);
    assert_eq!(bytes_to_mb(1048575), 0);
}

#[test]
fn ping_and_health_answers() {
    assert_eq!(ping(), "what's up");
    assert_eq!(health().status, "ok");
}

const QUERY_OUTPUT: &str = "NVIDIA GeForce RTX 3090, 24576, 1024, 23552, 5, 45, 30.50, 350.00, 535.104.05\n\
\n\
  Tesla T4 , 15360, 0, 15360, 0, [N/A], [N/A], 70.00, 535.104.05\r\n\
short, line\n";

#[test]
fn gpu_rows_read_each_listed_device() {
    let (gpus, driver) = gpu_rows(QUERY_OUTPUT);
    assert_eq!(gpus.len(), 2);
    assert_eq!(gpus[0].name, "NVIDIA GeForce RTX 3090");
    assert_eq!(gpus[0].memory_total_mib, 24576);
    assert_eq!(gpus[0].memory_used_mib, 1024);
    assert_eq!(gpus[0].memory_free_mib, 23552);
    assert_eq!(gpus[0].utilization_gpu_pct, 5);
    assert_eq!(gpus[0].temperature_c, Some(45));
    assert_eq!(gpus[0].power_draw_w.as_deref(), Some("30.50"));
    assert_eq!(gpus[0].power_limit_w.as_deref(), Some("350.00"));
    assert_eq!(gpus[1].name, "Tesla T4");
    assert_eq!(gpus[1].temperature_c, None);
    assert_eq!(gpus[1].power_draw_w.as_deref(), Some("[N/A]"));
    assert_eq!(driver.as_deref(), Some("535.104.05"));
}

#[test]
fn gpu_rows_unreadable_numbers_count_as_zero() {
    let (gpus, driver) = gpu_rows("X, lots, -1, 99999999999999999999, 101%, 300, a, b, \n");
    assert_eq!(gpus.len(), 1);
    assert_eq!(gpus[0].memory_total_mib, 0);
    assert_eq!(gpus[0].memory_used_mib, 0);
    assert_eq!(gpus[0].memory_free_mib, 0);
    assert_eq!(gpus[0].utilization_gpu_pct, 0);
    assert_eq!(gpus[0].temperature_c, Some(300));
    assert_eq!(driver, None);
}

#[test]
fn driver_version_comes_from_first_row_that_has_one() {
    let out = "A, 1, 1, 1, 1, 1, 1, 1, \nB, 2, 2, 2, 2, 2, 2, 2, 550.1\nC, 3, 3, 3, 3, 3, 3, 3, 560.2\n";
    let (gpus, driver) = gpu_rows(out);
    assert_eq!(gpus.len(), 3);
    assert_eq!(driver.as_deref(), Some("550.1"));
}

const BANNER: &str = "Mon Jan  1 00:00:00 2024\n\
+---------------------------------------------------------------------------------------+\n\
| NVIDIA-SMI 535.104.05             Driver Version: 535.104.05   CUDA Version: 12.2     |\n\
|-----------------------------------------+----------------------+----------------------+\n";

#[test]
fn cuda_version_is_read_from_banner() {
    assert_eq!(cuda_version_of(BANNER).as_deref(), Some("12.2"));
    assert_eq!(cuda_version_of("no cuda here\n"), None);
    assert_eq!(cuda_version_of("CUDA Version 12.2\nCUDA Version: 11.0\n"), None);
    assert_eq!(cuda_version_of("CUDA Version:    \n"), None);
    assert_eq!(cuda_version_of("x CUDA Version: 12.4 CUDA Version: 9"), Some("12.4".to_string()));
}

#[test]
fn detect_nvidia_gpu_assembles_gpu_information() {
    let info = detect_nvidia_gpu(Some(QUERY_OUTPUT), Some(BANNER)).unwrap();
    assert_eq!(info.kind, "nvidia");
    assert_eq!(info.count, 2);
    assert_eq!(info.gpus.len(), 2);
    assert_eq!(info.driver_version.as_deref(), Some("535.104.05"));
    assert_eq!(info.cuda_version.as_deref(), Some("12.2"));
    let no_banner = detect_nvidia_gpu(Some(QUERY_OUTPUT), None).unwrap();
    assert_eq!(no_banner.cuda_version, None);
}

#[test]
fn detect_nvidia_gpu_without_gpus_reports_none() {
    assert!(detect_nvidia_gpu(None, Some(BANNER)).is_none());
    assert!(detect_nvidia_gpu(Some(""), Some(BANNER)).is_none());
    assert!(detect_nvidia_gpu(Some("\n   \nshort, row\n"), Some(BANNER)).is_none());
}

#[test]
fn cuda_banner_is_wanted_only_when_gpus_are_listed() {
    assert!(wants_cuda_banner(Some(QUERY_OUTPUT)));
    assert!(!wants_cuda_banner(Some("")));
    assert!(!wants_cuda_banner(Some("\n   \nshort, row\n")));
    assert!(!wants_cuda_banner(None));
}

#[test]
fn gpu_query_asks_for_the_parsed_fields() {
    let args = gpu_query_args();
    assert_eq!(args.len(), 2);
    assert!(args[0].starts_with("--query-gpu=name,memory.total"));
    assert_eq!(args[1], "--format=csv,noheader,nounits");
}

#[test]
fn paths_compare_by_components() {
    assert!(starts_with_path("/home/user/data", "/"));
    assert!(starts_with_path("/home/user/data", "/home"));
    assert!(starts_with_path("/home/user/data", "/home/"));
    assert!(starts_with_path("/home//user/./data", "/home/user"));
    assert!(!starts_with_path("/home/user/data", "/ho"));
    assert!(!starts_with_path("/home", "/home/user"));
    assert!(!starts_with_path("home/user", "/home"));
    assert!(starts_with_path("./a/b", "."));
    assert!(starts_with_path("a/./b", "a/b"));
    assert!(!starts_with_path("a/b", "./a"));
    assert!(starts_with_path("/", "/"));
}

#[test]
fn utf8_length_counts_bytes() {
    assert_eq!(utf8_length("/mnt"), 4);
    assert_eq!(utf8_length("/é"), 3);
    assert_eq!(utf8_length("€"), 3);
    assert_eq!(utf8_length("😀"), 4);
}

fn disk(mount: &str, avail: u64, total: u64) -> DiskEntry {
    DiskEntry { mount_point: mount.to_string(), available_bytes: avail, total_bytes: total }
}

#[test]
fn disk_stats_pick_the_longest_mount_that_holds_the_path() {
    let mb = 1048576;
    let disks = vec![
        disk("/", 10 * mb, 100 * mb),
        disk("/home/user", 3 * mb, 30 * mb),
        disk("/home", 5 * mb, 50 * mb),
        disk("/home/username", 7 * mb, 70 * mb),
    ];
    assert_eq!(disk_for_path("/home/user/x", &disks), Some(1));
    assert_eq!(disk_stats_for_path("/home/user/x", &disks), (3, 30));
    assert_eq!(disk_stats_for_path("/home/other", &disks), (5, 50));
    assert_eq!(disk_stats_for_path("/var", &disks), (10, 100));
    assert_eq!(disk_stats_for_path("relative", &disks), (0, 0));
    assert_eq!(disk_stats_for_path("/x", &Vec::new()), (0, 0));
}

#[test]
fn disk_stats_tie_keeps_the_first_listed() {
    let mb = 1048576;
    let disks = vec![disk("/data", 1 * mb, 2 * mb), disk("/data", 3 * mb, 4 * mb)];
    assert_eq!(disk_stats_for_path("/data/a", &disks), (1, 2));
    let bytes_longer = vec![disk("/a////", 1 * mb, 1 * mb), disk("/a/üü", 2 * mb, 2 * mb)];
    assert_eq!(disk_stats_for_path("/a/üü/x", &bytes_longer), (2, 2));
}

#[test]
fn collect_resources_builds_the_report() {
    let disks = vec![disk("/", 2 * 1048576, 8 * 1048576)];
    let r: ResourceReport = collect_resources("/srv", 4096 * 1048576 + 1048575, 2048 * 1048576, 8, &disks, None);
    assert_eq!(r.ram_total_mb, 4096);
    assert_eq!(r.ram_free_mb, 2048);
    assert_eq!(r.cpu_cores, 8);
    assert_eq!(r.disk_free_mb, 2);
    assert_eq!(r.disk_total_mb, 8);
    assert_eq!(r.disk_path, "/srv");
    assert!(r.gpu.is_none());
}

fn start_request(image: &str, gpu: Option<bool>, cmd: Option<Vec<String>>) -> StartSessionRequest {
    StartSessionRequest { image: image.to_string(), requires_gpu: gpu, cmd }
}

#[test]
fn docker_run_args_default_command() {
    let args = docker_run_args("abc", &start_request("ubuntu:22.04", None, None));
    assert_eq!(
        args,
        strings(&["run", "-d", "--name", "sc-abc", "ubuntu:22.04", "sh", "-lc", "sleep 360000"])
    );
}

#[test]
fn docker_run_args_with_gpus_and_command() {
    let cmd = Some(strings(&["python", "train.py"]));
    let args = docker_run_args("id1", &start_request("pytorch", Some(true), cmd));
    assert_eq!(
        args,
        strings(&["run", "-d", "--name", "sc-id1", "--gpus", "all", "pytorch", "python", "train.py"])
    );
    let no_gpu = docker_run_args("id1", &start_request("img", Some(false), Some(Vec::new())));
    assert_eq!(no_gpu, strings(&["run", "-d", "--name", "sc-id1", "img"]));
}

#[test]
fn start_session_draws_a_random_uuid() {
    let req = start_request("alpine", None, None);
    let a = start_session(&req);
    let b = start_session(&req);
    assert_ne!(a.session_id, b.session_id);
    for id in [&a.session_id, &b.session_id] {
        assert_eq!(id.len(), 36);
        let chars: Vec<char> = id.chars().collect();
        for (i, c) in chars.iter().enumerate() {
            if i == 8 || i == 13 || i == 18 || i == 23 {
                assert_eq!(*c, '-');
            } else {
                assert!(c.is_ascii_hexdigit() && !c.is_ascii_uppercase());
            }
        }
        assert_eq!(chars[14], '4');
        assert!("89ab".contains(chars[19]));
    }
    assert_eq!(a.args[3], format!("sc-{}", a.session_id));
}

fn finished(success: bool, stdout: &str, stderr: &str) -> CommandOutcome {
    CommandOutcome::Finished { success, stdout: stdout.to_string(), stderr: stderr.to_string() }
}

#[test]
fn finish_start_records_the_trimmed_container_id() {
    let mut store = SessionStore::new();
    let resp = finish_start(&mut store, "s1".to_string(), finished(true, "  c0ffee\n", ""), ts(100, 0))
        .unwrap();
    assert_eq!(resp.session_id, "s1");
    assert_eq!(resp.container_id, "c0ffee");
    assert_eq!(ws_attach_terminal(&store, &"s1".to_string()).unwrap(), "c0ffee");
}

#[test]
fn finish_start_reports_docker_failures() {
    let mut store = SessionStore::new();
    let e = finish_start(
        &mut store,
        "s1".to_string(),
        CommandOutcome::NotRun { error: "no such file".to_string() },
        ts(1, 0),
    )
    .unwrap_err();
    assert_eq!(e.kind, ErrorKind::InternalServerError);
    assert_eq!(e.kind.status_code(), 500);
    assert_eq!(e.message, "failed to run docker: no such file");
    let e = finish_start(&mut store, "s1".to_string(), finished(false, "", "bad image"), ts(1, 0))
        .unwrap_err();
    assert_eq!(e.kind, ErrorKind::BadRequest);
    assert_eq!(e.kind.status_code(), 400);
    assert_eq!(e.message, "docker run failed: bad image");
    assert_eq!(store.sessions.len(), 0);
}

#[test]
fn stop_session_removes_and_names_the_container() {
    let mut store = SessionStore::new();
    finish_start(&mut store, "s1".to_string(), finished(true, "cid1", ""), ts(5, 0)).unwrap();
    let plan = stop_session(&mut store, &StopSessionRequest { session_id: "s1".to_string() }).unwrap();
    assert_eq!(plan.info.container_id, "cid1");
    assert_eq!(plan.args, strings(&["rm", "-f", "cid1"]));
    assert_eq!(store.sessions.len(), 0);
    let again = stop_session(&mut store, &StopSessionRequest { session_id: "s1".to_string() });
    let e = again.unwrap_err();
    assert_eq!(e.kind, ErrorKind::NotFound);
    assert_eq!(e.kind.status_code(), 404);
    assert_eq!(e.message, "unknown session_id");
}

#[test]
fn start_then_stop_leaves_the_store_as_it_was() {
    let mut store = SessionStore::new();
    finish_start(&mut store, "a".to_string(), finished(true, "ca", ""), ts(1, 0)).unwrap();
    finish_start(&mut store, "b".to_string(), finished(true, "cb", ""), ts(2, 0)).unwrap();
    stop_session(&mut store, &StopSessionRequest { session_id: "b".to_string() }).unwrap();
    let listed = list_sessions(&store, ts(3, 0)).sessions;
    assert_eq!(listed.len(), 1);
    assert_eq!(listed[0].session_id, "a");
    assert_eq!(listed[0].container_id, "ca");
}

#[test]
fn finish_stop_outcomes() {
    assert!(finish_stop(finished(true, "", "")).unwrap().stopped);
    let e = finish_stop(finished(false, "", "no such container")).unwrap_err();
    assert_eq!(e.kind, ErrorKind::BadRequest);
    assert_eq!(e.message, "docker rm -f failed: no such container");
    let e = finish_stop(CommandOutcome::NotRun { error: "gone".to_string() }).unwrap_err();
    assert_eq!(e.kind, ErrorKind::InternalServerError);
    assert_eq!(e.message, "failed to stop docker: gone");
}

#[test]
fn list_sessions_oldest_first_with_uptime() {
    let mut store = SessionStore::new();
    finish_start(&mut store, "new".to_string(), finished(true, "c2", ""), ts(100, 0)).unwrap();
    finish_start(&mut store, "old".to_string(), finished(true, "c1", ""), ts(50, 0)).unwrap();
    finish_start(&mut store, "mid".to_string(), finished(true, "c3", ""), ts(50, 10)).unwrap();
    let listed = list_sessions(&store, ts(160, 500_000_000)).sessions;
    let ids: Vec<&str> = listed.iter().map(|s| s.session_id.as_str()).collect();
    assert_eq!(ids, vec!["old", "mid", "new"]);
    assert_eq!(listed[0].uptime_secs, 110);
    assert_eq!(listed[1].uptime_secs, 110);
    assert_eq!(listed[2].uptime_secs, 60);
    assert_eq!(listed[2].created_at, ts(100, 0));
}

#[test]
fn elapsed_seconds_round_toward_zero() {
    assert_eq!(elapsed_secs(ts(10, 0), ts(11, 500_000_000)), -1);
    assert_eq!(elapsed_secs(ts(11, 500_000_000), ts(10, 0)), 1);
    assert_eq!(elapsed_secs(ts(10, 0), ts(10, 0)), 0);
    assert_eq!(elapsed_secs(ts(10, 0), ts(9, 999_999_999)), 0);
    assert_eq!(elapsed_secs(ts(i64::MAX, 0), ts(i64::MIN, 0)), i64::MAX);
}

#[test]
fn attach_to_unknown_session_is_refused() {
    let store = SessionStore::new();
    let e = ws_attach_terminal(&store, &"nope".to_string()).unwrap_err();
    assert_eq!(e.kind, ErrorKind::NotFound);
    assert_eq!(e.message, "unknown session id");
}

#[test]
fn terminal_opens_a_shell_in_the_container() {
    assert_eq!(
        docker_exec_args("cid"),
        strings(&["exec", "-it", "cid", "sh", "-lc", "export TERM=xterm-256color; exec sh"])
    );
    assert_eq!((INITIAL_ROWS, INITIAL_COLS), (24, 80));
}

#[test]
fn terminal_actions() {
    match terminal_action(TerminalInput::Binary(vec![1, 2, 3])) {
        TerminalAction::Forward { bytes, end_if_undelivered } => {
            assert_eq!(bytes, vec![1, 2, 3]);
            assert!(end_if_undelivered);
        }
        other => panic!("unexpected {:?}", other),
    }
    match terminal_action(TerminalInput::Text { text: "ls é".to_string(), control: None }) {
        TerminalAction::Forward { bytes, end_if_undelivered } => {
            assert_eq!(bytes, "ls é\n".as_bytes().to_vec());
            assert!(!end_if_undelivered);
        }
        other => panic!("unexpected {:?}", other),
    }
    let resize = TerminalInput::Text {
        text: "{\"type\":\"resize\",\"cols\":100,\"rows\":30}".to_string(),
        control: Some(ControlMsg::Resize { cols: 100, rows: 30 }),
    };
    assert!(matches!(terminal_action(resize), TerminalAction::Resize { rows: 30, cols: 100 }));
    assert!(matches!(terminal_action(TerminalInput::Close), TerminalAction::Stop));
    assert!(matches!(terminal_action(TerminalInput::Failed), TerminalAction::Stop));
    assert!(matches!(terminal_action(TerminalInput::Other), TerminalAction::Ignore));
}

#[test]
fn hub_link_registers_until_accepted_then_beats() {
    let (p, a) = hub_link_step(LinkPhase::Registering, LinkEvent::Started);
    assert_eq!((p, a), (LinkPhase::Registering, LinkAction::SendRegister));
    let (p, a) = hub_link_step(p, LinkEvent::Answered { status: 401 });
    assert_eq!((p, a), (LinkPhase::Registering, LinkAction::Sleep { secs: 2 }));
    let (p, a) = hub_link_step(p, LinkEvent::Slept);
    assert_eq!((p, a), (LinkPhase::Registering, LinkAction::SendRegister));
    let (p, a) = hub_link_step(p, LinkEvent::Unreachable);
    assert_eq!((p, a), (LinkPhase::Registering, LinkAction::Sleep { secs: 2 }));
    let (p, a) = hub_link_step(p, LinkEvent::Answered { status: 200 });
    assert_eq!((p, a), (LinkPhase::Registered, LinkAction::SendHeartbeat));
    let (p, a) = hub_link_step(p, LinkEvent::Answered { status: 500 });
    assert_eq!((p, a), (LinkPhase::Registered, LinkAction::Sleep { secs: 2 }));
    let (p, a) = hub_link_step(p, LinkEvent::Slept);
    assert_eq!((p, a), (LinkPhase::Registered, LinkAction::SendHeartbeat));
    let (p, _) = hub_link_step(p, LinkEvent::Unreachable);
    assert_eq!(p, LinkPhase::Registered);
    assert_eq!(
        hub_link_step(LinkPhase::Registering, LinkEvent::Answered { status: 299 }).0,
        LinkPhase::Registered
    );
    assert_eq!(
        hub_link_step(LinkPhase::Registering, LinkEvent::Answered { status: 300 }).0,
        LinkPhase::Registering
    );
}

/// Runs the link through `answers`, one per request it sends, sleeping
/// whenever asked; returns the actions taken.
fn run_link(answers: &[LinkEvent]) -> Vec<LinkAction> {
    let mut actions = Vec::new();
    let (mut phase, mut action) = hub_link_step(LinkPhase::Registering, LinkEvent::Started);
    let mut next = 0;
    while next < answers.len() {
        actions.push(action);
        let event = match action {
            LinkAction::Sleep { .. } => LinkEvent::Slept,
            _ => {
                next += 1;
                answers[next - 1]
            }
        };
        let (p, a) = hub_link_step(phase, event);
        phase = p;
        action = a;
    }
    actions.push(action);
    actions
}

#[test]
fn hub_link_sends_one_registration_per_attempt_and_then_only_heartbeats() {
    let answers = [
        LinkEvent::Unreachable,
        LinkEvent::Answered { status: 503 },
        LinkEvent::Answered { status: 401 },
        LinkEvent::Answered { status: 201 },
        LinkEvent::Answered { status: 500 },
        LinkEvent::Unreachable,
        LinkEvent::Answered { status: 200 },
    ];
    let actions = run_link(&answers);
    let registers = actions.iter().filter(|a| **a == LinkAction::SendRegister).count();
    assert_eq!(registers, 4);
    let first_beat = actions.iter().position(|a| *a == LinkAction::SendHeartbeat).unwrap();
    assert_eq!(first_beat, 7);
    assert!(actions[first_beat..].iter().all(|a| *a != LinkAction::SendRegister));
    let beats = actions.iter().filter(|a| **a == LinkAction::SendHeartbeat).count();
    assert_eq!(beats, 3);
    for (i, a) in actions[..first_beat].iter().enumerate() {
        if i % 2 == 0 {
            assert_eq!(*a, LinkAction::SendRegister);
        } else {
            assert_eq!(*a, LinkAction::Sleep { secs: 2 });
        }
    }
}

#[test]
fn hub_link_messages() {
    assert_eq!(register_url("http://hub:8001"), "http://hub:8001/v1/agents/register");
    assert_eq!(heartbeat_url("http://hub:8001"), "http://hub:8001/v1/agents/heartbeat");
    let r = register_request("a1", "http://a1:7001");
    assert_eq!((r.agent_id.as_str(), r.agent_url.as_str()), ("a1", "http://a1:7001"));
    let report = collect_resources("/", 0, 0, 1, &Vec::new(), None);
    let h = heartbeat_request("a1", report);
    assert_eq!(h.agent_id, "a1");
    assert_eq!(h.resources.unwrap().cpu_cores, 1);
}

#[test]
fn agent_config_defaults_and_overrides() {
    let c = agent_config(None, None, None, None, None, None, None);
    assert_eq!(c.host, "0.0.0.0");
    assert_eq!(c.port, 7001);
    assert_eq!(c.disk_path, "/");
    assert!(c.hub.is_none());
    let s = |x: &str| Some(x.to_string());
    let c = agent_config(s("127.0.0.1"), s("+8080"), s("http://hub"), s("k"), s("id"), s("http://me"), s("/data"));
    assert_eq!(c.host, "127.0.0.1");
    assert_eq!(c.port, 8080);
    assert_eq!(c.disk_path, "/data");
    let hub = c.hub.unwrap();
    assert_eq!(hub.hub_url, "http://hub");
    assert_eq!(hub.api_key, "k");
    assert_eq!(hub.agent_id, "id");
    assert_eq!(hub.agent_public_url, "http://me");
    assert_eq!(agent_config(None, s("70000"), None, None, None, None, None).port, 7001);
    assert_eq!(agent_config(None, s(" 80"), None, None, None, None, None).port, 7001);
    assert!(agent_config(None, None, s("h"), s("k"), s("i"), None, None).hub.is_none());
    assert_eq!(listen_address("0.0.0.0", 7001), "0.0.0.0:7001");
}
