use fusion_executor::json::{render, Json};
use fusion_executor::server::{
    chmod_refused, default_sock_path, drain_connections, ensure_sock_dir, health_result, parse_shutdown_timeout, peer_uid_matches,
    probe_dependencies, probe_health_depth, probe_runtime, reload_extra_whitelist, reload_log_level, resolve_log_dir, resolve_sock,
    shells_near_limit, sock_dir, trusted_dirs, worker_count, Build, Depth, DirOutcome, DrainStep, RuntimeState, SHUTDOWN_DEADLINE,
};
use serde_json::Value;
use std::time::Duration;

fn seen(j: &Json) -> Value {
    serde_json::from_str(&render(j).unwrap()).unwrap()
}

fn depth() -> Depth {
    Depth { connections: 1, workers: worker_count(Some(8)), active_shells: 0, max_shells: 256, mem_mb: Json::UInt(12) }
}

fn build() -> Build {
    Build { version: "0.1.0".to_string(), git_sha: "abc".to_string(), build_time: "now".to_string() }
}

fn git() -> Option<(bool, String)> {
    Some((true, "git version 2.43.0\n".to_string()))
}

#[test]
fn mops03_shutdown_timeout_parse() {
    let parsed = |raw: Option<String>| Duration::from_secs(parse_shutdown_timeout(raw));
    let deadline = Duration::from_secs(SHUTDOWN_DEADLINE);
    assert_eq!(parsed(None), deadline);
    assert_eq!(parsed(Some("5".into())), Duration::from_secs(5));
    assert_eq!(parsed(Some("300".into())), Duration::from_secs(300));
    assert_eq!(parsed(Some("  42  ".into())), Duration::from_secs(42));
    assert_eq!(parsed(Some("0".into())), deadline);
    assert_eq!(parsed(Some("301".into())), deadline);
    assert_eq!(parsed(Some("99999".into())), deadline);
    assert_eq!(parsed(Some("abc".into())), deadline);
    assert_eq!(parsed(Some("".into())), deadline);
    assert_eq!(deadline, Duration::from_secs(10));
}

#[test]
fn health_ok() {
    let rt = probe_runtime(true, 16);
    let v = seen(&health_result(&build(), false, &rt, &git(), &depth()));
    assert_eq!(v["ok"], true);
    assert_eq!(v["seatbelt_default_on"], true);
    assert!(v["ax_trusted"].is_boolean(), "ax_trusted 应为布尔: {}", v["ax_trusted"]);
    assert_eq!(v["runtime"]["ok"], true, "runtime 应健康 (BLOCKING_RT 可响应): {}", v["runtime"]);
    assert!(
        matches!(v["runtime"]["state"].as_str(), Some("alive") | Some("busy")),
        "D2-2: runtime.state 应为 alive 或 busy (非 dead): {}",
        v["runtime"]
    );
    assert!(v["runtime"]["available_permits"].is_number(), "D2-2: runtime.available_permits 应为数字: {}", v["runtime"]);
    let deps = &v["dependencies"];
    assert!(deps.is_array(), "dependencies 应为数组: {}", deps);
    let git_dep = deps.as_array().unwrap().iter().find(|d| d["name"] == "git").expect("dependencies 应含 git");
    assert_eq!(git_dep["ok"], true, "git 依赖应健康: {}", git_dep);
    assert!(git_dep["version"].is_string(), "git 应报 version: {}", git_dep);
    assert_eq!(git_dep["version"], "git version 2.43.0");
    assert_eq!(v["version"], "0.1.0");
}

#[test]
fn health_depth_fields_present() {
    let depth = seen(&probe_health_depth(&depth()));
    assert!(depth.is_object(), "depth 应为对象: {}", depth);
    for key in ["connections", "workers", "active_shells", "max_shells", "mem_mb"] {
        assert!(depth.get(key).is_some(), "depth 缺字段 {key}: {depth}");
    }
    let conns = depth["connections"].as_u64();
    assert!(conns.is_some() && conns.unwrap() >= 1, "connections 应 >=1 (本次 RPC 在连): {depth}");
    let workers = depth["workers"].as_u64();
    assert!(workers.is_some() && workers.unwrap() >= 2, "workers 应 >=2: {depth}");
    assert_eq!(depth["max_shells"].as_u64(), Some(256), "max_shells 应为 256: {depth}");
    assert_eq!(depth["active_shells"].as_u64(), Some(0), "active_shells 应为 0: {depth}");
    let mem = depth["mem_mb"].as_f64();
    assert!(mem.is_some() && mem.unwrap() >= 0.0, "mem_mb 应 >=0: {depth}");
}

#[test]
fn busy_server_is_well() {
    let busy = probe_runtime(false, 0);
    assert_eq!(busy.state, RuntimeState::Busy);
    assert!(busy.healthy());
    assert_eq!(busy.state(), "busy");
    assert_eq!(seen(&health_result(&build(), true, &busy, &git(), &depth()))["ok"], true);
    let dead = probe_runtime(false, 3);
    assert!(!dead.healthy());
    assert_eq!(seen(&health_result(&build(), true, &dead, &git(), &depth()))["ok"], false);
    let alive = probe_runtime(true, 0);
    assert_eq!(alive.state(), "alive");
    assert_eq!(seen(&health_result(&build(), true, &alive, &None, &depth()))["ok"], false);
    assert_eq!(seen(&probe_dependencies(&Some((false, String::new()))))["ok"], false);
    assert!(seen(&probe_dependencies(&Some((true, " ".to_string())))).get("version").is_none());
}

#[test]
fn mops02_reload_extra_whitelist_parses_env() {
    assert_eq!(
        reload_extra_whitelist(Some(" sighup-tool-xyz ,,other-tool ")),
        vec!["sighup-tool-xyz".to_string(), "other-tool".to_string()]
    );
}

#[test]
fn mops02_reload_extra_whitelist_empty_clears_extras() {
    assert_eq!(reload_extra_whitelist(Some("temp-tool")), vec!["temp-tool".to_string()]);
    assert!(reload_extra_whitelist(None).is_empty());
    assert!(reload_extra_whitelist(Some(" , ")).is_empty());
}

#[test]
fn mops02_reload_log_level_reads_rust_log() {
    assert_eq!(reload_log_level(Some("debug")), "debug");
    assert_eq!(reload_log_level(None), "info");
}

#[test]
fn resolve_log_dir_respects_env() {
    assert_eq!(resolve_log_dir(Some("/tmp/fe-logging-test-env-xyz"), Some("/home/u")).as_deref(), Some("/tmp/fe-logging-test-env-xyz"));
}

#[test]
fn resolve_log_dir_defaults_to_home() {
    let d = resolve_log_dir(None, Some("/home/u")).expect("HOME 存在应返 Some");
    assert!(d.ends_with(".fusion-executor/logs"), "默认目录应指向 ~/.fusion-executor/logs, got {}", d);
    assert_eq!(resolve_log_dir(Some(""), Some("/home/u")).as_deref(), Some("/home/u/.fusion-executor/logs"));
    assert!(resolve_log_dir(None, Some("")).is_none());
    assert!(resolve_log_dir(None, None).is_none());
}

#[test]
fn msec01_peer_uid_same_uid_allowed() {
    assert!(peer_uid_matches(501, Some(501)));
    assert!(!peer_uid_matches(501, Some(0)));
    assert!(!peer_uid_matches(501, None));
}

#[test]
fn d38_serve_fails_when_sock_dir_not_tightenable() {
    let why = ensure_sock_dir("/ro/nope", &DirOutcome::NotMade("denied".to_string()));
    assert_eq!(why.as_deref(), Some("建 socket 私有目录失败 (D3-8 M-SEC-01): /ro/nope: denied"));
    let own = DirOutcome::NotClosed { pre_existing: false, errno: Some(1), why: "denied".to_string() };
    assert!(ensure_sock_dir("/own", &own).is_some());
    let io = DirOutcome::NotClosed { pre_existing: true, errno: Some(5), why: "io".to_string() };
    assert!(ensure_sock_dir("/own", &io).is_some());
    assert_eq!(chmod_refused("/s", "denied"), "chmod 0o600 socket 失败 (D3-8 企业硬化): /s: denied");
}

#[test]
fn d38_sock_hardening_ok_on_normal_path() {
    assert!(ensure_sock_dir("/own", &DirOutcome::Closed).is_none());
    let shared = DirOutcome::NotClosed { pre_existing: true, errno: Some(1), why: "denied".to_string() };
    assert!(ensure_sock_dir("/tmp", &shared).is_none());
    assert_eq!(sock_dir("/own/fe.sock").as_deref(), Some("/own"));
    assert!(sock_dir("fe.sock").is_none());
}

#[test]
fn sockets_are_named() {
    assert_eq!(default_sock_path(Some("/home/u")), "/home/u/.fusion-executor/fe.sock");
    assert_eq!(default_sock_path(None), "/tmp/fusion-executor.sock");
    assert_eq!(resolve_sock(Some("/given"), Some("/named"), None), "/given");
    assert_eq!(resolve_sock(Some(""), Some("/named"), None), "/named");
    assert_eq!(resolve_sock(None, None, Some("/h")), "/h/.fusion-executor/fe.sock");
}

#[test]
fn shutdown_drains_inflight_connection() {
    let deadline = SHUTDOWN_DEADLINE * 1_000_000_000;
    assert_eq!(drain_connections(deadline, 1_000_000_000), DrainStep::Wait { remain_ns: deadline - 1_000_000_000 });
    assert_eq!(drain_connections(deadline, deadline), DrainStep::Abort);
}

#[test]
fn machine_is_measured() {
    assert_eq!(worker_count(Some(1)), 2);
    assert_eq!(worker_count(None), 2);
    assert_eq!(worker_count(Some(12)), 12);
    assert!(shells_near_limit(205, 256));
    assert!(!shells_near_limit(204, 256));
    assert!(!shells_near_limit(0, 0));
    assert_eq!(trusted_dirs(Some("/v"), Some("/usr/local/bin/python3")), vec!["/v/bin".to_string(), "/usr/local/bin".to_string()]);
    assert!(trusted_dirs(None, None).is_empty());
}
