use fusion_executor::connection::{ConnStep, Connection};
use fusion_executor::execution::ExecutionResult;
use fusion_executor::frames::{
    dispatch_request, drop_frame, err_resp, err_str, notification, ok_resp, push_line, receive, reply, reply_line, request_from, write_line, Drop, Incoming, LineReader,
    LineStep, Route, ERR_INTERNAL, ERR_INVALID_REQ, ERR_METHOD_NOT_FOUND, ERR_PARSE, FALLBACK_FRAME, MAX_LINE_BYTES,
};
use fusion_executor::hub::{
    fan_out, shot_data, subscription_wanted, BroadcastHub, Push, Shot, SourceStep, StdioScope, CH_SCREENSHOT, CH_STDIO, CH_TELEMETRY,
    DEFAULT_INTERVAL_MS, DEFAULT_SCREENSHOT_INTERVAL_MS, MAX_SCREENSHOT_B64_BYTES,
};
use fusion_executor::json::{empty_object, parse, render, text, Json};
use fusion_executor::methods::{
    broadcast_done, handle_method, handle_telemetry_stream, kill_result, param_str, prometheus_result, rollback_result, sample_reply,
    shutdown_result, snapshot_result, snapshots_result, stream_refused, verdict_result, Call, ExecuteStream, SecurityStage, ERR_ROLLBACK,
};
use fusion_executor::metrics::{bucket_le, duration_bucket_index, histogram_quantile, Figures, Metrics, Quantile, BUCKETS};
use fusion_executor::rollback::SnapshotInfo;
use serde_json::Value;

/// A value as the crate that others read it with sees it.
fn seen(j: &Json) -> Value {
    serde_json::from_str(&render(j).unwrap()).unwrap()
}

fn json(s: &str) -> Json {
    parse(s).unwrap()
}

fn request(line: &str) -> (Json, String, Json) {
    match receive(line) {
        Incoming::Request { id, method, params } => (id, method, params),
        _ => panic!("{line}"),
    }
}

fn subscribe(hub: &mut BroadcastHub, params: &str, conn: u64) -> Value {
    seen(&hub.handle_subscribe(Json::UInt(1), &json(params), conn).reply)
}

fn seconds(q: Quantile) -> f64 {
    (q.lo_ns as f64 + (q.hi_ns - q.lo_ns) as f64 * (q.num as f64) / (q.den as f64)) / 1e9
}

fn took(sec: f64) -> ExecutionResult {
    let mut r = ExecutionResult::default();
    r.duration_ns = (sec * 1e9).round() as u64;
    r
}

#[test]
fn unknown_method_returns_32601() {
    let (id, method, params) = request(r#"{"jsonrpc":"2.0","id":2,"method":"nope","params":{}}"#);
    assert_eq!(dispatch_request(&method), Route::Method);
    let e = match handle_method(&method, &params) {
        Err(e) => e,
        Ok(_) => panic!("there is no such method"),
    };
    let resp = seen(&reply(id, Err(e)));
    assert_eq!(resp["error"]["code"], -32601);
    assert_eq!(resp["id"], 2);
    assert_eq!(resp["error"]["message"], "Method not found: nope");
}

#[test]
fn malformed_json_returns_32700() {
    match receive(r#"{not valid json"#) {
        Incoming::Broken { reply } => {
            let resp = seen(&reply);
            assert_eq!(resp["error"]["code"], -32700);
            assert!(resp["id"].is_null());
            assert!(resp["error"]["message"].as_str().unwrap().starts_with("Parse error: "));
        }
        _ => panic!("a line that is no JSON is answered"),
    }
}

#[test]
fn validate_roundtrip() {
    let (id, method, params) = request(r#"{"jsonrpc":"2.0","id":1,"method":"executor.validate","params":{"command":"echo hi"}}"#);
    match handle_method(&method, &params) {
        Ok(Call::Validate { command }) => assert_eq!(command, "echo hi"),
        _ => panic!("a verdict is asked for"),
    }
    let resp = seen(&reply(id, Ok(verdict_result(true, &None, None))));
    assert_eq!(resp["result"]["allowed"], true);
    assert_eq!(resp["result"]["blocked"], false);
    assert!(resp["result"]["reason"].is_null());
    let resp2 = seen(&reply(Json::UInt(2), Ok(verdict_result(false, &Some("rm".to_string()), Some(SecurityStage::Regex)))));
    assert_eq!(resp2["result"]["allowed"], false);
    assert_eq!(resp2["result"]["blocked"], true);
    assert!(resp2["result"]["reason"].is_string(), "reason 应为字符串");
    assert_eq!(resp2["result"]["stage"], "regex");
    assert_eq!(seen(&verdict_result(false, &None, Some(SecurityStage::Tokenizer)))["stage"], "tokenizer");
}

#[test]
fn subscribe_telemetry_pushes_event_frames() {
    let mut hub = BroadcastHub::new();
    let conn = hub.next_conn_id();
    let (id, method, params) =
        request(r#"{"jsonrpc":"2.0","id":1,"method":"executor.subscribe","params":{"channels":["telemetry"],"interval_ms":20}}"#);
    assert_eq!(dispatch_request(&method), Route::Subscribe);
    let s = hub.handle_subscribe(id, &params, conn);
    let resp = seen(&s.reply);
    assert_eq!(resp["id"], 1);
    assert_eq!(resp["result"]["ok"], true);
    let sub_id = resp["result"]["subscription_id"].as_str().expect("subscription_id").to_string();
    assert!(sub_id.starts_with("sub-"));
    assert_eq!(s.telemetry_ms, Some(20));
    assert_eq!(s.screenshot_ms, None);
    let run = hub.ensure_telemetry_source(false, 20).unwrap();
    for i in 0..3u64 {
        match hub.run_telemetry_source(run.start_gen) {
            SourceStep::Sample { targets } => {
                let pushes = fan_out(&targets, CH_TELEMETRY, &empty_object().with("mem_mb", Json::UInt(i)));
                assert_eq!(pushes.len(), 1);
                assert_eq!(pushes[0].conn_id, conn);
                let frame = seen(&pushes[0].frame);
                assert!(frame.get("id").is_none(), "notification 无 id: {frame}");
                assert_eq!(frame["method"], "executor.event");
                assert_eq!(frame["params"]["subscription_id"], sub_id);
                assert_eq!(frame["params"]["channel"], "telemetry");
                assert!(frame["params"]["data"]["mem_mb"].as_f64().unwrap_or(-1.0) >= 0.0);
            }
            _ => panic!("a sample is taken"),
        }
    }
}

#[test]
fn subscribe_missing_channels_returns_32600() {
    let resp = subscribe(&mut BroadcastHub::new(), "{}", 1);
    assert_eq!(resp["error"]["code"], -32600);
    assert_eq!(resp["error"]["message"], "缺少 channels");
}

#[test]
fn unsubscribe_stops_push_for_that_sub() {
    let mut hub = BroadcastHub::new();
    let conn = hub.next_conn_id();
    let resp = subscribe(&mut hub, r#"{"channels":["telemetry"],"interval_ms":20}"#, conn);
    let sub_id = resp["result"]["subscription_id"].as_str().unwrap().to_string();
    let run = hub.ensure_telemetry_source(false, 20).unwrap();
    assert!(matches!(hub.run_telemetry_source(run.start_gen), SourceStep::Sample { .. }));
    let params = json(&format!(r#"{{"subscription_id":"{sub_id}"}}"#));
    let unsub_resp = seen(&hub.handle_unsubscribe(Json::UInt(2), &params));
    assert_eq!(unsub_resp["id"], 2);
    assert_eq!(unsub_resp["result"]["ok"], true);
    assert!(matches!(hub.run_telemetry_source(run.start_gen), SourceStep::Exit));
    assert_eq!(seen(&hub.handle_unsubscribe(Json::UInt(3), &params))["result"]["ok"], false);
    assert_eq!(seen(&hub.handle_unsubscribe(Json::UInt(4), &json("{}")))["error"]["code"], -32600);
}

fn stream(conn_id: u64, task_id: Option<&str>) -> ExecuteStream {
    ExecuteStream { id: Json::UInt(7), task_id: task_id.map(|t| t.to_string()), conn_id }
}

#[test]
fn stdio_broadcasts_across_connections() {
    let mut hub = BroadcastHub::new();
    let (a, b) = (hub.next_conn_id(), hub.next_conn_id());
    let resp = subscribe(&mut hub, r#"{"channels":["stdio"],"all":true}"#, a);
    assert_eq!(resp["result"]["ok"], true);
    let sub_id = resp["result"]["subscription_id"].as_str().unwrap().to_string();
    let relay = stream(b, None).chunk(&hub, "hi\n");
    let own = seen(&relay.frame);
    assert_eq!(own["id"], 7);
    assert_eq!(own["result"]["type"], "chunk");
    assert_eq!(relay.pushes.len(), 1);
    assert_eq!(relay.pushes[0].conn_id, a);
    let v = seen(&relay.pushes[0].frame);
    assert!(v.get("id").is_none());
    assert_eq!(v["params"]["channel"], "stdio");
    assert_eq!(v["params"]["subscription_id"], sub_id);
    assert_eq!(v["params"]["data"]["data"], "hi\n");
}

#[test]
fn capped_line_rejects_oversize_request() {
    let mut reader = LineReader::new();
    let blob = vec![b'A'; MAX_LINE_BYTES + 100];
    assert!(matches!(reader.read_capped_line(&blob), LineStep::TooLong));
    let text = write_line(&drop_frame(Drop::TooLong));
    assert!(text.contains("-32700"), "超限应回含 -32700 的错误帧: {text}");
    assert!(write_line(&drop_frame(Drop::Silent)).contains("-32603"));
}

#[test]
fn read_capped_line_rejects_no_newline_flood() {
    let blob = vec![b'A'; MAX_LINE_BYTES + 100];
    let mut reader = LineReader::new();
    let mut refused = false;
    for chunk in blob.chunks(8192) {
        if matches!(reader.read_capped_line(chunk), LineStep::TooLong) {
            refused = true;
            break;
        }
    }
    assert!(refused, "无换行洪水应回 ERR_PARSE 非 OOM/缓冲到换行");
    assert_eq!(ERR_PARSE, -32700);
}

#[test]
fn read_capped_line_chunked_under_limit_succeeds() {
    let mut blob = vec![b'A'; MAX_LINE_BYTES - 10];
    blob.push(b'\n');
    let mut reader = LineReader::new();
    let mut line: Option<String> = None;
    for chunk in blob.chunks(8192) {
        match reader.read_capped_line(chunk) {
            LineStep::More => {}
            LineStep::Line { text, used } => {
                assert_eq!(used, chunk.len());
                line = Some(text);
            }
            _ => panic!("恰 <1MB 行应成功"),
        }
    }
    assert_eq!(line.unwrap().len(), MAX_LINE_BYTES - 10);
}

#[test]
fn lines_are_cut_where_they_end() {
    let mut reader = LineReader::new();
    assert!(matches!(reader.read_capped_line(b"ab"), LineStep::More));
    match reader.read_capped_line(b"c\r\nnext") {
        LineStep::Line { text, used } => {
            assert_eq!(text, "abc");
            assert_eq!(used, 3);
        }
        _ => panic!("a line has ended"),
    }
    assert!(matches!(reader.read_capped_line(b"half"), LineStep::More));
    assert!(matches!(reader.read_capped_line(b""), LineStep::End));
    let mut reader = LineReader::new();
    match reader.read_capped_line(&[0xe4, 0xbd, 0xa0, 0xff, b'\n']) {
        LineStep::Line { text, .. } => assert_eq!(text, "你\u{fffd}"),
        _ => panic!("a line has ended"),
    }
    assert!(matches!(receive("  \t"), Incoming::Blank));
}

#[test]
fn written_lines_read_back() {
    let frame = ok_resp(Json::UInt(3), text("a\nb 你"));
    let line = write_line(&frame);
    assert_eq!(line.matches('\n').count(), 1);
    let mut reader = LineReader::new();
    match reader.read_capped_line(line.as_bytes()) {
        LineStep::Line { text, used } => {
            assert_eq!(used, line.len());
            assert_eq!(seen(&parse(&text).unwrap()), seen(&frame));
        }
        _ => panic!("a line has ended"),
    }
}

#[test]
fn subscribe_with_custom_interval_accepted() {
    let mut hub = BroadcastHub::new();
    let s = hub.handle_subscribe(
        Json::UInt(1),
        &json(r#"{"channels":["telemetry"],"interval_ms":50,"screenshot_interval_ms":500}"#),
        hub_conn(),
    );
    let resp = seen(&s.reply);
    assert_eq!(resp["id"], 1);
    assert_eq!(resp["result"]["ok"], true);
    assert_eq!(s.telemetry_ms, Some(50));
    let s = hub.handle_subscribe(Json::UInt(1), &json(r#"{"channels":["screenshot"],"screenshot_interval_ms":500}"#), hub_conn());
    assert_eq!(s.screenshot_ms, Some(500));
}

fn hub_conn() -> u64 {
    1
}

#[test]
fn stdio_own_conn_default_blocks_cross_connection() {
    let mut hub = BroadcastHub::new();
    let (a, b) = (hub.next_conn_id(), hub.next_conn_id());
    assert_eq!(subscribe(&mut hub, r#"{"channels":["stdio"]}"#, a)["result"]["ok"], true);
    let relay = stream(b, None).chunk(&hub, "hi\n");
    assert!(relay.pushes.is_empty(), "默认 own_conn 应拦截跨连接 stdio (审计 §2.9)");
    assert_eq!(stream(a, None).chunk(&hub, "mine\n").pushes.len(), 1);
}

#[test]
fn stdio_task_ids_whitelist_receives_matched() {
    let mut hub = BroadcastHub::new();
    let (a, b) = (hub.next_conn_id(), hub.next_conn_id());
    assert_eq!(subscribe(&mut hub, r#"{"channels":["stdio"],"task_ids":["t1"]}"#, a)["result"]["ok"], true);
    let mut m = Metrics::new();
    let value = empty_object().with("exit_code", Json::UInt(0));
    let done = stream(b, Some("t1")).done(&hub, &mut m, &took(0.1), &value);
    assert_eq!(seen(&done.frame)["result"]["type"], "done");
    assert_eq!(done.pushes.len(), 1, "task_ids 白名单匹配应收到 stdio 推送");
    assert!(stream(b, Some("t2")).chunk(&hub, "x").pushes.is_empty());
    assert!(stream(b, None).chunk(&hub, "x").pushes.is_empty());
}

#[test]
fn shell_start_defaults_seatbelt_on() {
    let on = handle_method("executor.shell_start", &json(r#"{"command":"echo d3-2-on"}"#));
    match on {
        Ok(Call::ShellStart { start }) => {
            assert!(start.seatbelt);
            assert_eq!(start.command, "echo d3-2-on");
        }
        _ => panic!("a shell is started"),
    }
    match handle_method("executor.shell_start", &json(r#"{"command":"echo d3-2-off","seatbelt":false}"#)) {
        Ok(Call::ShellStart { start }) => assert!(!start.seatbelt),
        _ => panic!("a shell is started"),
    }
}

#[test]
fn subscribe_rejects_unknown_channel() {
    let resp = subscribe(&mut BroadcastHub::new(), r#"{"channels":["bogus_channel"]}"#, 1);
    assert_eq!(resp["error"]["code"], -32600, "未知通道应 -32600 fail-loud: {resp}");
}

#[test]
fn subscribe_lowercases_mixedcase_channel() {
    let mut hub = BroadcastHub::new();
    let conn = hub.next_conn_id();
    let resp = subscribe(&mut hub, r#"{"channels":["Telemetry"],"interval_ms":20}"#, conn);
    assert_eq!(resp["result"]["ok"], true, "大写通道应被接受 (规范化): {resp}");
    let sub_id = resp["result"]["subscription_id"].as_str().unwrap().to_string();
    match hub.run_telemetry_source(0) {
        SourceStep::Sample { targets } => {
            let first = seen(&fan_out(&targets, CH_TELEMETRY, &Json::Null)[0].frame);
            assert_eq!(first["params"]["subscription_id"], sub_id, "规范化后应收到 telemetry 推帧 (非幽灵订阅): {first}");
            assert_eq!(first["params"]["channel"], "telemetry");
        }
        _ => panic!("somebody is subscribed"),
    }
}

#[test]
fn subscribe_rejects_empty_task_ids() {
    let resp = subscribe(&mut BroadcastHub::new(), r#"{"channels":["stdio"],"task_ids":[]}"#, 1);
    assert_eq!(resp["error"]["code"], -32600, "空 task_ids 应 -32600 (死订阅 fail-loud): {resp}");
}

fn figures(m: &Metrics) -> Figures {
    let number = |x: f64| json(&format!("{:?}", x));
    let (sum, n) = m.duration_total();
    let (min, max) = m.duration_bounds();
    let sums = m.cumulative();
    Figures {
        avg: number(if n == 0 { 0.0 } else { sum as f64 / 1e9 / n as f64 }),
        min: number(min as f64 / 1e9),
        max: number(max as f64 / 1e9),
        p50: number(seconds(histogram_quantile(&sums, 50))),
        p95: number(seconds(histogram_quantile(&sums, 95))),
        p99: number(seconds(histogram_quantile(&sums, 99))),
        bounds: Json::Arr((0..BUCKETS).map(|i| number(bucket_le(i) as f64 / 1e9)).collect()),
    }
}

#[test]
fn stream_exec_records_metric() {
    let hub = BroadcastHub::new();
    let mut m = Metrics::new();
    let before = seen(&m.metrics_snapshot(&figures(&m)))["exec_total"].as_u64().unwrap();
    let done = stream(1, None).done(&hub, &mut m, &took(0.01), &Json::Null);
    assert_eq!(seen(&done.frame)["result"]["type"], "done", "execute_stream 应收到 done 帧");
    let after = seen(&m.metrics_snapshot(&figures(&m)))["exec_total"].as_u64().unwrap();
    assert!(after > before, "L-6: execute_stream 应使 fe_exec_total 递增 ({} → {}), 旧版漏 record_exec 不增", before, after);
}

#[test]
fn telemetry_gen_bumps_on_telemetry_subscribe() {
    let mut hub = BroadcastHub::new();
    let telemetry_gen = |h: &BroadcastHub| h.ensure_telemetry_source(false, 5000).unwrap().start_gen;
    let before = telemetry_gen(&hub);
    let _sid = hub.subscribe(1, vec![CH_TELEMETRY.to_string()], StdioScope::OwnConn(1));
    assert_eq!(telemetry_gen(&hub), before + 1, "C-9: telemetry 订阅应 bump telemetry_gen");
    let before2 = telemetry_gen(&hub);
    let _sid2 = hub.subscribe(2, vec![CH_STDIO.to_string()], StdioScope::OwnConn(2));
    assert_eq!(telemetry_gen(&hub), before2, "C-9: stdio 订阅不应动 telemetry_gen");
    let _sid3 = hub.subscribe(3, vec![CH_SCREENSHOT.to_string()], StdioScope::OwnConn(3));
    assert_eq!(telemetry_gen(&hub), before2, "C-9: screenshot 订阅不应动 telemetry_gen");
    let shot_after = hub.ensure_screenshot_source(false, 1000).unwrap().start_gen;
    assert_eq!(shot_after, 1, "C-9: screenshot 订阅应 bump screenshot_gen 到 1");
}

#[test]
fn d602_histogram_quantiles_interpolated() {
    let mut m = Metrics::new();
    for dur in [0.001; 5] {
        m.record_exec(&took(dur));
    }
    for dur in [0.1; 3] {
        m.record_exec(&took(dur));
    }
    for dur in [1.0; 2] {
        m.record_exec(&took(dur));
    }
    let snap = seen(&m.metrics_snapshot(&figures(&m)));
    let total = snap["exec_total"].as_u64().unwrap();
    assert_eq!(total, 10, "D6-02: 10 次 execute 应全计");
    let buckets = snap["execute_duration_buckets"].as_array().unwrap();
    assert_eq!(buckets[0].as_u64(), Some(5), "≤0.005 桶应 5");
    assert_eq!(buckets[1].as_u64(), Some(0), "0.05 桶应空");
    assert_eq!(buckets[2].as_u64(), Some(3), "0.5 桶应 3");
    assert_eq!(buckets[3].as_u64(), Some(2), "5.0 桶应 2");
    assert_eq!(buckets[4].as_u64(), Some(0), "30.0 桶应空");
    let p50 = snap["execute_duration_sec_p50"].as_f64().unwrap();
    assert_eq!(p50, 0.005, "D6-02: p50 应插值到首桶上界 0.005");
    assert!((snap["execute_duration_sec_min"].as_f64().unwrap() - 0.001).abs() < 1e-9, "min 应 0.001");
    assert!((snap["execute_duration_sec_max"].as_f64().unwrap() - 1.0).abs() < 1e-9, "max 应 1.0");
    let avg = snap["execute_duration_sec_avg"].as_f64().unwrap();
    assert!((avg - 0.2305).abs() < 1e-9, "avg 应 0.2305, 实际 {avg}");
    assert_eq!(snap["exec_success"], 10);
    assert_eq!(snap["execute_duration_bucket_le"][0], 0.005);
}

#[test]
fn replies_and_events_are_lines() {
    let id = Json::UInt(4);
    assert_eq!(reply_line(&ok_resp(id, Json::Null)), "{\"id\":4,\"jsonrpc\":\"2.0\",\"result\":null}\n");
    let event = notification("s1", CH_STDIO, text("a\nb"));
    let line = push_line(&event).unwrap();
    assert_eq!(line, write_line(&event));
    assert_eq!(line.matches('\n').count(), 1);
}

#[test]
fn quantiles_grow_with_what_is_asked_for() {
    for sums in [vec![5, 5, 8, 10, 10, 10], vec![0, 3, 3, 7, 20, 21], vec![1, 1, 1, 1, 1, 9]] {
        let mut before = 0.0;
        for percent in 0..=101 {
            let now = seconds(histogram_quantile(&sums, percent));
            assert!(before <= now, "{sums:?} {percent}: {before} > {now}");
            before = now;
        }
    }
    let sums = vec![5, 5, 8, 10, 10, 10];
    assert!((seconds(histogram_quantile(&sums, 65)) - 0.275).abs() < 1e-9);
    assert_eq!(seconds(histogram_quantile(&sums, 80)), 0.5);
}

#[test]
fn quantiles_lie_in_their_classes() {
    let sums = vec![5, 5, 8, 10, 10, 10];
    let q = histogram_quantile(&sums, 95);
    assert_eq!((q.lo_ns, q.hi_ns), (bucket_le(2), bucket_le(3)));
    assert_eq!((q.num, q.den), (150, 200));
    assert!((seconds(q) - 3.875).abs() < 1e-9);
    assert_eq!(seconds(histogram_quantile(&vec![0, 0, 0, 0, 0, 4], 50)), 30.0);
    assert_eq!(seconds(histogram_quantile(&vec![0, 0, 0, 0, 0, 0], 50)), 0.0);
    assert_eq!(duration_bucket_index(5_000_000), Some(0));
    assert_eq!(duration_bucket_index(5_000_001), Some(1));
    assert_eq!(duration_bucket_index(30_000_000_001), None);
}

#[test]
fn metrics_roundtrip_after_execute() {
    let mut m = Metrics::new();
    let mut r = took(0.02);
    r.stdout = "hi\n".to_string();
    m.record_exec(&r);
    match handle_method("executor.metrics", &json("{}")) {
        Ok(Call::Metrics) => {}
        _ => panic!("the counts are asked for"),
    }
    let m = seen(&m.metrics_snapshot(&figures(&m)));
    assert!(m["exec_total"].as_u64().unwrap() >= 1, "exec_total: {}", m);
    assert!(m["exec_success"].as_u64().unwrap() >= 1, "exec_success: {}", m);
    assert!(m["execute_duration_sec_avg"].is_number(), "execute_duration_sec_avg 应为数字: {}", m["execute_duration_sec_avg"]);
    assert!(m["stdio_bytes_total"].as_u64().is_some(), "stdio_bytes_total 应为 u64: {}", m["stdio_bytes_total"]);
    assert_eq!(m["stdio_bytes_total"], 3);
    assert_eq!(m["exec_blocked"], 0);
    assert_eq!(m["rollback_total"], 0);
}

#[test]
fn rollbacks_are_counted_and_told() {
    let mut m = Metrics::new();
    assert_eq!(seen(&rollback_result(&mut m, true).unwrap_or(Json::Null))["ok"], true);
    match rollback_result(&mut m, false) {
        Err((code, message)) => {
            assert_eq!(code, ERR_ROLLBACK);
            assert_eq!(message, "rollback 失败 (stash apply 或非 repo)");
        }
        Ok(_) => panic!("a rollback that was not done is an error"),
    }
    let snap = seen(&m.metrics_snapshot(&figures(&m)));
    assert_eq!(snap["rollback_total"], 2);
    assert_eq!(snap["rollback_failed"], 1);
    assert_eq!(snap["execute_duration_sec_avg"], 0.0);
}

#[test]
fn execute_stream_chunks_then_done_over_uds() {
    let (id, method, params) = request(
        r#"{"jsonrpc":"2.0","id":7,"method":"executor.execute_stream","params":{"command":"echo hi","enable_rollback_snapshot":false}}"#,
    );
    assert_eq!(dispatch_request(&method), Route::ExecuteStream);
    assert_eq!(param_str(&params, "command").as_deref(), Some("echo hi"));
    let hub = BroadcastHub::new();
    let s = ExecuteStream { id, task_id: None, conn_id: 1 };
    let v = seen(&s.chunk(&hub, "hi\n").frame);
    assert_eq!(v["id"], 7, "所有帧应共用 id");
    assert_eq!(v["result"]["data"], "hi\n");
    let value = empty_object().with("exit_code", Json::UInt(0)).with("stdout", text("hi\n"));
    let v = seen(&s.done(&hub, &mut Metrics::new(), &took(0.1), &value).frame);
    assert_eq!(v["id"], 7, "所有帧应共用 id");
    assert_eq!(v["result"]["result"]["exit_code"], 0);
    assert_eq!(seen(&s.not_started("no pty"))["error"]["message"], "execute_stream 失败: no pty");
    assert_eq!(seen(&stream_refused(Json::UInt(7), "missing field"))["error"]["code"], -32600);
}

#[test]
fn telemetry_stream_samples_over_uds() {
    let (id, method, params) =
        request(r#"{"jsonrpc":"2.0","id":11,"method":"executor.telemetry_stream","params":{"interval_ms":20,"max_samples":3}}"#);
    assert_eq!(dispatch_request(&method), Route::TelemetryStream);
    let c = handle_telemetry_stream(&params);
    assert_eq!((c.interval_ms, c.max_samples, c.pid), (20, 3, None));
    let v = seen(&sample_reply(&id, empty_object().with("mem_mb", Json::UInt(1))));
    assert_eq!(v["id"], 11);
    assert_eq!(v["result"]["type"], "sample");
    let c = handle_telemetry_stream(&json("{}"));
    assert_eq!((c.interval_ms, c.max_samples), (100, 0));
}

#[test]
fn shutdown_ipc_triggers_graceful_drain() {
    assert!(matches!(handle_method("executor.shutdown", &Json::Null), Ok(Call::Shutdown)));
    let r = seen(&shutdown_result());
    assert_eq!(r["ok"], true);
    assert_eq!(r["shutting_down"], true);
}

#[test]
fn calls_are_read_from_their_parameters() {
    match handle_method("executor.rollback", &json(r#"{"snapshot_id":"head:a","cwd":"/w"}"#)) {
        Ok(Call::Rollback { snapshot_id, cwd }) => assert_eq!((snapshot_id.as_str(), cwd.as_str()), ("head:a", "/w")),
        _ => panic!("a rollback is asked for"),
    }
    match handle_method("executor.file_edit", &json(r#"{"path":"a","old_string":"x","new_string":"y","replace_all":true}"#)) {
        Ok(Call::FileEdit { path, replace_all, cwd, .. }) => {
            assert_eq!(path, "a");
            assert!(replace_all && cwd.is_none());
        }
        _ => panic!("an edit is asked for"),
    }
    match handle_method("executor.grep", &json(r#"{"pattern":"x","paths":["a","b"]}"#)) {
        Ok(Call::Grep { paths, .. }) => assert_eq!(paths, vec!["a".to_string(), "b".to_string()]),
        _ => panic!("a search is asked for"),
    }
    for (method, lacks) in [
        ("executor.snapshot_create", "cwd"),
        ("executor.validate", "command"),
        ("executor.shell_output", "shell_id"),
        ("executor.kill_shell", "shell_id"),
        ("executor.gui_action", "action"),
    ] {
        match handle_method(method, &json("{}")) {
            Err((code, message)) => {
                assert_eq!(code, ERR_INVALID_REQ, "{method}");
                assert!(message.contains(lacks), "{message}");
            }
            Ok(_) => panic!("{method}"),
        }
    }
    let c: Call<String, Vec<String>, Json> = Call::ShellOutput { shell_id: "sh-1".to_string() };
    assert_eq!(c.word(), "shell_output");
    assert_eq!(c.failed("gone"), (ERR_INTERNAL, "shell_output 失败: gone".to_string()));
    assert_eq!(c.refused("bad"), (ERR_INVALID_REQ, "params 无效: bad".to_string()));
    assert_eq!(ERR_METHOD_NOT_FOUND, -32601);
}

#[test]
fn results_are_told() {
    assert_eq!(seen(&snapshot_result("head:a"))["snapshot_id"], "head:a");
    let snaps = vec![SnapshotInfo { id: "head:a".to_string(), created_ms: 7, kind: "head".to_string() }];
    let v = seen(&snapshots_result(&snaps));
    assert_eq!(v["snapshots"][0]["created_ms"], 7);
    assert_eq!(v["snapshots"][0]["kind"], "head");
    assert_eq!(seen(&kill_result(true))["ok"], true);
    assert_eq!(seen(&prometheus_result(&Some("x 1".to_string())).unwrap_or(Json::Null))["text"], "x 1");
    assert!(prometheus_result(&None).is_err());
    assert_eq!(seen(&notification("sub-1", "stdio", Json::Null))["params"]["channel"], "stdio");
    assert_eq!(err_str(Json::Null, -1, "no"), r#"{"error":{"code":-1,"message":"no"},"id":null,"jsonrpc":"2.0"}"#);
    assert_eq!(seen(&err_resp(text("x"), -5, "m"))["id"], "x");
    let fallback: Value = serde_json::from_str(FALLBACK_FRAME).unwrap();
    assert_eq!(fallback["error"]["code"], -32603);
    match request_from(&json("[]")) {
        Incoming::Request { id, method, .. } => {
            assert!(seen(&id).is_null());
            assert_eq!(method, "");
        }
        _ => panic!("any value is a request"),
    }
}

#[test]
fn scopes_keep_commands_apart() {
    assert!(StdioScope::All.allows(&None, 9));
    assert!(StdioScope::OwnConn(3).allows(&None, 3));
    assert!(!StdioScope::OwnConn(3).allows(&None, 4));
    let tasks = StdioScope::Tasks(vec!["t".to_string()]);
    assert!(tasks.allows(&Some("t".to_string()), 1));
    assert!(!tasks.allows(&Some("u".to_string()), 1));
    assert!(!tasks.allows(&None, 1));
}

#[test]
fn ended_connection_gets_nothing() {
    let mut hub = BroadcastHub::new();
    let (a, b) = (hub.next_conn_id(), hub.next_conn_id());
    assert_eq!(hub.connections(), 2);
    let _ = subscribe(&mut hub, r#"{"channels":["stdio","telemetry"],"all":true}"#, a);
    let _ = subscribe(&mut hub, r#"{"channels":["stdio"],"all":true}"#, b);
    hub.drop_conn(a);
    assert_eq!(hub.connections(), 1);
    let pushes: Vec<Push> = broadcast_done(&hub, &None, &Json::Null, 9);
    assert_eq!(pushes.len(), 1);
    assert_eq!(pushes[0].conn_id, b);
    assert_eq!(hub.collect_targets(CH_TELEMETRY).len(), 0);
}

#[test]
fn source_goes_on_for_a_late_subscription() {
    let mut hub = BroadcastHub::new();
    let first = hub.subscribe(1, vec![CH_SCREENSHOT.to_string()], StdioScope::All);
    let run = hub.ensure_screenshot_source(false, 0).unwrap();
    assert_eq!(run.interval_ms, DEFAULT_SCREENSHOT_INTERVAL_MS);
    assert!(hub.ensure_screenshot_source(true, 0).is_none());
    assert_eq!(hub.ensure_telemetry_source(false, 0).unwrap().interval_ms, DEFAULT_INTERVAL_MS);
    let second = hub.subscribe(1, vec![CH_SCREENSHOT.to_string()], StdioScope::All);
    assert_ne!(first, second);
    assert!(hub.unsubscribe(&first) && hub.unsubscribe(&second));
    assert!(matches!(hub.run_screenshot_source(run.start_gen), SourceStep::Again));
    assert!(matches!(hub.run_screenshot_source(run.start_gen + 1), SourceStep::Exit));
}

#[test]
fn heavy_pictures_are_left_out() {
    let heavy = "A".repeat(MAX_SCREENSHOT_B64_BYTES + 1);
    let v = seen(&shot_data(Shot::Taken(empty_object().with("ok", Json::Bool(true)).with("screenshot_png_b64", text(&heavy)))));
    assert!(v.get("screenshot_png_b64").is_none());
    assert_eq!(v["screenshot_dropped"], true);
    let v = seen(&shot_data(Shot::Taken(empty_object().with("screenshot_png_b64", text("AAAA")))));
    assert_eq!(v["screenshot_png_b64"], "AAAA");
    assert_eq!(seen(&shot_data(Shot::Failed("x".to_string())))["error"], "screenshot 失败: x");
    assert_eq!(seen(&shot_data(Shot::Lost("x".to_string())))["error"], "screenshot 任务失败: x");
}

#[test]
fn wishes_are_read() {
    let w = subscription_wanted(&json(r#"{"channels":["STDIO","stdio","Screenshot"],"all":true}"#), 4);
    match w {
        Ok(w) => {
            assert_eq!(w.channels, vec!["stdio".to_string(), "screenshot".to_string()]);
            assert!(matches!(w.scope, StdioScope::All));
            assert_eq!(w.interval_ms, DEFAULT_INTERVAL_MS);
        }
        Err(e) => panic!("{e}"),
    }
    match subscription_wanted(&json(r#"{"channels":["stdio"]}"#), 4) {
        Ok(w) => assert!(matches!(w.scope, StdioScope::OwnConn(4))),
        Err(e) => panic!("{e}"),
    }
}

/// What a connection calls for on bytes that come in in pieces of this size.
fn called_for(bytes: &[u8], size: usize) -> Vec<String> {
    let mut conn = Connection::new();
    let mut out: Vec<String> = Vec::new();
    for piece in bytes.chunks(size) {
        let mut rest: &[u8] = piece;
        while !rest.is_empty() {
            match conn.handle_conn(rest) {
                ConnStep::More => rest = &[],
                ConnStep::PassOver { used } => rest = &rest[used..],
                ConnStep::Answer { used, frame } => {
                    out.push(seen(&frame)["error"]["code"].to_string());
                    rest = &rest[used..];
                }
                ConnStep::Start { used, id, method, route, .. } => {
                    out.push(format!("{} {} {:?}", seen(&id), method, route));
                    rest = &rest[used..];
                }
                ConnStep::Close { frame } => {
                    out.push(format!("close {}", frame.is_some()));
                    return out;
                }
            }
        }
    }
    out
}

#[test]
fn pieces_of_a_connection_do_not_matter() {
    let bytes = "{\"id\":1,\"method\":\"executor.health\"}\r\n\n{broken\n{\"id\":\"二\",\"method\":\"executor.subscribe\"}\n{\"id\":3".as_bytes();
    let whole = called_for(bytes, bytes.len());
    assert_eq!(whole, vec!["1 executor.health Method".to_string(), "-32700".to_string(), "\"二\" executor.subscribe Subscribe".to_string()]);
    for size in 1..bytes.len() {
        assert_eq!(called_for(bytes, size), whole, "{size}");
    }
    let flood = vec![b'A'; MAX_LINE_BYTES + 1];
    assert_eq!(called_for(&flood, 100_000), vec!["close true".to_string()]);
    assert_eq!(called_for(&flood, flood.len()), vec!["close true".to_string()]);
}

#[test]
fn closed_connection_calls_for_nothing() {
    let mut conn = Connection::new();
    match conn.silent() {
        ConnStep::Close { frame: Some(f) } => assert_eq!(seen(&f)["error"]["message"], "idle 读超时"),
        _ => panic!("a silent connection is told why it ends"),
    }
    assert!(matches!(conn.silent(), ConnStep::Close { frame: None }));
    assert!(matches!(conn.handle_conn(b"{}\n"), ConnStep::Close { frame: None }));
    let mut conn = Connection::new();
    assert!(matches!(conn.handle_conn(b""), ConnStep::Close { frame: None }));
}
