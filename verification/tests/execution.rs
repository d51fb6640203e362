use fusion_executor::bindings::{
    next_sample, output_mode, read_flag, read_text, read_texts, request_with, Given, Received, RequestOptions, StreamCursor,
};
use fusion_executor::diagnostics::EnrichAnswer;
use fusion_executor::execution::{
    default_max_failures, default_nofile, default_nproc, default_timeout, default_true, default_use_pty, is_false, is_tracked_mutation,
    record_exec_outcome, AutoRollbackGuard, ExecClass, ExecutionRequest, ExecutionResult, ExecutionStreamEvent, RollbackPolicy, EXIT_BLOCKED,
    EXIT_OK, EXIT_TIMEOUT, MAX_OUTPUT_CHARS,
};
use fusion_executor::executor::Executor;
use fusion_executor::gui::GuiConfig;
use fusion_executor::pipeline::{resolve_trace_id, ExecAnswer, ExecStage, ExecStream, Execution, Happening, SandboxResult};
use fusion_executor::rollback::RollbackOutcome;
use fusion_executor::server::worker_count;

fn executor() -> Executor {
    Executor::new(None, None)
}

fn request(command: &str, timeout_sec: f64) -> ExecutionRequest {
    ExecutionRequest {
        command: command.to_string(),
        task_id: None,
        cwd: None,
        timeout_bits: timeout_sec.to_bits(),
        env_vars: None,
        enable_rollback_snapshot: false,
        auto_rollback_policy: None,
        seatbelt: false,
        inherit_env: false,
        use_pty: true,
        max_nproc: 1024,
        max_cpu_sec: 0,
        max_nofile: 1024,
        trace_id: None,
    }
}

/// The request for a command in a repository with a snapshot before it.
fn guarded(command: &str, policy: Option<RollbackPolicy>) -> ExecutionRequest {
    let mut req = request(command, 15.0);
    req.cwd = Some("/work/repo".to_string());
    req.enable_rollback_snapshot = true;
    req.auto_rollback_policy = policy;
    req
}

fn ran(exit_code: i32, stdout: &str) -> SandboxResult {
    SandboxResult { exit_code, stdout: stdout.to_string(), stderr: String::new(), timed_out: false }
}

fn allow() -> ExecAnswer {
    ExecAnswer::Verdict { allowed: true, reason: None }
}

fn entries(ls: &[&str]) -> Vec<String> {
    ls.iter().map(|l| l.to_string()).collect()
}

/// What the surroundings of an execution hold: the verdict on the command, the status of the work
/// tree before and behind the command, what the sandbox gives, and how a rollback goes.
struct World {
    refused: Option<&'static str>,
    pre: Option<Vec<String>>,
    post: Option<Vec<String>>,
    ran: SandboxResult,
    rolled: Option<RollbackOutcome>,
    rollbacks: u32,
    runs: u32,
}

fn world(ran: SandboxResult) -> World {
    World { refused: None, pre: Some(Vec::new()), post: Some(Vec::new()), ran, rolled: Some(RollbackOutcome::applied(None)), rollbacks: 0, runs: 0 }
}

/// Drives an execution to its end.
fn drive(x: Execution, w: &mut World) -> Result<ExecutionResult, String> {
    let mut x = x;
    for _ in 0..50 {
        let answer = match &x.stage {
            ExecStage::Validate => ExecAnswer::Verdict { allowed: w.refused.is_none(), reason: w.refused.map(|r| r.to_string()) },
            ExecStage::ValidateCwd { .. } => allow(),
            ExecStage::TakeSnapshot { .. } => ExecAnswer::Snapshot(Some("stash:abc".to_string())),
            ExecStage::TakeStatus { .. } => ExecAnswer::Status(w.pre.clone()),
            ExecStage::RunSandbox { .. } => {
                w.runs += 1;
                ExecAnswer::Ran(w.ran.clone())
            }
            ExecStage::Diagnose { .. } => ExecAnswer::Source(EnrichAnswer::Is(false)),
            ExecStage::DamageStatus { .. } => ExecAnswer::Status(w.post.clone()),
            ExecStage::SetBack { .. } => {
                w.rollbacks += 1;
                ExecAnswer::Rolled(w.rolled.clone())
            }
            ExecStage::Finished(_) | ExecStage::Failed(_) => return Executor::execute(x).unwrap(),
        };
        x = x.step(answer, 7_000_000);
    }
    panic!("an execution comes to its end");
}

const TRACEBACK: &str = "Traceback (most recent call last):\n  File \"<string>\", line 1, in <module>\nValueError: boom\n";

#[test]
fn execute_streaming_echo_chunk_then_done() {
    let x = executor().execute_streaming(request("echo hi", 10.0));
    let x = x.step(allow(), 1);
    let mut combined = String::new();
    match x.forward("hi\n".to_string()) {
        Some(ExecutionStreamEvent::Chunk { data }) => combined.push_str(&data),
        _ => panic!("a running command forwards its output"),
    }
    let done = drive(x, &mut world(ran(0, "hi\n"))).expect("应收到 Done");
    assert_eq!(done.exit_code, 0);
    assert!(!done.timed_out);
    assert!(combined.contains("hi"), "chunks={:?}", combined);
    assert!(done.stdout.contains("hi"), "done.stdout={:?}", done.stdout);
}

#[test]
fn trace_id_auto_generated_on_none() {
    let r = drive(executor().execute_async(request("echo t", 10.0)), &mut world(ran(0, "t\n"))).unwrap();
    assert_eq!(r.exit_code, 0);
    assert!(r.trace_id.is_some(), "trace_id 应自动生成");
    let tid = r.trace_id.as_ref().unwrap();
    assert_eq!(tid.len(), 36, "uuid v4 长度 36, 得 {tid}");
    assert_eq!(tid.matches('-').count(), 4, "uuid v4 含 4 段分隔, 得 {tid}");
}

#[test]
fn trace_id_forwarded_when_provided() {
    let mut req = request("echo t", 10.0);
    req.trace_id = Some("caller-tid-123".to_string());
    let r = drive(executor().execute_async(req), &mut world(ran(0, "t\n"))).unwrap();
    assert_eq!(r.trace_id.as_deref(), Some("caller-tid-123"));
}

#[test]
fn trace_id_present_on_blocked() {
    let mut req = request("rm -rf /", 10.0);
    req.task_id = Some("tk".to_string());
    req.trace_id = Some("blk-tid".to_string());
    let mut w = world(ran(0, ""));
    w.refused = Some("destructive");
    let r = drive(executor().execute_async(req), &mut w).unwrap();
    assert!(r.blocked_by_security);
    assert_eq!(r.trace_id.as_deref(), Some("blk-tid"));
    assert_eq!(r.task_id.as_deref(), Some("tk"));
    assert_eq!(w.runs, 0);
}

#[test]
fn trace_id_streaming_done_carries_it() {
    let mut req = request("echo s", 10.0);
    req.trace_id = Some("stream-tid".to_string());
    let done = drive(executor().execute_streaming(req), &mut world(ran(0, "s\n"))).expect("应收到 Done");
    assert_eq!(done.trace_id.as_deref(), Some("stream-tid"));
}

#[test]
fn execute_streaming_blocked_single_done_frame() {
    let x = executor().execute_streaming(request("rm -rf /", 10.0));
    let mut frames = 0;
    let x = x.step(ExecAnswer::Verdict { allowed: false, reason: None }, 1);
    if x.forward("x".to_string()).is_some() {
        frames += 1;
    }
    let r = Executor::execute(x).unwrap().unwrap();
    frames += 1;
    assert_eq!(r.exit_code, EXIT_BLOCKED);
    assert!(r.blocked_by_security);
    assert_eq!(r.security_reason.as_deref(), Some("未知原因"));
    assert_eq!(frames, 1, "拦截应只发单帧 Done");
}

#[test]
fn execute_streaming_timeout_done_frame() {
    let mut w = world(SandboxResult { exit_code: EXIT_TIMEOUT, stdout: String::new(), stderr: String::new(), timed_out: true });
    let done = drive(executor().execute_streaming(request("python3 -c \"while True: pass\"", 1.0)), &mut w).expect("应收到 Done");
    assert!(done.timed_out);
    assert_eq!(done.exit_code, EXIT_TIMEOUT);
    assert!(done.diagnostics.is_none());
}

#[test]
fn execute_streaming_diagnostics_on_nonzero_exit() {
    let mut w = world(ran(1, TRACEBACK));
    let done = drive(executor().execute_streaming(request("python3 -c \"raise ValueError('boom')\"", 10.0)), &mut w).unwrap();
    assert_ne!(done.exit_code, 0);
    let diag = done.diagnostics.expect("非零退出应填 diagnostics");
    assert_eq!(diag.error_type.as_deref(), Some("ValueError"));
}

#[test]
fn auto_rollback_triggers_on_failure_with_file_damage() {
    let mut w = world(ran(1, TRACEBACK));
    w.post = Some(entries(&[" M app.py"]));
    let res = drive(executor().execute_async(guarded("python3 -c \"x\"", Some(RollbackPolicy::default()))), &mut w).unwrap();
    assert_ne!(res.exit_code, 0, "应失败");
    assert!(res.auto_rolled_back, "应自动回滚");
    assert_eq!(w.rollbacks, 1);
    assert_eq!(res.snapshot_id.as_deref(), Some("stash:abc"));
}

#[test]
fn auto_rollback_skipped_when_exit_ok() {
    let mut w = world(ran(0, "hi\n"));
    w.post = Some(entries(&[" M app.py"]));
    let res = drive(executor().execute_async(guarded("echo hi", Some(RollbackPolicy::default()))), &mut w).unwrap();
    assert_eq!(res.exit_code, 0);
    assert!(!res.auto_rolled_back, "成功不应回滚");
    assert_eq!(w.rollbacks, 0);
}

#[test]
fn auto_rollback_no_policy_means_no_action() {
    let mut w = world(ran(1, TRACEBACK));
    w.post = Some(entries(&[" M app.py"]));
    let res = drive(executor().execute_async(guarded("python3 -c \"x\"", None)), &mut w).unwrap();
    assert_ne!(res.exit_code, 0);
    assert!(!res.auto_rolled_back, "无 policy 不应回滚");
    assert_eq!(w.rollbacks, 0);
}

#[test]
fn max_consecutive_failures_ignored_stateless() {
    let mut w = world(ran(1, TRACEBACK));
    w.post = Some(entries(&[" M app.py"]));
    let policy = RollbackPolicy { max_consecutive_failures: 99, file_damage_check: true };
    let res = drive(executor().execute_async(guarded("python3 -c \"x\"", Some(policy))), &mut w).unwrap();
    assert_ne!(res.exit_code, 0, "应失败");
    assert!(res.auto_rolled_back, "max_consecutive_failures 不影响单次回滚 (死字段)");
}

#[test]
fn auto_rollback_no_false_trigger_on_preexisting_dirty() {
    let mut w = world(ran(1, TRACEBACK));
    w.pre = Some(entries(&["?? wip.txt", " M notes.md"]));
    w.post = Some(entries(&["?? wip.txt", " M notes.md"]));
    let res = drive(executor().execute_async(guarded("python3 -c \"raise ValueError('boom')\"", Some(RollbackPolicy::default()))), &mut w).unwrap();
    assert_ne!(res.exit_code, 0, "应失败");
    assert!(!res.auto_rolled_back, "命令未新增改动 (wip.txt 命令前已脏) → 不应误回滚");
    assert_eq!(w.rollbacks, 0);
}

#[test]
fn c2_is_tracked_mutation_classifies_porcelain_codes() {
    assert!(!is_tracked_mutation("?? build/"), "?? 未跟踪不算 damage");
    assert!(!is_tracked_mutation("?? __pycache__/"));
    assert!(!is_tracked_mutation("A  new_file.py"), "A 暂存新增不算 damage");
    assert!(!is_tracked_mutation(" A new_file.py"), " Y=A 不算 damage");
    assert!(is_tracked_mutation(" M app.py"), " Y=M 工作区改算 damage");
    assert!(is_tracked_mutation("M  app.py"), "X=M 暂存改算 damage");
    assert!(is_tracked_mutation("MM app.py"), "MM 双区改算 damage");
    assert!(is_tracked_mutation(" D app.py"), " Y=D 删除算 damage");
    assert!(is_tracked_mutation("D  app.py"), "X=D 暂存删除算 damage");
    assert!(is_tracked_mutation("R  old.py -> new.py"), "R 重命名算 damage");
    assert!(is_tracked_mutation("C  src.py -> dst.py"), "C 复制算 damage");
    assert!(is_tracked_mutation(" T app.py"), " Y=T 类型变算 damage");
    assert!(!is_tracked_mutation(""), "空行不算 damage");
    assert!(!is_tracked_mutation("A"), "单字符行不算 damage");
}

#[test]
fn c2_untracked_build_dir_not_treated_as_damage() {
    let mut w = world(ran(1, TRACEBACK));
    w.post = Some(entries(&["?? build/"]));
    let cmd = "mkdir -p build && python3 -c \"raise ValueError(1)\"";
    let res = drive(executor().execute_async(guarded(cmd, Some(RollbackPolicy::default()))), &mut w).unwrap();
    assert_ne!(res.exit_code, 0, "应失败 (python 抛错)");
    assert!(!res.auto_rolled_back, "C-2: 未跟踪 build/ 不应触发回滚, got auto_rolled_back={}", res.auto_rolled_back);
    assert_eq!(w.rollbacks, 0);
}

#[test]
fn c2_tracked_modify_still_triggers_rollback() {
    let mut w = world(ran(1, TRACEBACK));
    w.post = Some(entries(&[" M app.py", "?? build/"]));
    let res = drive(executor().execute_async(guarded("python3 -c \"x\"", Some(RollbackPolicy::default()))), &mut w).unwrap();
    assert_ne!(res.exit_code, 0, "应失败");
    assert!(res.auto_rolled_back, "C-2: 跟踪文件 M 突变应触发回滚, got auto_rolled_back={}", res.auto_rolled_back);
}

#[test]
fn a5_blocking_rt_symbol_accessible() {
    let rt = tokio::runtime::Builder::new_multi_thread().worker_threads(worker_count(None)).enable_all().build().unwrap();
    let entered: bool = rt.handle().block_on(async { true });
    assert!(entered, "BLOCKING_RT 应可访问且能执行任务");
}

#[test]
fn rollback_that_fails_is_marked() {
    let mut w = world(ran(1, TRACEBACK));
    w.post = Some(entries(&[" M app.py"]));
    w.rolled = None;
    let res = drive(executor().execute_async(guarded("x", Some(RollbackPolicy::default()))), &mut w).unwrap();
    assert!(res.rollback_unavailable);
    assert!(!res.auto_rolled_back);

    let mut w = world(ran(1, TRACEBACK));
    w.post = None;
    let res = drive(executor().execute_async(guarded("x", Some(RollbackPolicy::default()))), &mut w).unwrap();
    assert!(res.rollback_unavailable);
    assert_eq!(w.rollbacks, 0);

    let mut w = world(ran(1, TRACEBACK));
    w.post = Some(entries(&[" M app.py"]));
    w.rolled = Some(RollbackOutcome::skipped("gone"));
    let res = drive(executor().execute_async(guarded("x", Some(RollbackPolicy::default()))), &mut w).unwrap();
    assert_eq!(res.rollback_skipped_reason.as_deref(), Some("gone"));
    assert!(!res.auto_rolled_back && !res.rollback_unavailable);
}

#[test]
fn sandbox_that_fails_fails_the_execution() {
    let x = executor().execute_async(request("x", 1.0)).step(allow(), 1);
    assert!(matches!(x.stage, ExecStage::RunSandbox { .. }));
    let x = x.step(ExecAnswer::NotRun("no pty".to_string()), 2);
    match Executor::execute(x) {
        Some(Err(e)) => assert_eq!(e, "no pty"),
        _ => panic!("the reason is given"),
    }
}

#[test]
fn refused_directory_blocks_the_command() {
    let mut req = request("ls", 1.0);
    req.cwd = Some("/etc".to_string());
    let x = executor().execute_async(req).step(allow(), 1);
    assert!(matches!(x.stage, ExecStage::ValidateCwd { .. }));
    let x = x.step(ExecAnswer::Verdict { allowed: false, reason: None }, 1);
    let r = Executor::execute(x).unwrap().unwrap();
    assert_eq!(r.security_reason.as_deref(), Some("cwd 非法"));
    assert_eq!(r.command.as_deref(), Some("ls"));
    assert_eq!(r.exit_code, EXIT_BLOCKED);
}

#[test]
fn answers_that_do_not_fit_change_nothing() {
    let x = executor().execute_async(request("ls", 1.0)).step(ExecAnswer::Status(None), 1);
    assert!(matches!(x.stage, ExecStage::Validate));
    assert!(Executor::execute(x).is_none());
}

#[test]
fn finished_result_stays() {
    let x = executor().execute_async(request("ls", 1.0)).step(ExecAnswer::Verdict { allowed: false, reason: Some("no".to_string()) }, 1);
    let x = x.step(allow(), 2).step(ExecAnswer::Ran(ran(0, "late")), 3);
    let r = Executor::execute(x).unwrap().unwrap();
    assert_eq!(r.security_reason.as_deref(), Some("no"));
    assert_eq!(r.stdout, "");
}

#[test]
fn panic_gives_an_internal_result() {
    let mut req = request("ls", 1.0);
    req.task_id = Some("t1".to_string());
    let r = executor().execute_async(req).panicked("index", 9);
    assert_eq!(r.exit_code, -1);
    assert_eq!(r.stderr, "internal panic: index");
    assert_eq!(r.task_id.as_deref(), Some("t1"));
    assert_eq!(r.duration_ns, 9);
    assert!(!r.blocked_by_security);
}

#[test]
fn stderr_is_diagnosed_before_stdout() {
    let mut w = world(SandboxResult {
        exit_code: 1,
        stdout: TRACEBACK.to_string(),
        stderr: "thread 'main' panicked at src/main.rs:42:10:\nboom".to_string(),
        timed_out: false,
    });
    let r = drive(executor().execute_async(request("x", 1.0)), &mut w).unwrap();
    assert_eq!(r.diagnostics.unwrap().error_type.as_deref(), Some("panic"));
}

#[test]
fn generated_trace_identifiers_have_their_form() {
    let id: Vec<char> = resolve_trace_id(&None).chars().collect();
    assert_eq!(id.len(), 36);
    for (i, c) in id.iter().enumerate() {
        if [8, 13, 18, 23].contains(&i) {
            assert_eq!(*c, '-');
        } else {
            assert!(c.is_ascii_digit() || ('a'..='f').contains(c), "{c}");
        }
    }
    assert_eq!(id[14], '4');
    assert!(['8', '9', 'a', 'b'].contains(&id[19]));
}

#[test]
fn streaming_changes_no_result() {
    let mut req = guarded("python3 -c x", Some(RollbackPolicy { max_consecutive_failures: 1, file_damage_check: true }));
    req.trace_id = Some("same".to_string());
    let mut results = Vec::new();
    for streamed in [false, true] {
        let x = if streamed { executor().execute_streaming(req.clone()) } else { executor().execute_async(req.clone()) };
        let mut w = world(ran(1, TRACEBACK));
        w.post = Some(entries(&[" M a.txt"]));
        let mut r = drive(x, &mut w).unwrap();
        assert_eq!((w.runs, w.rollbacks), (1, 1));
        assert!(r.auto_rolled_back);
        r.duration_ns = 0;
        results.push(format!("{r:?}"));
    }
    assert_eq!(results[0], results[1]);
}

#[test]
fn a_stream_ends_with_its_result() {
    let part = |d: &str| Happening::Part { data: d.to_string() };
    let answered = |answer: ExecAnswer| Happening::Answer { answer, elapsed_ns: 3 };
    let mut req = request("echo hi", 1.0);
    req.trace_id = Some("t".to_string());
    let mut stream = ExecStream::start(executor().execute_streaming(req.clone()));
    let mut sent = Vec::new();
    for h in [part("early"), answered(allow()), part("h"), part("i"), answered(ExecAnswer::Ran(ran(0, "hi"))), part("late"), answered(allow())] {
        let (next, event) = stream.go_on(h);
        stream = next;
        sent.extend(event);
    }
    assert!(stream.over);
    assert!(stream.x.forward("late".to_string()).is_none());
    assert_eq!(sent.len(), 3);
    assert!(matches!(&sent[0], ExecutionStreamEvent::Chunk { data } if data == "h"));
    assert!(matches!(&sent[1], ExecutionStreamEvent::Chunk { data } if data == "i"));
    let mut plain = drive(executor().execute_async(req), &mut world(ran(0, "hi"))).unwrap();
    plain.duration_ns = 3;
    match &sent[2] {
        ExecutionStreamEvent::Done(r) => assert_eq!(format!("{r:?}"), format!("{plain:?}")),
        _ => panic!("the result comes last"),
    }
}

#[test]
fn a_stream_that_is_blocked_fails_or_panics_says_so_once() {
    let start = || ExecStream::start(executor().execute_streaming(request("x", 1.0)));
    let no = ExecAnswer::Verdict { allowed: false, reason: Some("no".to_string()) };
    let (s, e) = start().go_on(Happening::Answer { answer: no, elapsed_ns: 1 });
    assert!(s.over && matches!(e, Some(ExecutionStreamEvent::Done(r)) if r.blocked_by_security));
    assert!(matches!(s.x.done(), Some(ExecutionStreamEvent::Done(_))));

    let (s, e) = start().go_on(Happening::Answer { answer: allow(), elapsed_ns: 1 });
    assert!(!s.over && e.is_none() && s.x.done().is_none());
    let (s, e) = s.go_on(Happening::Answer { answer: ExecAnswer::NotRun("no pty".to_string()), elapsed_ns: 2 });
    assert!(s.over && e.is_none() && s.x.done().is_none());

    let (s, e) = start().go_on(Happening::Panic { message: "boom".to_string(), elapsed_ns: 9 });
    assert!(s.over && matches!(e, Some(ExecutionStreamEvent::Done(r)) if r.stderr == "internal panic: boom" && r.exit_code == EXIT_BLOCKED));
    let (_, e) = s.go_on(Happening::Panic { message: "again".to_string(), elapsed_ns: 9 });
    assert!(e.is_none());
}

#[test]
fn a_diagnosis_is_there_just_for_a_failure_in_time() {
    let diagnosed = |r: SandboxResult| drive(executor().execute_async(request("x", 1.0)), &mut world(r)).unwrap().diagnostics;
    assert!(diagnosed(ran(0, TRACEBACK)).is_none());
    assert!(diagnosed(SandboxResult { timed_out: true, ..ran(1, TRACEBACK) }).is_none());
    let d = diagnosed(ran(1, TRACEBACK)).unwrap();
    assert_eq!(d.raw_trace.as_deref(), Some("ValueError: boom"));
    let d = diagnosed(SandboxResult { stderr: "KeyError: other\n".to_string(), ..ran(1, TRACEBACK) }).unwrap();
    assert_eq!(d.raw_trace.as_deref(), Some("KeyError: other"));
}

#[test]
fn a_rollback_needs_a_snapshot_that_was_asked_for() {
    let mut req = guarded("x", Some(RollbackPolicy { max_consecutive_failures: 1, file_damage_check: true }));
    req.enable_rollback_snapshot = false;
    let mut w = world(ran(1, ""));
    w.post = Some(entries(&[" M a.txt"]));
    let r = drive(executor().execute_async(req), &mut w).unwrap();
    assert_eq!(w.rollbacks, 0);
    assert!(!r.auto_rolled_back && !r.rollback_unavailable && r.snapshot_id.is_none());
}

#[test]
fn trace_identifiers_differ() {
    assert_ne!(resolve_trace_id(&None), resolve_trace_id(&None));
    assert_eq!(resolve_trace_id(&Some("own".to_string())), "own");
}

#[test]
fn results_are_classed() {
    let mut r = ExecutionResult::default();
    assert_eq!(record_exec_outcome(&r), ExecClass::Success);
    r.exit_code = 2;
    assert_eq!(record_exec_outcome(&r), ExecClass::Failed);
    r.exit_code = EXIT_TIMEOUT;
    assert_eq!(record_exec_outcome(&r), ExecClass::Timeout);
    assert_eq!(record_exec_outcome(&ExecutionResult::blocked("why".to_string())), ExecClass::Blocked);
}

#[test]
fn defaults_of_a_request() {
    let r = ExecutionRequest::for_command("ls".to_string());
    assert_eq!(f64::from_bits(r.timeout_bits), 30.0);
    assert_eq!(f64::from_bits(default_timeout()), 30.0);
    assert!(r.enable_rollback_snapshot && r.seatbelt && r.use_pty && !r.inherit_env);
    assert_eq!((r.max_nproc, r.max_cpu_sec, r.max_nofile), (1024, 0, 1024));
    assert_eq!((default_nproc(), default_nofile(), default_max_failures()), (1024, 1024, 3));
    assert!(default_true() && default_use_pty());
    assert!(is_false(&false) && !is_false(&true));
    assert_eq!(EXIT_OK, 0);
    let c = r.sandbox_config();
    assert_eq!(c.command, "ls");
    assert_eq!(c.max_output_chars, MAX_OUTPUT_CHARS);
    assert!(c.env.is_empty());
}

#[test]
fn status_is_read_without_empty_and_repeated_lines() {
    let st = AutoRollbackGuard::capture_status(true, "exit status: 0", " M a\n\n?? b\n M a\n", "").unwrap();
    assert_eq!(st, vec![" M a".to_string(), "?? b".to_string()]);
    let e = AutoRollbackGuard::capture_status(false, "exit status: 128", "", " fatal: not a repo \n").unwrap_err();
    assert_eq!(e, "git status 失败 (exit exit status: 128): fatal: not a repo");
}

#[test]
fn damage_is_what_the_command_changed() {
    let g = AutoRollbackGuard::new(RollbackPolicy::default(), "s".to_string(), "/w".to_string(), entries(&[" M old.py"]));
    assert_eq!(g.detect_damage(&entries(&[" M old.py", " D gone.py", "?? new.py", "A  new.py"])), 1);
    assert!(g.looks_at(1));
    assert!(!g.looks_at(0));
}

#[test]
fn executor_keeps_its_lists() {
    let mut ex = Executor::new(Some("/venv"), Some("/opt/bin/python3"));
    assert_eq!(ex.trusted_bin_dirs(), &vec!["/venv/bin".to_string(), "/opt/bin".to_string()]);
    ex = ex.with_extra_whitelist(&vec!["a".to_string()]);
    ex = ex.with_extra_whitelist(&vec!["b".to_string()]);
    assert_eq!(ex.extra_whitelist(), &vec!["a".to_string(), "b".to_string()]);
    ex.reload_whitelist(&vec!["c".to_string()]);
    assert_eq!(ex.extra_whitelist(), &vec!["c".to_string()]);
    let ex = ex.with_gui_config(GuiConfig { allowed_bundle_ids: Some(vec!["com.x".to_string()]), allow_type_into_secure: false });
    assert!(ex.gui.check_bundle_allowed("com.y").is_err());
    let refused = ex.shell_start(false, Some("no".to_string())).unwrap();
    assert!(refused.blocked_by_security && !refused.ok);
    assert_eq!(refused.security_reason.as_deref(), Some("no"));
    assert!(ex.shell_start(true, None).is_none());
}

fn no_options() -> RequestOptions {
    RequestOptions {
        task_id: None,
        cwd: None,
        timeout_bits: None,
        env_vars: None,
        enable_rollback_snapshot: None,
        auto_rollback_policy: None,
        seatbelt: None,
        inherit_env: None,
        use_pty: None,
        max_nproc: None,
        max_cpu_sec: None,
        trace_id: None,
    }
}

#[test]
fn request_takes_the_options_of_a_caller() {
    let mut o = no_options();
    o.task_id = Some("t".to_string());
    o.timeout_bits = Some(5.0f64.to_bits());
    o.seatbelt = Some(true);
    o.use_pty = Some(false);
    o.max_nproc = Some(1);
    o.max_cpu_sec = Some(2);
    let r = request_with("ls".to_string(), o);
    assert_eq!(r.task_id.as_deref(), Some("t"));
    assert_eq!(f64::from_bits(r.timeout_bits), 5.0);
    assert!(r.seatbelt && !r.use_pty);
    assert_eq!((r.max_nproc, r.max_cpu_sec, r.max_nofile), (1, 2, 1024));
    let r = request_with("ls".to_string(), no_options());
    assert_eq!(f64::from_bits(r.timeout_bits), 30.0);
    assert!(!r.seatbelt && r.use_pty && r.enable_rollback_snapshot);
}

#[test]
fn stream_without_its_result_is_an_error() {
    let mut c = StreamCursor::new();
    assert_eq!(c.next(Received::Frame { last: false }), Given::Frame);
    assert_eq!(c.next(Received::Closed), Given::NoResult);
    assert_eq!(c.next(Received::Frame { last: true }), Given::Exhausted);
    let mut c = StreamCursor::new();
    assert_eq!(c.next(Received::TimedOut), Given::TimedOut);
    assert_eq!(c.next(Received::Closed), Given::Exhausted);
    let mut c = StreamCursor::new();
    assert_eq!(c.next(Received::Frame { last: true }), Given::Frame);
    assert_eq!(c.next(Received::Closed), Given::Exhausted);
    let mut c = StreamCursor { open: true, saw_done: true };
    assert_eq!(c.next(Received::Closed), Given::Done);
}

#[test]
fn samples_end_without_an_error() {
    assert_eq!(next_sample(true, Received::Closed), Given::Done);
    assert_eq!(next_sample(true, Received::Frame { last: false }), Given::Frame);
    assert_eq!(next_sample(true, Received::TimedOut), Given::TimedOut);
    assert_eq!(next_sample(false, Received::Closed), Given::Exhausted);
}

#[test]
fn replies_are_read_by_name() {
    assert_eq!(read_flag("{\"ok\":true}", "ok"), Ok(true));
    assert_eq!(read_flag("{\"ok\":1}", "ok"), Ok(false));
    assert_eq!(read_text("{\"a\":\"b\"}", "a"), Ok(Some("b".to_string())));
    assert_eq!(read_text("{}", "a"), Ok(None));
    assert_eq!(output_mode("{}"), Ok("content".to_string()));
    assert_eq!(output_mode("{\"output_mode\":\"count\"}"), Ok("count".to_string()));
    assert_eq!(read_texts("{\"l\":[\"a\",1,\"b\"]}", "l"), Ok(vec!["a".to_string(), "b".to_string()]));
    assert_eq!(read_texts("{}", "l"), Ok(Vec::new()));
    assert!(read_flag("{", "ok").unwrap_err().starts_with("序列化错误: "));
    assert!(read_texts("nope", "ok").is_err());
}
