use fusion_executor::order::sort_stable;
use fusion_executor::rollback::{
    acquire, entry_of, fnv1a_64, lock_path, prune, record_snapshot_index, resolve_git_dir, snapshot_id, snapshot_index_path, snapshot_kind,
    write_entry, Answer, Choice, End, LockStep, LockTry, RollbackManager, RollbackOutcome, Run, SnapshotInfo, Stage, LOCK_ACQUIRE_TIMEOUT_MS, SNAPSHOT_INDEX_MAX,
};

type Going = Run<String, RollbackOutcome>;

/// A work tree with one file, and the commits and stashes that it was recorded in.
struct Tree {
    repo: bool,
    dir: &'static str,
    file: String,
    head: usize,
    commits: Vec<String>,
    stashes: Vec<(String, String)>,
    locks: u32,
    resets: u32,
}

fn sha(n: usize) -> String {
    format!("{:040x}", n + 0x1000)
}

fn stash_sha(n: usize) -> String {
    format!("{:040x}", n + 0x9000)
}

impl Tree {
    fn new(file: &str) -> Tree {
        Tree {
            repo: true,
            dir: "/work/repo/.git",
            file: file.to_string(),
            head: 0,
            commits: vec![file.to_string()],
            stashes: Vec::new(),
            locks: 0,
            resets: 0,
        }
    }

    fn commit(&mut self, file: &str) {
        self.file = file.to_string();
        self.commits.push(file.to_string());
        self.head = self.commits.len() - 1;
    }

    fn stash(&mut self) -> String {
        if self.file == self.commits[self.head] {
            return String::new();
        }
        let id = stash_sha(self.stashes.len());
        self.stashes.push((id.clone(), self.file.clone()));
        id
    }

    fn reset(&mut self, to: &str) -> Answer<String> {
        self.resets += 1;
        for i in 0..self.commits.len() {
            if sha(i) == to || (to == "HEAD" && i == self.head) {
                self.head = i;
                self.file = self.commits[i].clone();
                return Answer::Wrote(String::new());
            }
        }
        Answer::Failed("unknown revision".to_string())
    }

    /// Drives a run to its end.
    fn drive(&mut self, run: Going) -> End<String, RollbackOutcome> {
        let mut run = run;
        for _ in 0..40 {
            let answer = match &run.stage {
                Stage::LiteralDir => verdict(&run.cwd),
                Stage::Canonical => Answer::Leads(Some(run.cwd.clone())),
                Stage::RealDir { target } => verdict(target),
                Stage::IsRepo => Answer::Is(self.repo),
                Stage::Lock => {
                    self.locks += 1;
                    Answer::Locked(None)
                }
                Stage::Head => Answer::Wrote(format!("{}\n", sha(self.head))),
                Stage::Stash { .. } => Answer::Wrote(self.stash()),
                Stage::NameDir { .. } | Stage::MatchDir { .. } => Answer::Wrote(".git\n".to_string()),
                Stage::NameReal { .. } | Stage::MatchReal { .. } => Answer::Leads(Some(self.dir.to_string())),
                Stage::Wip { .. } => Answer::Wrote(self.stash()),
                Stage::Reset { baseline, .. } => {
                    let to = baseline.clone();
                    self.reset(&to)
                }
                Stage::Apply { stash, .. } => match self.stashes.iter().find(|s| &s.0 == stash) {
                    Some(s) => {
                        self.file = s.1.clone();
                        Answer::Wrote(String::new())
                    }
                    None => Answer::Failed("no such stash".to_string()),
                },
                Stage::Checkout => {
                    self.file = self.commits[self.head].clone();
                    Answer::Wrote(String::new())
                }
                Stage::Over(_) => match run.stage {
                    Stage::Over(e) => return e,
                    _ => unreachable!(),
                },
            };
            run = run.step(answer);
        }
        panic!("a run comes to its end");
    }

    fn snapshot(&mut self) -> String {
        match self.drive(RollbackManager::new().snapshot_create("/work/repo")) {
            End::Taken(id) => id,
            _ => panic!("a snapshot is taken"),
        }
    }

    fn rollback(&mut self, id: &str) -> RollbackOutcome {
        match self.drive(RollbackManager::new().rollback(id, "/work/repo")) {
            End::Rolled(o) => o,
            _ => panic!("a rollback gives its outcome"),
        }
    }
}

fn verdict(dir: &str) -> Answer<String> {
    if dir.starts_with("/etc") {
        Answer::Verdict { allowed: false, reason: Some("敏感路径".to_string()) }
    } else {
        Answer::Verdict { allowed: true, reason: None }
    }
}

fn refusal(run: Going) -> String {
    match Tree::new("v1\n").drive(run) {
        End::Refused(why) => why,
        _ => panic!("the run is refused"),
    }
}

#[test]
fn snapshot_then_rollback_restores_file() {
    let mut t = Tree::new("print('v1')\n");
    t.file = "BROKEN\n".to_string();
    let snap = t.snapshot();
    assert!(!snap.is_empty(), "快照 id 非空: {}", snap);
    t.file = "WORSE\n".to_string();
    let ok = t.rollback(&snap);
    assert!(ok.applied, "回滚成功");
    assert_eq!(t.file, "BROKEN\n", "回滚到快照内容");
    assert!(ok.wip_sha.is_some());
}

#[test]
fn rollback_file_single() {
    let mut t = Tree::new("A\n");
    t.file = "A2\n".to_string();
    match t.drive(RollbackManager::new().rollback_file("a.py", "/work/repo")) {
        End::File(ok) => assert!(ok),
        _ => panic!("a file is set back"),
    }
    assert_eq!(t.file, "A\n", "a.py 已恢复");
    assert_eq!(t.resets, 0);
}

#[test]
fn non_repo_snapshot_empty() {
    let mut t = Tree::new("v1\n");
    t.repo = false;
    assert!(t.snapshot().is_empty(), "非 repo 快照为空");
    assert_eq!(t.locks, 0);
}

#[test]
fn rollback_head_baseline_resets_hard() {
    let mut t = Tree::new("v1\n");
    let snap = t.snapshot();
    assert!(snap.starts_with("head:"), "干净应 head 前缀: {}", snap);
    t.commit("v2\n");
    let ok = t.rollback(&snap);
    assert!(ok.applied, "head 基线回滚成功");
    assert_eq!(t.file, "v1\n", "恢复到基线 v1");
}

#[test]
fn rollback_rejects_flaglike_snapshot_id() {
    let mut t = Tree::new("v1\n");
    assert!(!t.rollback("--foo").applied, "flag-like snapshot_id 应被拒");
    assert!(!t.rollback("head:--foo").applied, "head:--foo baseline 非合法 ref 应拒");
    assert_eq!(t.file, "v1\n");
    assert_eq!(t.resets, 0);
}

#[test]
fn parse_snapshot_and_ref_validation() {
    let (k, s, b, repo) = RollbackManager::parse_snapshot("head:abc123").unwrap();
    assert_eq!(k, "head");
    assert!(s.is_none());
    assert_eq!(b.as_deref(), Some("abc123"));
    assert!(repo.is_none(), "无 repo 标识应 None");
    let (k, s, b, repo) = RollbackManager::parse_snapshot("stash:st1,base:he2").unwrap();
    assert_eq!(k, "stash");
    assert_eq!(s.as_deref(), Some("st1"));
    assert_eq!(b.as_deref(), Some("he2"));
    assert!(repo.is_none());
    let (k, _s, b, repo) = RollbackManager::parse_snapshot("head:abc123,repo:deadbeef").unwrap();
    assert_eq!(k, "head");
    assert_eq!(b.as_deref(), Some("abc123"));
    assert_eq!(repo.as_deref(), Some("deadbeef"));
    let (k, s, b, repo) = RollbackManager::parse_snapshot("stash:st1,base:he2,repo:cafe").unwrap();
    assert_eq!(k, "stash");
    assert_eq!(s.as_deref(), Some("st1"));
    assert_eq!(b.as_deref(), Some("he2"));
    assert_eq!(repo.as_deref(), Some("cafe"));
    assert!(RollbackManager::parse_snapshot("garbage").is_none());
    assert!(RollbackManager::parse_snapshot("--foo").is_none());
    assert!(RollbackManager::is_valid_ref("HEAD"));
    assert!(RollbackManager::is_valid_ref("80a4c2f"));
    assert!(RollbackManager::is_valid_ref("80a4c2f3fdf95dee67374b50a2c5aaf8cf9ac15f"));
    assert!(!RollbackManager::is_valid_ref("--foo"));
    assert!(!RollbackManager::is_valid_ref("abc"));
    assert!(!RollbackManager::is_valid_ref("80a4c2f3fdf95dee67374b50a2c5aaf8cf9ac15f1234"));
    assert!(!RollbackManager::is_valid_ref("gggggggggg"));
}

#[test]
fn snapshot_rejects_empty_cwd() {
    let msg = refusal(RollbackManager::new().snapshot_create(""));
    assert!(msg.contains("空"), "空 cwd 应拒: {}", msg);
}

#[test]
fn snapshot_rejects_dotdot_cwd() {
    let msg = refusal(RollbackManager::new().snapshot_create("/tmp/foo/../bar"));
    assert!(msg.contains(".."), "含 .. 的 cwd 应拒: {}", msg);
}

#[test]
fn snapshot_rejects_sensitive_cwd() {
    let msg = refusal(RollbackManager::new().snapshot_create("/etc"));
    assert!(msg.contains("敏感"), "敏感路径 /etc 应拒: {}", msg);
}

#[test]
fn rollback_rejects_sensitive_cwd() {
    let mut t = Tree::new("v1\n");
    let snap = t.snapshot();
    assert!(!snap.is_empty());
    let msg = refusal(RollbackManager::new().rollback(&snap, "/etc"));
    assert!(msg.contains("敏感"), "/etc 应被 validate_cwd 拒: {}", msg);
    assert!(t.rollback(&snap).applied, "正常 repo 应可回滚");
}

#[test]
fn rollback_file_rejects_empty_cwd() {
    let msg = refusal(RollbackManager::new().rollback_file("a.py", ""));
    assert!(msg.contains("空"), "空 cwd 应拒: {}", msg);
}

#[test]
fn rollback_rejects_empty_snapshot_id_fail_loud() {
    let mut t = Tree::new("v1\n");
    t.file = "WIP-重要工作\n".to_string();
    let ok = t.rollback("");
    assert!(!ok.applied, "空 snapshot_id 应拒绝回滚");
    assert!(ok.skipped_reason.is_some(), "L-1: 跳过应有原因 (fail-loud), 非 silent false");
    assert_eq!(t.file, "WIP-重要工作\n", "空 id 回滚拒绝时 WIP 应保留");
}

#[test]
fn rollback_rejects_repo_tag_mismatch() {
    let mut t = Tree::new("v1\n");
    let snap = t.snapshot();
    assert!(snap.contains(",repo:"), "snapshot 应含 repo 标识: {}", snap);
    t.file = "WORSE\n".to_string();
    assert!(t.rollback(&snap).applied, "正确 repo 标识应可回滚");
    let fake = "head:deadbeefdeadbeef,repo:0000000000000000";
    t.file = "WORSE2\n".to_string();
    let ok = t.rollback(fake);
    assert!(!ok.applied, "repo 标识不匹配应拒绝回滚");
    assert!(ok.skipped_reason.is_some(), "L-1: repo 不匹配跳过应有原因 (fail-loud)");
    assert_eq!(t.file, "WORSE2\n", "repo 不匹配拒绝时工作区应不动");
}

#[test]
fn rollback_allows_legacy_snapshot_without_repo_tag() {
    let mut t = Tree::new("v1\n");
    let legacy = format!("head:{}", sha(0));
    assert!(!legacy.contains(",repo:"), "legacy id 无 repo 标识: {}", legacy);
    t.commit("v2\n");
    assert!(t.rollback(&legacy).applied, "无 repo 标识的 legacy id 应放行");
    assert_eq!(t.file, "v1\n", "legacy 回滚恢复到基线 v1");
}

#[test]
fn resolve_git_dir_normal_repo() {
    let resolved = resolve_git_dir("/work/repo", &Some(".git\n".to_string())).expect("普通 repo 应解析出 git dir");
    assert!(resolved.ends_with(".git"), "普通 repo git dir 应以 .git 结尾: {:?}", resolved);
    assert_eq!(resolved, "/work/repo/.git");
    assert_eq!(resolve_git_dir("/work/repo", &Some("/main/.git/worktrees/w\n".to_string())).as_deref(), Some("/main/.git/worktrees/w"));
    assert!(resolve_git_dir("/work/repo", &None).is_none());
}

#[test]
fn snapshot_create_writes_index_and_list_reads_back() {
    let mut t = Tree::new("v1\n");
    let id = t.snapshot();
    assert!(id.starts_with("head:"), "clean 快照应为 head: 前缀: {}", id);
    let body = record_snapshot_index(&None, &id, 5).unwrap();
    let snaps = RollbackManager::list_snapshots(&body);
    assert_eq!(snaps.len(), 1, "索引应含 1 条");
    assert_eq!(snaps[0].id, id, "索引 id 应与 snapshot_create 返回一致");
    assert_eq!(snaps[0].kind, "head");
    assert!(snaps[0].created_ms > 0, "created_ms 非零");
    t.file = "DIRTY\n".to_string();
    let id2 = t.snapshot();
    assert!(id2.starts_with("stash:"), "dirty 快照应为 stash: 前缀: {}", id2);
    let body = record_snapshot_index(&Some(body), &id2, 9).unwrap();
    let snaps2 = RollbackManager::list_snapshots(&body);
    assert_eq!(snaps2.len(), 2, "追加后索引应含 2 条");
    assert_eq!(snaps2[1].id, id2, "最新条目 = stash 快照");
    assert_eq!(snaps2[1].kind, "stash");
    assert!(snaps2[0].created_ms <= snaps2[1].created_ms);
}

#[test]
fn non_repo_returns_empty_index() {
    let mut t = Tree::new("v1\n");
    t.repo = false;
    let id = t.snapshot();
    assert_eq!(id, "", "非 repo 快照应空串");
    assert!(RollbackManager::list_snapshots("").is_empty(), "非 repo 索引应空");
}

#[test]
fn index_retention_prunes_oldest() {
    let total = SNAPSHOT_INDEX_MAX + 5;
    let mut body: Option<String> = None;
    for i in 0..total {
        body = record_snapshot_index(&body, &format!("head:{}", sha(i)), i as u64 + 1);
    }
    let snaps = RollbackManager::list_snapshots(&body.unwrap());
    assert_eq!(snaps.len(), SNAPSHOT_INDEX_MAX, "留存应截到 cap {}", SNAPSHOT_INDEX_MAX);
    assert_eq!(snaps[0].created_ms, 6);
    assert_eq!(snaps[0].id, format!("head:{}", sha(5)));
}

#[test]
fn snapshots_of_a_clock_set_back_are_listed_by_time() {
    let body = record_snapshot_index(&None, "head:aaaaaaa", 90).unwrap();
    let body = record_snapshot_index(&Some(body), "head:bbbbbbb", 10).unwrap();
    let ids: Vec<String> = RollbackManager::list_snapshots(&body).iter().map(|s| s.id.clone()).collect();
    assert_eq!(ids, vec!["head:bbbbbbb".to_string(), "head:aaaaaaa".to_string()]);
}

#[test]
fn lines_that_are_no_entries_are_passed_over() {
    assert!(entry_of("no json").is_none());
    assert!(entry_of("{\"id\":\"head:abc\"}").is_none());
    let e = entry_of("[\"head:abc\", 8, \"head\"]").unwrap();
    assert_eq!((e.id.as_str(), e.created_ms, e.kind.as_str()), ("head:abc", 8, "head"));
    assert!(entry_of("[\"head:abc\", 8]").is_none());
    // A member that stands twice is refused, under whatever spelling of its name; others are passed over.
    assert!(entry_of("{\"id\":\"head:a\",\"id\":\"head:b\",\"created_ms\":7,\"kind\":\"head\"}").is_none());
    assert!(entry_of("{\"id\":\"head:a\",\"\\u0069d\":\"head:b\",\"created_ms\":7,\"kind\":\"head\"}").is_none());
    let e = entry_of(" { \"\\u0069d\" : \"a,{\\\"b\" ,\"x\":[1,{\"id\":2}],\"x\":1e999, \"kind\":\"head\", \"created_ms\": 7 } ").unwrap();
    assert_eq!((e.id.as_str(), e.created_ms, e.kind.as_str()), ("a,{\"b", 7, "head"));
    assert!(entry_of("{\"id\":\"head:a\",\"created_ms\":7,\"kind\":\"head\"} x").is_none());
    assert!(entry_of("{\"id\":\"head:a\",\"created_ms\":7,\"kind\":\"head\",\"\\ud800\":1}").is_none());
    assert!(entry_of("{}").is_none());
    // A line is written with its members in their order.
    let body = record_snapshot_index(&None, "head:abc", 5).unwrap();
    assert_eq!(body, "{\"id\":\"head:abc\",\"created_ms\":5,\"kind\":\"head\"}\n");
    let odd = SnapshotInfo { id: "a\"\\\n\u{1}\u{1f}é".to_string(), created_ms: u64::MAX, kind: "k".to_string() };
    let line = write_entry(&odd);
    assert_eq!(line, "{\"id\":\"a\\\"\\\\\\n\\u0001\\u001fé\",\"created_ms\":18446744073709551615,\"kind\":\"k\"}");
    let back = entry_of(&line).unwrap();
    assert_eq!((back.id, back.created_ms, back.kind), (odd.id, odd.created_ms, odd.kind));
    assert!(entry_of("[\"head:abc\", 8, \"head\", 1]").is_none());
    assert!(entry_of("[\"head:abc\", \"8\", \"head\"]").is_none());
    let e = entry_of("{\"id\":\"stash:a,base:b\",\"created_ms\":7,\"kind\":\"stash\"}").unwrap();
    assert_eq!((e.id.as_str(), e.created_ms, e.kind.as_str()), ("stash:a,base:b", 7, "stash"));
    assert!(RollbackManager::list_snapshots("x\n\n{}\n").is_empty());
}

#[test]
fn short_index_is_kept() {
    let ls = vec!["a".to_string(), "b".to_string()];
    assert_eq!(prune(ls.clone()), ls);
}

#[test]
fn repository_names_are_hashed() {
    assert_eq!(fnv1a_64(""), "cbf29ce484222325");
    assert_eq!(fnv1a_64("a"), "af63dc4c8601ec8c");
    assert_eq!(fnv1a_64("foobar"), "85944171f73967e8");
}

#[test]
fn identifiers_read_back() {
    assert_eq!(snapshot_id("h", "", ""), "head:h");
    let id = snapshot_id("he2", "st1", "cafe");
    assert_eq!(id, "stash:st1,base:he2,repo:cafe");
    let (_, s, b, r) = RollbackManager::parse_snapshot(&id).unwrap();
    assert_eq!((s.as_deref(), b.as_deref(), r.as_deref()), (Some("st1"), Some("he2"), Some("cafe")));
    assert_eq!(snapshot_kind(&id), Some("stash"));
    assert_eq!(snapshot_kind("x"), None);
    assert_eq!(RollbackManager::split_repo_tag("a,repo:b"), ("a".to_string(), Some("b".to_string())));
}

#[test]
fn targets_are_chosen_for_valid_references_only() {
    match RollbackManager::choose_target("stash:80a4c2f,base:90a4c2f") {
        Choice::Go { baseline, stash } => {
            assert_eq!(baseline, "90a4c2f");
            assert_eq!(stash.as_deref(), Some("80a4c2f"));
        }
        Choice::Skip(why) => panic!("{why}"),
    }
    for (id, why) in [("stash:--x,base:90a4c2f", "stash SHA 非合法 ref"), ("head:--x", "baseline 非合法 ref"), ("x", "snapshot_id 解析失败")] {
        match RollbackManager::choose_target(id) {
            Choice::Go { .. } => panic!("{id}"),
            Choice::Skip(w) => assert_eq!(w, why),
        }
    }
}

#[test]
fn failed_steps_are_told() {
    let mut t = Tree::new("v1\n");
    let gone = format!("head:{}", sha(77));
    assert_eq!(t.rollback(&gone).skipped_reason.as_deref(), Some("reset --hard 失败"));
    let gone = format!("stash:{},base:{}", stash_sha(9), sha(0));
    assert_eq!(t.rollback(&gone).skipped_reason.as_deref(), Some("stash apply 失败"));
    let gone = format!("stash:{},base:{}", stash_sha(9), sha(77));
    assert_eq!(t.rollback(&gone).skipped_reason.as_deref(), Some("stash 回滚 reset --hard 失败"));
    t.repo = false;
    assert_eq!(t.rollback("head:80a4c2f").skipped_reason.as_deref(), Some("非 git 仓库"));
}

#[test]
fn lock_is_tried_until_the_time_is_over() {
    assert!(matches!(acquire(LockTry::Taken, 0, "/l"), LockStep::Hold));
    assert!(matches!(acquire(LockTry::HeldByOther, 0, "/l"), LockStep::TryAgain));
    match acquire(LockTry::HeldByOther, LOCK_ACQUIRE_TIMEOUT_MS, "/l") {
        LockStep::GiveUp(why) => assert_eq!(why, "获取回滚锁超时 (30000ms): /l"),
        _ => panic!("the time is over"),
    }
    match acquire(LockTry::Broken, 0, "/l") {
        LockStep::GiveUp(why) => assert_eq!(why, "获取回滚锁失败 (IO 错误): /l"),
        _ => panic!("a broken lock is not waited for"),
    }
}

#[test]
fn files_of_a_repository_lie_in_its_directory() {
    let dir = Some("/r/.git".to_string());
    assert_eq!(lock_path("/r", &dir, true).as_deref(), Some("/r/.git/fe-rollback.lock"));
    assert_eq!(snapshot_index_path("/r", &dir, true).as_deref(), Some("/r/.git/fe-snapshots.ndjson"));
    assert_eq!(snapshot_index_path("/r", &None, true).as_deref(), Some("/r/.git/fe-snapshots.ndjson"));
    assert!(snapshot_index_path("/r", &None, false).is_none());
}

#[test]
fn equal_keys_keep_their_order() {
    let v: Vec<(u128, &str)> = vec![(2, "a"), (1, "b"), (2, "c"), (1, "d")];
    assert_eq!(sort_stable(v), vec![(1, "b"), (1, "d"), (2, "a"), (2, "c")]);
}
