//! Execution: the way of a command from the request to its result.

use vstd::prelude::*;
use crate::diagnostics::{DiagV, Diagnostics};
use crate::rollback::{OutcomeV, RollbackOutcome};
use crate::text::{holds, lines, lines_of, once, opt_clone, opt_text, texts, trim, trimmed};

verus! {

/// Exit code of a command that ended well.
pub const EXIT_OK: i32 = 0;

/// Exit code of a command that took too long.
pub const EXIT_TIMEOUT: i32 = -124;

/// Exit code of a command that was blocked, or that failed inside the executor.
pub const EXIT_BLOCKED: i32 = -1;

/// How many characters of its output are kept of a command.
pub const MAX_OUTPUT_CHARS: usize = 100_000;

/// The bits of the double that stands for thirty seconds.
pub const DEFAULT_TIMEOUT_BITS: u64 = 0x403e_0000_0000_0000;

/// Whether a command gets a terminal where the request does not say.
pub fn default_use_pty() -> (r: bool)
    ensures
        r == true,
{
    true
}

/// How many processes a command may have where the request does not say.
pub fn default_nproc() -> (r: u32)
    ensures
        r == 1024,
{
    1024
}

/// How many files a command may have open where the request does not say.
pub fn default_nofile() -> (r: u32)
    ensures
        r == 1024,
{
    1024
}

/// How long a command may take where the request does not say, as the bits of a double.
pub fn default_timeout() -> (r: u64)
    ensures
        r == DEFAULT_TIMEOUT_BITS,
{
    DEFAULT_TIMEOUT_BITS
}

/// What is on where the request does not say.
pub fn default_true() -> (r: bool)
    ensures
        r == true,
{
    true
}

/// How many failures in a row are borne where the policy does not say.
pub fn default_max_failures() -> (r: u32)
    ensures
        r == 3,
{
    3
}

/// Whether a mark is off, so that it need not be written.
pub fn is_false(b: &bool) -> (r: bool)
    ensures
        r == !*b,
{
    !*b
}

/// When the work tree is set back of its own accord.
#[derive(Debug, Clone, Copy, PartialEq, Eq, Structural)]
pub struct RollbackPolicy {
    /// Kept for callers that count failures themselves; it decides nothing here.
    pub max_consecutive_failures: u32,
    /// Whether damage to tracked files sets the work tree back.
    pub file_damage_check: bool,
}

impl Default for RollbackPolicy {
    fn default() -> (r: Self)
        ensures
            r == (RollbackPolicy { max_consecutive_failures: 3, file_damage_check: true }),
    {
        RollbackPolicy { max_consecutive_failures: 3, file_damage_check: true }
    }
}

/// A command that is to be run, and how.
#[derive(Debug, Clone)]
pub struct ExecutionRequest {
    pub command: String,
    pub task_id: Option<String>,
    pub cwd: Option<String>,
    /// How long the command may take in seconds, as the bits of a double.
    pub timeout_bits: u64,
    pub env_vars: Option<Vec<(String, String)>>,
    pub enable_rollback_snapshot: bool,
    pub auto_rollback_policy: Option<RollbackPolicy>,
    pub seatbelt: bool,
    pub inherit_env: bool,
    pub use_pty: bool,
    pub max_nproc: u32,
    pub max_cpu_sec: u32,
    pub max_nofile: u32,
    pub trace_id: Option<String>,
}

/// The names and values of some variables.
pub open spec fn pairs_said(v: Seq<(String, String)>) -> Seq<(Seq<char>, Seq<char>)> {
    v.map_values(|p: (String, String)| (p.0@, p.1@))
}

/// What a request says.
pub struct RequestV {
    pub command: Seq<char>,
    pub task_id: Option<Seq<char>>,
    pub cwd: Option<Seq<char>>,
    pub timeout_bits: u64,
    pub env_vars: Seq<(Seq<char>, Seq<char>)>,
    pub enable_rollback_snapshot: bool,
    pub auto_rollback_policy: Option<RollbackPolicy>,
    pub seatbelt: bool,
    pub inherit_env: bool,
    pub use_pty: bool,
    pub max_nproc: u32,
    pub max_cpu_sec: u32,
    pub max_nofile: u32,
    pub trace_id: Option<Seq<char>>,
}

impl View for ExecutionRequest {
    type V = RequestV;

    open spec fn view(&self) -> RequestV {
        RequestV {
            command: self.command@,
            task_id: opt_text(self.task_id),
            cwd: opt_text(self.cwd),
            timeout_bits: self.timeout_bits,
            env_vars: match self.env_vars {
                Some(v) => pairs_said(v@),
                None => Seq::empty(),
            },
            enable_rollback_snapshot: self.enable_rollback_snapshot,
            auto_rollback_policy: self.auto_rollback_policy,
            seatbelt: self.seatbelt,
            inherit_env: self.inherit_env,
            use_pty: self.use_pty,
            max_nproc: self.max_nproc,
            max_cpu_sec: self.max_cpu_sec,
            max_nofile: self.max_nofile,
            trace_id: opt_text(self.trace_id),
        }
    }
}

impl ExecutionRequest {
    /// The request for a command that says nothing else.
    pub fn for_command(command: String) -> (r: ExecutionRequest)
        ensures
            r@ == (RequestV {
                command: command@,
                task_id: None,
                cwd: None,
                timeout_bits: DEFAULT_TIMEOUT_BITS,
                env_vars: Seq::empty(),
                enable_rollback_snapshot: true,
                auto_rollback_policy: None,
                seatbelt: true,
                inherit_env: false,
                use_pty: true,
                max_nproc: 1024,
                max_cpu_sec: 0,
                max_nofile: 1024,
                trace_id: None,
            }),
    {
        ExecutionRequest {
            command,
            task_id: None,
            cwd: None,
            timeout_bits: default_timeout(),
            env_vars: None,
            enable_rollback_snapshot: default_true(),
            auto_rollback_policy: None,
            seatbelt: default_true(),
            inherit_env: false,
            use_pty: default_use_pty(),
            max_nproc: default_nproc(),
            max_cpu_sec: 0,
            max_nofile: default_nofile(),
            trace_id: None,
        }
    }
}

/// What came of a command.
#[derive(Debug, Clone)]
pub struct ExecutionResult {
    pub exit_code: i32,
    pub stdout: String,
    pub stderr: String,
    pub task_id: Option<String>,
    pub command: Option<String>,
    /// How long it took, in nanoseconds.
    pub duration_ns: u64,
    pub timed_out: bool,
    pub blocked_by_security: bool,
    pub security_reason: Option<String>,
    pub snapshot_id: Option<String>,
    pub diagnostics: Option<Diagnostics>,
    pub auto_rolled_back: bool,
    pub rollback_unavailable: bool,
    pub rollback_skipped_reason: Option<String>,
    pub trace_id: Option<String>,
}

/// What a result says.
pub struct ResultV {
    pub exit_code: i32,
    pub stdout: Seq<char>,
    pub stderr: Seq<char>,
    pub task_id: Option<Seq<char>>,
    pub command: Option<Seq<char>>,
    pub duration_ns: u64,
    pub timed_out: bool,
    pub blocked_by_security: bool,
    pub security_reason: Option<Seq<char>>,
    pub snapshot_id: Option<Seq<char>>,
    pub diagnostics: Option<DiagV>,
    pub auto_rolled_back: bool,
    pub rollback_unavailable: bool,
    pub rollback_skipped_reason: Option<Seq<char>>,
    pub trace_id: Option<Seq<char>>,
}

/// What an optional diagnosis says.
pub open spec fn opt_diag(d: Option<Diagnostics>) -> Option<DiagV> {
    match d {
        Some(d) => Some(d@),
        None => None,
    }
}

impl View for ExecutionResult {
    type V = ResultV;

    open spec fn view(&self) -> ResultV {
        ResultV {
            exit_code: self.exit_code,
            stdout: self.stdout@,
            stderr: self.stderr@,
            task_id: opt_text(self.task_id),
            command: opt_text(self.command),
            duration_ns: self.duration_ns,
            timed_out: self.timed_out,
            blocked_by_security: self.blocked_by_security,
            security_reason: opt_text(self.security_reason),
            snapshot_id: opt_text(self.snapshot_id),
            diagnostics: opt_diag(self.diagnostics),
            auto_rolled_back: self.auto_rolled_back,
            rollback_unavailable: self.rollback_unavailable,
            rollback_skipped_reason: opt_text(self.rollback_skipped_reason),
            trace_id: opt_text(self.trace_id),
        }
    }
}

impl ExecutionResult {
    /// The same result again.
    pub fn copy(&self) -> (r: ExecutionResult)
        ensures
            r@ == self@,
    {
        ExecutionResult {
            exit_code: self.exit_code,
            stdout: self.stdout.clone(),
            stderr: self.stderr.clone(),
            task_id: opt_clone(&self.task_id),
            command: opt_clone(&self.command),
            duration_ns: self.duration_ns,
            timed_out: self.timed_out,
            blocked_by_security: self.blocked_by_security,
            security_reason: opt_clone(&self.security_reason),
            snapshot_id: opt_clone(&self.snapshot_id),
            diagnostics: match &self.diagnostics {
                Some(d) => Some(d.copy()),
                None => None,
            },
            auto_rolled_back: self.auto_rolled_back,
            rollback_unavailable: self.rollback_unavailable,
            rollback_skipped_reason: opt_clone(&self.rollback_skipped_reason),
            trace_id: opt_clone(&self.trace_id),
        }
    }
}

/// The result that says nothing.
pub open spec fn no_result() -> ResultV {
    ResultV {
        exit_code: 0,
        stdout: Seq::empty(),
        stderr: Seq::empty(),
        task_id: None,
        command: None,
        duration_ns: 0,
        timed_out: false,
        blocked_by_security: false,
        security_reason: None,
        snapshot_id: None,
        diagnostics: None,
        auto_rolled_back: false,
        rollback_unavailable: false,
        rollback_skipped_reason: None,
        trace_id: None,
    }
}

/// The result of a command that was blocked.
pub open spec fn blocked_said(reason: Seq<char>, task_id: Option<Seq<char>>, command: Option<Seq<char>>, trace_id: Option<Seq<char>>) -> ResultV {
    ResultV {
        exit_code: EXIT_BLOCKED,
        blocked_by_security: true,
        security_reason: Some(reason),
        task_id,
        command,
        trace_id,
        ..no_result()
    }
}

impl Default for ExecutionResult {
    fn default() -> (r: Self)
        ensures
            r@ == no_result(),
    {
        ExecutionResult {
            exit_code: 0,
            stdout: String::new(),
            stderr: String::new(),
            task_id: None,
            command: None,
            duration_ns: 0,
            timed_out: false,
            blocked_by_security: false,
            security_reason: None,
            snapshot_id: None,
            diagnostics: None,
            auto_rolled_back: false,
            rollback_unavailable: false,
            rollback_skipped_reason: None,
            trace_id: None,
        }
    }
}

impl ExecutionResult {
    /// The result of a command that was blocked.
    pub fn blocked(reason: String) -> (r: Self)
        ensures
            r@ == blocked_said(reason@, None, None, None),
    {
        Self::blocked_with(reason, None, None, None)
    }

    /// The result of a command that was blocked, with what is known of the request.
    pub fn blocked_with(reason: String, task_id: Option<String>, command: Option<String>, trace_id: Option<String>) -> (r: Self)
        ensures
            r@ == blocked_said(reason@, opt_text(task_id), opt_text(command), opt_text(trace_id)),
    {
        ExecutionResult {
            exit_code: EXIT_BLOCKED,
            stdout: String::new(),
            stderr: String::new(),
            task_id,
            command,
            duration_ns: 0,
            timed_out: false,
            blocked_by_security: true,
            security_reason: Some(reason),
            snapshot_id: None,
            diagnostics: None,
            auto_rolled_back: false,
            rollback_unavailable: false,
            rollback_skipped_reason: None,
            trace_id,
        }
    }
}

/// The classes that results are counted by.
#[derive(Debug, Clone, Copy, PartialEq, Eq, Structural)]
pub enum ExecClass {
    Blocked,
    Timeout,
    Success,
    Failed,
}

/// The class of a result.
pub open spec fn class_of(r: ResultV) -> ExecClass {
    if r.blocked_by_security {
        ExecClass::Blocked
    } else if r.timed_out || r.exit_code == EXIT_TIMEOUT {
        ExecClass::Timeout
    } else if r.exit_code == EXIT_OK {
        ExecClass::Success
    } else {
        ExecClass::Failed
    }
}

/// The class that a result is counted in.
pub fn record_exec_outcome(r: &ExecutionResult) -> (c: ExecClass)
    ensures
        c == class_of(r@),
{
    if r.blocked_by_security {
        ExecClass::Blocked
    } else if r.timed_out || r.exit_code == EXIT_TIMEOUT {
        ExecClass::Timeout
    } else if r.exit_code == EXIT_OK {
        ExecClass::Success
    } else {
        ExecClass::Failed
    }
}

/// What a running command sends: parts of its output, and at last its result.
#[derive(Debug, Clone)]
pub enum ExecutionStreamEvent {
    Chunk { data: String },
    Done(ExecutionResult),
}

/// What a running command sends, as it is said.
pub enum EventV {
    Chunk { data: Seq<char> },
    Done(ResultV),
}

impl View for ExecutionStreamEvent {
    type V = EventV;

    open spec fn view(&self) -> EventV {
        match self {
            ExecutionStreamEvent::Chunk { data } => EventV::Chunk { data: data@ },
            ExecutionStreamEvent::Done(r) => EventV::Done(r@),
        }
    }
}

/// What is sent, where anything is.
pub open spec fn opt_event(e: Option<ExecutionStreamEvent>) -> Option<EventV> {
    match e {
        Some(e) => Some(e@),
        None => None,
    }
}

/// Whether a status letter stands for a change to a tracked file.
pub open spec fn is_change_code(c: char) -> bool {
    c == 'M' || c == 'D' || c == 'R' || c == 'C' || c == 'T'
}

/// Whether a line of `git status --porcelain` tells of a change to a tracked file: one of its first
/// two bytes is a letter for such a change.
pub open spec fn is_mutation(entry: Seq<char>) -> bool {
    entry.len() >= 2 && (entry[0] as u32) < 128 && (is_change_code(entry[0]) || is_change_code(entry[1]))
}

/// Whether a line of `git status --porcelain` tells of a change to a tracked file.
pub fn is_tracked_mutation(entry: &str) -> (r: bool)
    ensures
        r == is_mutation(entry@),
{
    let v = crate::text::chars_of(entry);
    if v.len() < 2 || v[0] as u32 >= 128 {
        return false;
    }
    let x = v[0];
    let y = v[1];
    x == 'M' || x == 'D' || x == 'R' || x == 'C' || x == 'T' || y == 'M' || y == 'D' || y == 'R' || y == 'C' || y == 'T'
}

/// The lines of a status that are not empty, each once, in the order in which they come first.
pub open spec fn status_said(ls: Seq<Seq<char>>) -> Seq<Seq<char>>
    decreases ls.len(),
{
    if ls.len() == 0 {
        Seq::empty()
    } else {
        let before = status_said(ls.drop_last());
        if ls.last().len() == 0 || before.contains(ls.last()) {
            before
        } else {
            before.push(ls.last())
        }
    }
}

/// A text is held once in what a status is taken down as.
pub proof fn law_status_has_no_duplicates(ls: Seq<Seq<char>>)
    ensures
        status_said(ls).no_duplicates(),
        forall|e: Seq<char>| status_said(ls).contains(e) <==> e.len() > 0 && ls.contains(e),
    decreases ls.len(),
{
    let out = status_said(ls);
    if ls.len() > 0 {
        let front = ls.drop_last();
        let before = status_said(front);
        law_status_has_no_duplicates(front);
        assert(ls =~= front.push(ls.last()));
        assert forall|e: Seq<char>| out.contains(e) <==> e.len() > 0 && ls.contains(e) by {
            assert(ls.contains(e) <==> front.contains(e) || e == ls.last()) by {
                if front.contains(e) {
                    let k = choose|k: int| 0 <= k < front.len() && front[k] == e;
                    assert(ls[k] == e);
                }
                if e == ls.last() {
                    assert(ls[ls.len() - 1] == e);
                }
                if ls.contains(e) && e != ls.last() {
                    let k = choose|k: int| 0 <= k < ls.len() && ls[k] == e;
                    assert(front[k] == e);
                }
            }
            if out != before {
                assert(out == before.push(ls.last()));
                assert(out.contains(e) <==> before.contains(e) || e == ls.last()) by {
                    if before.contains(e) {
                        let k = choose|k: int| 0 <= k < before.len() && before[k] == e;
                        assert(out[k] == e);
                    }
                    if e == ls.last() {
                        assert(out[out.len() - 1] == e);
                    }
                }
            }
        }
    }
}

/// The changes that are new in a status and are changes to tracked files.
pub open spec fn new_damage(pre: Seq<Seq<char>>, post: Seq<Seq<char>>) -> Seq<Seq<char>>
    decreases post.len(),
{
    if post.len() == 0 {
        Seq::empty()
    } else if !pre.contains(post.last()) && is_mutation(post.last()) {
        new_damage(pre, post.drop_last()).push(post.last())
    } else {
        new_damage(pre, post.drop_last())
    }
}

/// Damage is what is new and a change to a tracked file, and nothing else.
pub proof fn law_damage_is_new_and_tracked(pre: Seq<Seq<char>>, post: Seq<Seq<char>>, entry: Seq<char>)
    ensures
        new_damage(pre, post).contains(entry) <==> post.contains(entry) && !pre.contains(entry) && is_mutation(entry),
    decreases post.len(),
{
    if post.len() > 0 {
        let front = post.drop_last();
        let before = new_damage(pre, front);
        let out = new_damage(pre, post);
        law_damage_is_new_and_tracked(pre, front, entry);
        assert(post =~= front.push(post.last()));
        if front.contains(entry) {
            let k = choose|k: int| 0 <= k < front.len() && front[k] == entry;
            assert(post[k] == entry);
        }
        if post.contains(entry) && entry != post.last() {
            let k = choose|k: int| 0 <= k < post.len() && post[k] == entry;
            assert(front[k] == entry);
        }
        if out != before {
            assert(out == before.push(post.last()));
            assert(out[out.len() - 1] == post.last());
            if before.contains(entry) {
                let k = choose|k: int| 0 <= k < before.len() && before[k] == entry;
                assert(out[k] == entry);
            }
        }
    }
}

/// A command that has only made files, or left changes that were there before it, has done no
/// damage.
pub proof fn law_made_files_are_no_damage(pre: Seq<Seq<char>>, post: Seq<Seq<char>>)
    requires
        forall|k: int| 0 <= k < post.len() ==> pre.contains(#[trigger] post[k]) || is_made(post[k]),
    ensures
        new_damage(pre, post) == Seq::<Seq<char>>::empty(),
    decreases post.len(),
{
    if post.len() > 0 {
        let front = post.drop_last();
        assert forall|k: int| 0 <= k < front.len() implies pre.contains(#[trigger] front[k]) || is_made(front[k]) by {
            assert(front[k] == post[k]);
        }
        law_made_files_are_no_damage(pre, front);
        assert(post.last() == post[post.len() - 1]);
    }
}

/// Whether a line of `git status --porcelain` tells of a file that is not tracked, or was only added.
pub open spec fn is_made(entry: Seq<char>) -> bool {
    entry.len() >= 2 && (entry[0] == '?' && entry[1] == '?' || entry[0] == 'A' && entry[1] == ' ')
}

/// Sets the work tree back where a failed command has damaged tracked files.
#[derive(Debug, Clone)]
pub struct AutoRollbackGuard {
    policy: RollbackPolicy,
    snapshot_id: String,
    cwd: String,
    pre_status: Vec<String>,
}

/// What a guard knows: when the work tree is set back, to which snapshot, where it is, and its
/// status before the command.
pub struct GuardV {
    pub policy: RollbackPolicy,
    pub snapshot_id: Seq<char>,
    pub cwd: Seq<char>,
    pub pre_status: Seq<Seq<char>>,
}

impl View for AutoRollbackGuard {
    type V = GuardV;

    closed spec fn view(&self) -> GuardV {
        GuardV {
            policy: self.policy,
            snapshot_id: self.snapshot_id@,
            cwd: self.cwd@,
            pre_status: texts(self.pre_status@),
        }
    }
}

/// A result with the mark that the work tree could not be looked after.
pub open spec fn with_unavailable(r: ResultV) -> ResultV {
    ResultV { rollback_unavailable: true, ..r }
}

/// A result with the outcome of a rollback.
pub open spec fn with_outcome(r: ResultV, o: OutcomeV) -> ResultV {
    if o.applied {
        ResultV { auto_rolled_back: true, ..r }
    } else {
        match o.skipped_reason {
            Some(reason) => ResultV { rollback_skipped_reason: Some(reason), ..r },
            None => r,
        }
    }
}

/// The status of a work tree, or why `git status --porcelain` did not give it.
pub open spec fn status_taken(success: bool, exit: Seq<char>, out: Seq<char>, err: Seq<char>) -> Result<Seq<Seq<char>>, Seq<char>> {
    if success {
        Ok(status_said(lines_of(out)))
    } else {
        Err("git status 失败 (exit "@ + exit + "): "@ + trimmed(err))
    }
}

/// What a status says.
pub open spec fn status_view(r: Result<Vec<String>, String>) -> Result<Seq<Seq<char>>, Seq<char>> {
    match r {
        Ok(v) => Ok(texts(v@)),
        Err(e) => Err(e@),
    }
}

/// The lines of a status that are not empty, each once.
fn status_entries(wrote: &str) -> (r: Vec<String>)
    ensures
        texts(r@) == status_said(lines_of(wrote@)),
{
    let ls = lines(wrote);
    let mut out: Vec<String> = Vec::new();
    let mut i: usize = 0;
    while i < ls.len()
        invariant
            i <= ls@.len(),
            texts(out@) == status_said(texts(ls@).take(i as int)),
        decreases ls@.len() - i,
    {
        proof {
            assert(texts(ls@).take(i + 1).drop_last() =~= texts(ls@).take(i as int));
            assert(texts(ls@).take(i + 1).last() == ls@[i as int]@);
        }
        if !ls[i].as_str().is_empty() && !holds(&out, ls[i].as_str()) {
            let ghost before = texts(out@);
            out.push(ls[i].clone());
            proof {
                assert(texts(out@) =~= before.push(ls@[i as int]@));
            }
        }
        i = i + 1;
    }
    proof {
        assert(texts(ls@).take(i as int) =~= texts(ls@));
    }
    out
}

impl AutoRollbackGuard {
    /// A guard over one command.
    pub fn new(policy: RollbackPolicy, snapshot_id: String, cwd: String, pre_status: Vec<String>) -> (r: Self)
        ensures
            r@ == (GuardV { policy, snapshot_id: snapshot_id@, cwd: cwd@, pre_status: texts(pre_status@) }),
    {
        AutoRollbackGuard { policy, snapshot_id, cwd, pre_status }
    }

    /// The status of a work tree from what `git status --porcelain` gave: its exit status in words,
    /// what it wrote, and what it wrote of errors.
    pub fn capture_status(success: bool, exit: &str, out: &str, err: &str) -> (r: Result<Vec<String>, String>)
        ensures
            status_view(r) == status_taken(success, exit@, out@, err@),
    {
        if success {
            Ok(status_entries(out))
        } else {
            let mut why = "git status 失败 (exit ".to_owned();
            why.append(exit);
            why.append("): ");
            why.append(trim(err).as_str());
            Err(why)
        }
    }

    /// How many changes to tracked files are new since before the command.
    pub fn detect_damage(&self, post: &Vec<String>) -> (r: usize)
        ensures
            r == new_damage(self@.pre_status, texts(post@)).len(),
    {
        let mut n: usize = 0;
        let mut i: usize = 0;
        while i < post.len()
            invariant
                n <= i <= post@.len(),
                n == new_damage(self@.pre_status, texts(post@).take(i as int)).len(),
            decreases post@.len() - i,
        {
            proof {
                assert(texts(post@).take(i + 1).drop_last() =~= texts(post@).take(i as int));
                assert(texts(post@).take(i + 1).last() == post@[i as int]@);
            }
            if !holds(&self.pre_status, post[i].as_str()) && is_tracked_mutation(post[i].as_str()) {
                n = n + 1;
            }
            i = i + 1;
        }
        proof {
            assert(texts(post@).take(i as int) =~= texts(post@));
        }
        n
    }

    /// Whether a result calls for a look at the work tree.
    pub fn looks_at(&self, exit_code: i32) -> (r: bool)
        ensures
            r == (exit_code != 0 && self@.policy.file_damage_check),
    {
        exit_code != 0 && self.policy.file_damage_check
    }

    /// Records in a result how the rollback went, where it could be carried out.
    pub fn record_result(result: ExecutionResult, outcome: Option<RollbackOutcome>) -> (r: ExecutionResult)
        ensures
            match outcome {
                Some(o) => r@ == with_outcome(result@, o@),
                None => r@ == with_unavailable(result@),
            },
    {
        let mut result = result;
        match outcome {
            None => {
                result.rollback_unavailable = true;
            },
            Some(o) => {
                if o.applied {
                    result.auto_rolled_back = true;
                } else if let Some(reason) = o.skipped_reason {
                    result.rollback_skipped_reason = Some(reason);
                }
            },
        }
        result
    }
}

/// How a command is run.
#[derive(Debug, Clone)]
pub struct SandboxConfig {
    pub command: String,
    pub cwd: Option<String>,
    pub env: Vec<(String, String)>,
    /// How long the command may take in seconds, as the bits of a double.
    pub timeout_bits: u64,
    pub max_output_chars: usize,
    pub seatbelt: bool,
    pub inherit_env: bool,
    pub use_pty: bool,
    pub max_nproc: u32,
    pub max_cpu_sec: u32,
    pub max_nofile: u32,
}

/// Whether a configuration is the one that a request asks for.
pub open spec fn is_config_for(c: SandboxConfig, req: RequestV) -> bool {
    &&& c.command@ == req.command
    &&& opt_text(c.cwd) == req.cwd
    &&& pairs_said(c.env@) == req.env_vars
    &&& c.timeout_bits == req.timeout_bits
    &&& c.max_output_chars == MAX_OUTPUT_CHARS
    &&& c.seatbelt == req.seatbelt
    &&& c.inherit_env == req.inherit_env
    &&& c.use_pty == req.use_pty
    &&& c.max_nproc == req.max_nproc
    &&& c.max_cpu_sec == req.max_cpu_sec
    &&& c.max_nofile == req.max_nofile
}

/// A copy of some variables.
fn copy_pairs(v: &Vec<(String, String)>) -> (r: Vec<(String, String)>)
    ensures
        pairs_said(r@) == pairs_said(v@),
        r@.len() == v@.len(),
        forall|i: int| 0 <= i < v@.len() ==> (#[trigger] r@[i]).0@ == v@[i].0@ && r@[i].1@ == v@[i].1@,
{
    let mut out: Vec<(String, String)> = Vec::new();
    let mut i: usize = 0;
    while i < v.len()
        invariant
            i <= v@.len(),
            out@.len() == i,
            forall|k: int| 0 <= k < i ==> (#[trigger] out@[k]).0@ == v@[k].0@ && out@[k].1@ == v@[k].1@,
        decreases v@.len() - i,
    {
        out.push((v[i].0.clone(), v[i].1.clone()));
        i = i + 1;
    }
    proof {
        assert(pairs_said(out@) =~= pairs_said(v@));
    }
    out
}

impl ExecutionRequest {
    /// How the command of the request is run.
    pub fn sandbox_config(&self) -> (r: SandboxConfig)
        ensures
            is_config_for(r, self@),
            r.command@ == self.command@,
            match self.cwd {
                Some(d) => r.cwd matches Some(c) && c@ == d@,
                None => r.cwd is None,
            },
            match self.env_vars {
                Some(v) => r.env@.len() == v@.len() && forall|i: int|
                    0 <= i < v@.len() ==> (#[trigger] r.env@[i]).0@ == v@[i].0@ && r.env@[i].1@ == v@[i].1@,
                None => r.env@.len() == 0,
            },
            r.timeout_bits == self.timeout_bits,
            r.max_output_chars == 100_000,
            r.seatbelt == self.seatbelt,
            r.inherit_env == self.inherit_env,
            r.use_pty == self.use_pty,
            r.max_nproc == self.max_nproc,
            r.max_cpu_sec == self.max_cpu_sec,
            r.max_nofile == self.max_nofile,
    {
        let env = match &self.env_vars {
            Some(v) => copy_pairs(v),
            None => {
                let none: Vec<(String, String)> = Vec::new();
                proof {
                    assert(pairs_said(none@) =~= Seq::empty());
                }
                none
            },
        };
        SandboxConfig {
            command: self.command.clone(),
            cwd: opt_clone(&self.cwd),
            env,
            timeout_bits: self.timeout_bits,
            max_output_chars: MAX_OUTPUT_CHARS,
            seatbelt: self.seatbelt,
            inherit_env: self.inherit_env,
            use_pty: self.use_pty,
            max_nproc: self.max_nproc,
            max_cpu_sec: self.max_cpu_sec,
            max_nofile: self.max_nofile,
        }
    }
}

/// A configuration for a request runs the command of the request in the directory of the request,
/// with its variables and under its limits; what it does not say of a variable is not set.
pub proof fn law_config_is_that_of_the_request(c: SandboxConfig, req: RequestV)
    requires
        is_config_for(c, req),
    ensures
        c.command@ == req.command,
        req.cwd is None <==> c.cwd is None,
        req.cwd matches Some(d) ==> (c.cwd matches Some(e) && e@ == d),
        c.env@.len() == req.env_vars.len(),
        forall|i: int| 0 <= i < req.env_vars.len() ==> ((#[trigger] req.env_vars[i]).0 == c.env@[i].0@ && req.env_vars[i].1 == c.env@[i].1@),
        c.timeout_bits == req.timeout_bits,
        c.max_output_chars == 100_000,
        (c.seatbelt, c.inherit_env, c.use_pty) == (req.seatbelt, req.inherit_env, req.use_pty),
        (c.max_nproc, c.max_cpu_sec, c.max_nofile) == (req.max_nproc, req.max_cpu_sec, req.max_nofile),
{
    assert forall|i: int| 0 <= i < req.env_vars.len() implies ((#[trigger] req.env_vars[i]).0 == c.env@[i].0@ && req.env_vars[i].1 == c.env@[i].1@) by {
        assert(pairs_said(c.env@)[i] == (c.env@[i].0@, c.env@[i].1@));
    }
}

/// A request is seen as it is: each part of what it says is its own.
pub proof fn law_request_is_seen_as_it_is(r: ExecutionRequest)
    ensures
        r@.command == r.command@,
        r.cwd matches Some(c) ==> r@.cwd == Some(c@),
        r.cwd is None ==> r@.cwd is None,
        r.task_id matches Some(t) ==> r@.task_id == Some(t@),
        r.task_id is None ==> r@.task_id is None,
        r.trace_id matches Some(t) ==> r@.trace_id == Some(t@),
        r.trace_id is None ==> r@.trace_id is None,
        r@.enable_rollback_snapshot == r.enable_rollback_snapshot,
        r@.auto_rollback_policy == r.auto_rollback_policy,
        (r@.timeout_bits, r@.seatbelt, r@.inherit_env, r@.use_pty) == (r.timeout_bits, r.seatbelt, r.inherit_env, r.use_pty),
        (r@.max_nproc, r@.max_cpu_sec, r@.max_nofile) == (r.max_nproc, r.max_cpu_sec, r.max_nofile),
{
}

/// A result is seen as it is: each part of what it says is its own.
pub proof fn law_result_is_seen_as_it_is(r: ExecutionResult)
    ensures
        (r@.exit_code, r@.duration_ns, r@.timed_out, r@.blocked_by_security) == (r.exit_code, r.duration_ns, r.timed_out, r.blocked_by_security),
        (r@.auto_rolled_back, r@.rollback_unavailable) == (r.auto_rolled_back, r.rollback_unavailable),
        r@.stdout == r.stdout@,
        r@.stderr == r.stderr@,
        r.task_id matches Some(t) ==> r@.task_id == Some(t@),
        r.command matches Some(t) ==> r@.command == Some(t@),
        r.trace_id matches Some(t) ==> r@.trace_id == Some(t@),
        r.snapshot_id matches Some(t) ==> r@.snapshot_id == Some(t@),
        r.security_reason matches Some(t) ==> r@.security_reason == Some(t@),
        r.rollback_skipped_reason matches Some(t) ==> r@.rollback_skipped_reason == Some(t@),
        r.diagnostics matches Some(d) ==> r@.diagnostics == Some(d@),
        r.task_id is None <==> r@.task_id is None,
        r.command is None <==> r@.command is None,
        r.trace_id is None <==> r@.trace_id is None,
        r.snapshot_id is None <==> r@.snapshot_id is None,
        r.security_reason is None <==> r@.security_reason is None,
        r.rollback_skipped_reason is None <==> r@.rollback_skipped_reason is None,
        r.diagnostics is None <==> r@.diagnostics is None,
{
}

/// A blocked result has the code of a blocked command and its reason, has written nothing, has taken
/// no time, and names what was asked for.
pub proof fn law_blocked_result_says_why(reason: Seq<char>, task_id: Option<Seq<char>>, command: Option<Seq<char>>, trace_id: Option<Seq<char>>)
    ensures
        ({
            let r = blocked_said(reason, task_id, command, trace_id);
            &&& r.exit_code == -1
            &&& r.blocked_by_security && r.security_reason == Some(reason)
            &&& r.stdout.len() == 0 && r.stderr.len() == 0 && r.duration_ns == 0 && !r.timed_out
            &&& r.task_id == task_id && r.command == command && r.trace_id == trace_id
            &&& r.snapshot_id is None && r.diagnostics is None
            &&& !r.auto_rolled_back && !r.rollback_unavailable && r.rollback_skipped_reason is None
        }),
{
}

/// Each result is counted in one class, and a class tells what came of the command: a blocked one
/// is counted as such whatever else it says, one that ran out of time before its code is looked
/// at, and only the code zero is a success.
pub proof fn law_classes_tell_what_came_of_it(r: ResultV)
    ensures
        class_of(r) is Blocked <==> r.blocked_by_security,
        class_of(r) is Timeout <==> !r.blocked_by_security && (r.timed_out || r.exit_code == -124),
        class_of(r) is Success <==> !r.blocked_by_security && !r.timed_out && r.exit_code == 0,
        class_of(r) is Failed <==> !r.blocked_by_security && !r.timed_out && r.exit_code != 0 && r.exit_code != -124,
{
}

/// Whether a line of a status has one of the letters for a change to a tracked file in its first two
/// places, and begins with a character of one byte.
pub open spec fn has_change_letter(entry: Seq<char>) -> bool {
    let letters = seq!['M', 'D', 'R', 'C', 'T'];
    entry.len() >= 2 && (letters.contains(entry[0]) || (letters.contains(entry[1]) && entry[0] as u32 <= 127))
}

/// A change to a tracked file is told by its letters.
pub proof fn law_changes_are_told_by_their_letters(entry: Seq<char>)
    ensures
        is_mutation(entry) <==> has_change_letter(entry),
{
    let letters = seq!['M', 'D', 'R', 'C', 'T'];
    if entry.len() >= 2 {
        assert(letters[0] == 'M' && letters[1] == 'D' && letters[2] == 'R' && letters[3] == 'C' && letters[4] == 'T');
        assert forall|c: char| letters.contains(c) <==> is_change_code(c) by {
            if is_change_code(c) {
                assert(letters.contains(letters[0]) && letters.contains(letters[1]) && letters.contains(letters[2]) && letters.contains(letters[3]) && letters.contains(letters[4]));
            }
        }
    }
}

/// What becomes of a result when its rollback ends: it bears the one mark for how that went, and
/// nothing else of it changes.
pub proof fn law_rollback_marks_the_result(r: ResultV, o: OutcomeV)
    ensures
        with_unavailable(r).rollback_unavailable,
        (ResultV { rollback_unavailable: r.rollback_unavailable, ..with_unavailable(r) }) == r,
        o.applied ==> with_outcome(r, o).auto_rolled_back && (ResultV { auto_rolled_back: r.auto_rolled_back, ..with_outcome(r, o) }) == r,
        !o.applied && o.skipped_reason is Some ==> with_outcome(r, o).rollback_skipped_reason == o.skipped_reason,
        !o.applied ==> (ResultV { rollback_skipped_reason: r.rollback_skipped_reason, ..with_outcome(r, o) }) == r,
        !o.applied && o.skipped_reason is None ==> with_outcome(r, o) == r,
{
}

/// The changes of a work tree are those that git tells of where it succeeds, and otherwise the reason
/// is what it wrote of its failure.
pub proof fn law_status_is_what_git_tells(exit: Seq<char>, out: Seq<char>, err: Seq<char>)
    ensures
        status_taken(true, exit, out, err) == Ok::<Seq<Seq<char>>, Seq<char>>(status_said(lines_of(out))),
        status_taken(false, exit, out, err) matches Err(e) && trimmed(err).is_suffix_of(e) && crate::text::has_text(e, exit),
{
    let head = "git status 失败 (exit "@;
    let e = head + exit + "): "@ + trimmed(err);
    assert(e.subrange(e.len() - trimmed(err).len(), e.len() as int) =~= trimmed(err));
    assert(e.subrange(head.len() as int, (head.len() + exit.len()) as int) =~= exit);
    assert(crate::text::has_at(e, exit, head.len() as int));
}

/// The damage is told entry by entry, in the order of the status behind the command: every change to
/// a tracked file that was not told before, and nothing else.
pub proof fn law_damage_is_told_in_order(pre: Seq<Seq<char>>, post: Seq<Seq<char>>)
    ensures
        new_damage(pre, post) == post.filter(|e: Seq<char>| has_change_letter(e) && !pre.contains(e)),
    decreases post.len(),
{
    reveal(Seq::filter);
    if post.len() > 0 {
        law_damage_is_told_in_order(pre, post.drop_last());
        law_changes_are_told_by_their_letters(post.last());
    }
}

/// A status holds each line of the output once, where it first stands, but for those with nothing in
/// them.
pub proof fn law_status_holds_each_line_once(ls: Seq<Seq<char>>)
    ensures
        status_said(ls) == once(ls.filter(|l: Seq<char>| l.len() > 0)),
    decreases ls.len(),
{
    reveal(Seq::filter);
    if ls.len() > 0 {
        law_status_holds_each_line_once(ls.drop_last());
        let f = |l: Seq<char>| l.len() > 0;
        let less = ls.drop_last().filter(f);
        if f(ls.last()) {
            assert(less.push(ls.last()).drop_last() =~= less);
        }
    }
}

} // verus!
