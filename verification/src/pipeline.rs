//! The stages that a command goes through: verdicts, snapshot, sandbox, diagnosis and rollback.

use vstd::prelude::*;
use crate::diagnostics::{enrich_next, enrich_over, enrich_start, extracted, law_enrichment_keeps_the_error, looked_at, no_diag, DiagV, EnrichAnswer, EnrichAnswerV, EnrichStage, EnrichV, Enrichment, Slicer};
use crate::execution::{has_change_letter, is_config_for, law_changes_are_told_by_their_letters, law_config_is_that_of_the_request, law_damage_is_new_and_tracked, SandboxConfig, blocked_said, new_damage, no_result, with_outcome, with_unavailable, opt_event, AutoRollbackGuard, EventV, ExecutionRequest, ExecutionResult, ExecutionStreamEvent, GuardV, RequestV, ResultV, EXIT_BLOCKED};
use crate::rollback::{OutcomeV, RollbackOutcome};
use crate::text::{opt_clone, opt_str, opt_text, texts};

verus! {

/// What the sandbox gave of a command.
#[derive(Debug, Clone)]
pub struct SandboxResult {
    pub exit_code: i32,
    pub stdout: String,
    pub stderr: String,
    pub timed_out: bool,
}

/// What the result of a sandbox says.
pub struct RanV {
    pub exit_code: i32,
    pub stdout: Seq<char>,
    pub stderr: Seq<char>,
    pub timed_out: bool,
}

impl View for SandboxResult {
    type V = RanV;

    open spec fn view(&self) -> RanV {
        RanV { exit_code: self.exit_code, stdout: self.stdout@, stderr: self.stderr@, timed_out: self.timed_out }
    }
}

/// Where an execution stands: each stage but the last two waits for one answer.
pub enum ExecStage {
    /// May the command be run?
    Validate,
    /// May it be run in this directory?
    ValidateCwd { cwd: String },
    /// What is the snapshot of this directory?
    TakeSnapshot { cwd: String },
    /// What is the status of this directory before the command?
    TakeStatus { cwd: String, snapshot: Option<String> },
    /// What does the sandbox give of the command?
    RunSandbox { snapshot: Option<String>, pre: Vec<String> },
    /// What does the enrichment of the diagnosis ask for?
    Diagnose { snapshot: Option<String>, pre: Vec<String>, ran: SandboxResult, found: Enrichment },
    /// What is the status of the work tree behind the command?
    DamageStatus { result: ExecutionResult, guard: AutoRollbackGuard },
    /// How did the rollback to the snapshot go?
    SetBack { result: ExecutionResult, guard: AutoRollbackGuard },
    /// The execution has given this result.
    Finished(ExecutionResult),
    /// The execution has failed for this reason.
    Failed(String),
}

/// What a stage says.
pub enum ExecStageV {
    Validate,
    ValidateCwd { cwd: Seq<char> },
    TakeSnapshot { cwd: Seq<char> },
    TakeStatus { cwd: Seq<char>, snapshot: Option<Seq<char>> },
    RunSandbox { snapshot: Option<Seq<char>>, pre: Seq<Seq<char>> },
    Diagnose { snapshot: Option<Seq<char>>, pre: Seq<Seq<char>>, ran: RanV, found: EnrichV },
    DamageStatus { result: ResultV, guard: GuardV },
    SetBack { result: ResultV, guard: GuardV },
    Finished(ResultV),
    Failed(Seq<char>),
}

impl View for ExecStage {
    type V = ExecStageV;

    open spec fn view(&self) -> ExecStageV {
        match self {
            ExecStage::Validate => ExecStageV::Validate,
            ExecStage::ValidateCwd { cwd } => ExecStageV::ValidateCwd { cwd: cwd@ },
            ExecStage::TakeSnapshot { cwd } => ExecStageV::TakeSnapshot { cwd: cwd@ },
            ExecStage::TakeStatus { cwd, snapshot } => ExecStageV::TakeStatus { cwd: cwd@, snapshot: opt_text(*snapshot) },
            ExecStage::RunSandbox { snapshot, pre } => ExecStageV::RunSandbox { snapshot: opt_text(*snapshot), pre: texts(pre@) },
            ExecStage::Diagnose { snapshot, pre, ran, found } => ExecStageV::Diagnose {
                snapshot: opt_text(*snapshot),
                pre: texts(pre@),
                ran: ran@,
                found: found@,
            },
            ExecStage::DamageStatus { result, guard } => ExecStageV::DamageStatus { result: result@, guard: guard@ },
            ExecStage::SetBack { result, guard } => ExecStageV::SetBack { result: result@, guard: guard@ },
            ExecStage::Finished(r) => ExecStageV::Finished(r@),
            ExecStage::Failed(e) => ExecStageV::Failed(e@),
        }
    }
}

/// What the surroundings answer to a stage.
pub enum ExecAnswer {
    /// It is allowed, or is not for a reason.
    Verdict { allowed: bool, reason: Option<String> },
    /// The identifier of a snapshot, where it could be taken; empty outside a repository.
    Snapshot(Option<String>),
    /// The status of a work tree, where it could be taken.
    Status(Option<Vec<String>>),
    /// The command has ended.
    Ran(SandboxResult),
    /// The sandbox could not run the command, for this reason.
    NotRun(String),
    /// The answer that the enrichment of the diagnosis waits for.
    Source(EnrichAnswer),
    /// The outcome of a rollback, where it could be carried out.
    Rolled(Option<RollbackOutcome>),
}

/// What an answer says.
pub enum ExecAnswerV {
    Verdict { allowed: bool, reason: Option<Seq<char>> },
    Snapshot(Option<Seq<char>>),
    Status(Option<Seq<Seq<char>>>),
    Ran(RanV),
    NotRun(Seq<char>),
    Source(EnrichAnswerV),
    Rolled(Option<OutcomeV>),
}

impl View for ExecAnswer {
    type V = ExecAnswerV;

    open spec fn view(&self) -> ExecAnswerV {
        match self {
            ExecAnswer::Verdict { allowed, reason } => ExecAnswerV::Verdict { allowed: *allowed, reason: opt_text(*reason) },
            ExecAnswer::Snapshot(id) => ExecAnswerV::Snapshot(opt_text(*id)),
            ExecAnswer::Status(None) => ExecAnswerV::Status(None),
            ExecAnswer::Status(Some(v)) => ExecAnswerV::Status(Some(texts(v@))),
            ExecAnswer::Ran(r) => ExecAnswerV::Ran(r@),
            ExecAnswer::NotRun(e) => ExecAnswerV::NotRun(e@),
            ExecAnswer::Source(a) => ExecAnswerV::Source(a@),
            ExecAnswer::Rolled(None) => ExecAnswerV::Rolled(None),
            ExecAnswer::Rolled(Some(o)) => ExecAnswerV::Rolled(Some(o@)),
        }
    }
}

/// An execution: what was asked for, the identifier it is traced by, and where it stands.
pub struct Execution {
    pub req: ExecutionRequest,
    pub trace_id: String,
    pub stage: ExecStage,
}

/// What an execution says.
pub struct ExecV {
    pub req: RequestV,
    pub trace_id: Seq<char>,
    pub stage: ExecStageV,
}

impl View for Execution {
    type V = ExecV;

    open spec fn view(&self) -> ExecV {
        ExecV { req: self.req@, trace_id: self.trace_id@, stage: self.stage@ }
    }
}

/// The stage of an execution that was blocked.
pub open spec fn blocked_stage(req: RequestV, trace_id: Seq<char>, reason: Option<Seq<char>>, otherwise: Seq<char>) -> ExecStageV {
    let why = match reason {
        Some(r) => r,
        None => otherwise,
    };
    ExecStageV::Finished(blocked_said(why, req.task_id, Some(req.command), Some(trace_id)))
}

/// The stage behind the verdicts: a snapshot is taken where it is wanted and there is a directory.
pub open spec fn cleared(req: RequestV) -> ExecStageV {
    match req.cwd {
        Some(cwd) if req.enable_rollback_snapshot => ExecStageV::TakeSnapshot { cwd },
        _ => ExecStageV::RunSandbox { snapshot: None, pre: Seq::empty() },
    }
}

/// The stage behind the first verdict.
pub open spec fn validated(req: RequestV) -> ExecStageV {
    match req.cwd {
        Some(cwd) => ExecStageV::ValidateCwd { cwd },
        None => cleared(req),
    }
}

/// The identifier of a snapshot that there is something to go back to.
pub open spec fn usable(snapshot: Option<Seq<char>>) -> Option<Seq<char>> {
    match snapshot {
        Some(id) if id.len() > 0 => Some(id),
        _ => None,
    }
}

/// The result of a command that was run.
pub open spec fn result_said(x: ExecV, snapshot: Option<Seq<char>>, ran: RanV, diag: Option<DiagV>, elapsed_ns: u64) -> ResultV {
    ResultV {
        exit_code: ran.exit_code,
        stdout: ran.stdout,
        stderr: ran.stderr,
        task_id: x.req.task_id,
        command: Some(x.req.command),
        duration_ns: elapsed_ns,
        timed_out: ran.timed_out,
        snapshot_id: usable(snapshot),
        diagnostics: diag,
        trace_id: Some(x.trace_id),
        ..no_result()
    }
}

/// The stage behind a command: the work tree is looked at where the request has a policy that says
/// so, the command has failed, and there is a snapshot to go back to.
pub open spec fn ended(x: ExecV, snapshot: Option<Seq<char>>, pre: Seq<Seq<char>>, ran: RanV, diag: Option<DiagV>, elapsed_ns: u64) -> ExecStageV {
    let result = result_said(x, snapshot, ran, diag, elapsed_ns);
    match (x.req.auto_rollback_policy, x.req.cwd, usable(snapshot)) {
        (Some(policy), Some(cwd), Some(id)) => if ran.exit_code != 0 && policy.file_damage_check {
            ExecStageV::DamageStatus { result, guard: GuardV { policy, snapshot_id: id, cwd, pre_status: pre } }
        } else {
            ExecStageV::Finished(result)
        },
        _ => ExecStageV::Finished(result),
    }
}

/// What a diagnosis is made from: what the command wrote of errors, or else what it wrote.
pub open spec fn diagnosed(stdout: Seq<char>, stderr: Seq<char>) -> Seq<char> {
    if stderr.len() > 0 {
        stderr
    } else {
        stdout
    }
}

/// The diagnosis of some output before the lines of source are read.
pub open spec fn sliced(output: Seq<char>, cwd: Option<Seq<char>>) -> EnrichV {
    match extracted(looked_at(output)) {
        Some(d) => enrich_start(d, cwd),
        None => enrich_over(DiagV { raw_trace: Some(looked_at(output)), ..no_diag() }),
    }
}

/// The stage while a diagnosis is made.
pub open spec fn enriched(x: ExecV, snapshot: Option<Seq<char>>, pre: Seq<Seq<char>>, ran: RanV, found: EnrichV, elapsed_ns: u64) -> ExecStageV {
    if found.stage is Over {
        ended(x, snapshot, pre, ran, Some(found.diag), elapsed_ns)
    } else {
        ExecStageV::Diagnose { snapshot, pre, ran, found }
    }
}

/// The stage behind the sandbox: a command that has failed in time is diagnosed.
pub open spec fn ran_next(x: ExecV, snapshot: Option<Seq<char>>, pre: Seq<Seq<char>>, ran: RanV, elapsed_ns: u64) -> ExecStageV {
    if ran.exit_code != 0 && !ran.timed_out {
        enriched(x, snapshot, pre, ran, sliced(diagnosed(ran.stdout, ran.stderr), x.req.cwd), elapsed_ns)
    } else {
        ended(x, snapshot, pre, ran, None, elapsed_ns)
    }
}

/// How an execution goes on with an answer, so many nanoseconds after its start. An answer that does
/// not fit the stage changes nothing.
pub open spec fn exec_next(x: ExecV, a: ExecAnswerV, elapsed_ns: u64) -> ExecStageV {
    match (x.stage, a) {
        (ExecStageV::Validate, ExecAnswerV::Verdict { allowed, reason }) => if allowed {
            validated(x.req)
        } else {
            blocked_stage(x.req, x.trace_id, reason, "未知原因"@)
        },
        (ExecStageV::ValidateCwd { cwd }, ExecAnswerV::Verdict { allowed, reason }) => if allowed {
            cleared(x.req)
        } else {
            blocked_stage(x.req, x.trace_id, reason, "cwd 非法"@)
        },
        (ExecStageV::TakeSnapshot { cwd }, ExecAnswerV::Snapshot(snapshot)) => ExecStageV::TakeStatus { cwd, snapshot },
        (ExecStageV::TakeStatus { cwd, snapshot }, ExecAnswerV::Status(status)) => ExecStageV::RunSandbox {
            snapshot,
            pre: match (snapshot, status) {
                (Some(id), Some(st)) => st,
                _ => Seq::empty(),
            },
        },
        (ExecStageV::RunSandbox { snapshot, pre }, ExecAnswerV::Ran(ran)) => ran_next(x, snapshot, pre, ran, elapsed_ns),
        (ExecStageV::RunSandbox { snapshot, pre }, ExecAnswerV::NotRun(e)) => ExecStageV::Failed(e),
        (ExecStageV::Diagnose { snapshot, pre, ran, found }, ExecAnswerV::Source(s)) => enriched(x, snapshot, pre, ran, enrich_next(found, s), elapsed_ns),
        (ExecStageV::DamageStatus { result, guard }, ExecAnswerV::Status(Some(post))) => if new_damage(guard.pre_status, post).len() == 0 {
            ExecStageV::Finished(result)
        } else {
            ExecStageV::SetBack { result, guard }
        },
        (ExecStageV::DamageStatus { result, guard }, ExecAnswerV::Status(None)) => ExecStageV::Finished(with_unavailable(result)),
        (ExecStageV::SetBack { result, guard }, ExecAnswerV::Rolled(Some(o))) => ExecStageV::Finished(with_outcome(result, o)),
        (ExecStageV::SetBack { result, guard }, ExecAnswerV::Rolled(None)) => ExecStageV::Finished(with_unavailable(result)),
        _ => x.stage,
    }
}

/// An execution behind one answer.
pub open spec fn exec_step(x: ExecV, a: ExecAnswerV, elapsed_ns: u64) -> ExecV {
    ExecV { stage: exec_next(x, a, elapsed_ns), ..x }
}

/// An execution behind several answers.
pub open spec fn exec_run(x: ExecV, answers: Seq<(ExecAnswerV, u64)>) -> ExecV
    decreases answers.len(),
{
    if answers.len() == 0 {
        x
    } else {
        let before = exec_run(x, answers.drop_last());
        exec_step(before, answers.last().0, answers.last().1)
    }
}

/// How an execution starts.
pub open spec fn exec_start(req: RequestV, trace_id: Seq<char>) -> ExecV {
    ExecV { req, trace_id, stage: ExecStageV::Validate }
}

/// Whether a character is a hexadecimal digit in lower case.
pub open spec fn is_hex(c: char) -> bool {
    '0' <= c <= '9' || 'a' <= c <= 'f'
}

/// Whether a text is a random identifier in its hyphenated form: thirty-two hexadecimal digits in
/// lower case, parted behind the eighth, twelfth, sixteenth and twentieth, of which one says the
/// version and one the variant.
pub open spec fn is_uuid_v4(s: Seq<char>) -> bool {
    &&& s.len() == 36
    &&& forall|i: int|
        0 <= i < 36 ==> if i == 8 || i == 13 || i == 18 || i == 23 {
            #[trigger] s[i] == '-'
        } else {
            is_hex(s[i])
        }
    &&& s[14] == '4'
    &&& s[19] == '8' || s[19] == '9' || s[19] == 'a' || s[19] == 'b'
}

/// A random identifier: `uuid::Uuid::new_v4` in the hyphenated form that its `to_string` writes,
/// with its version and variant in their places. Which digits stand in the other places rests on
/// chance, so that two calls give different identifiers is not said.
#[verifier::external_body]
fn random_id() -> (r: String)
    ensures
        is_uuid_v4(r@),
{
    uuid::Uuid::new_v4().to_string()
}

/// The identifier that a request is traced by: its own, or a random one.
pub fn resolve_trace_id(given: &Option<String>) -> (r: String)
    ensures
        match *given {
            Some(t) => r@ == t@,
            None => is_uuid_v4(r@),
        },
{
    match given {
        Some(t) => t.clone(),
        None => random_id(),
    }
}

/// The stage of an execution that was blocked.
fn block(req: &ExecutionRequest, trace_id: &String, reason: Option<String>, otherwise: &str) -> (r: ExecStage)
    ensures
        r@ == blocked_stage(req@, trace_id@, opt_text(reason), otherwise@),
{
    let why = match reason {
        Some(r) => r,
        None => otherwise.to_owned(),
    };
    ExecStage::Finished(ExecutionResult::blocked_with(why, opt_clone(&req.task_id), Some(req.command.clone()), Some(trace_id.clone())))
}

/// The stage behind the verdicts.
fn clear(req: &ExecutionRequest) -> (r: ExecStage)
    ensures
        r@ == cleared(req@),
{
    let pre: Vec<String> = Vec::new();
    proof {
        assert(texts(pre@) =~= Seq::empty());
    }
    match &req.cwd {
        Some(cwd) => if req.enable_rollback_snapshot {
            ExecStage::TakeSnapshot { cwd: cwd.clone() }
        } else {
            ExecStage::RunSandbox { snapshot: None, pre }
        },
        None => ExecStage::RunSandbox { snapshot: None, pre },
    }
}

/// Goes on behind the verdict on the command.
fn on_validate(req: &ExecutionRequest, trace_id: &String, answer: ExecAnswer) -> (r: ExecStage)
    ensures
        r@ == exec_next(ExecV { req: req@, trace_id: trace_id@, stage: ExecStageV::Validate }, answer@, 0),
{
    match answer {
        ExecAnswer::Verdict { allowed, reason } => if allowed {
            match &req.cwd {
                Some(cwd) => ExecStage::ValidateCwd { cwd: cwd.clone() },
                None => clear(req),
            }
        } else {
            block(req, trace_id, reason, "未知原因")
        },
        _ => ExecStage::Validate,
    }
}

/// Goes on behind the verdict on the directory.
fn on_validate_cwd(req: &ExecutionRequest, trace_id: &String, cwd: String, answer: ExecAnswer) -> (r: ExecStage)
    ensures
        r@ == exec_next(ExecV { req: req@, trace_id: trace_id@, stage: ExecStageV::ValidateCwd { cwd: cwd@ } }, answer@, 0),
{
    match answer {
        ExecAnswer::Verdict { allowed, reason } => if allowed {
            clear(req)
        } else {
            block(req, trace_id, reason, "cwd 非法")
        },
        _ => ExecStage::ValidateCwd { cwd },
    }
}

/// Goes on with the status before the command.
fn on_status(req: &ExecutionRequest, trace_id: &String, cwd: String, snapshot: Option<String>, answer: ExecAnswer) -> (r: ExecStage)
    ensures
        r@ == exec_next(ExecV { req: req@, trace_id: trace_id@, stage: ExecStageV::TakeStatus { cwd: cwd@, snapshot: opt_text(snapshot) } }, answer@, 0),
{
    let none: Vec<String> = Vec::new();
    proof {
        assert(texts(none@) =~= Seq::empty());
    }
    match answer {
        ExecAnswer::Status(status) => {
            let pre = match (&snapshot, status) {
                (Some(_), Some(st)) => st,
                (_, _) => none,
            };
            ExecStage::RunSandbox { snapshot, pre }
        },
        _ => ExecStage::TakeStatus { cwd, snapshot },
    }
}

/// The stage behind a command.
fn end(req: &ExecutionRequest, trace_id: &String, snapshot: Option<String>, pre: Vec<String>, ran: SandboxResult, diag: Option<Enrichment>, elapsed_ns: u64) -> (r: ExecStage)
    ensures
        r@ == ended(
            ExecV { req: req@, trace_id: trace_id@, stage: ExecStageV::Validate },
            opt_text(snapshot),
            texts(pre@),
            ran@,
            (match diag {
                Some(e) => Some(e@.diag),
                None => None,
            }),
            elapsed_ns,
        ),
{
    let snapshot_id = match snapshot {
        Some(id) => if id.as_str().is_empty() {
            None
        } else {
            Some(id)
        },
        None => None,
    };
    let exit_code: i32 = ran.exit_code;
    let result = ExecutionResult {
        exit_code,
        stdout: ran.stdout,
        stderr: ran.stderr,
        task_id: opt_clone(&req.task_id),
        command: Some(req.command.clone()),
        duration_ns: elapsed_ns,
        timed_out: ran.timed_out,
        blocked_by_security: false,
        security_reason: None,
        snapshot_id: opt_clone(&snapshot_id),
        diagnostics: match diag {
            Some(e) => Some(e.finish()),
            None => None,
        },
        auto_rolled_back: false,
        rollback_unavailable: false,
        rollback_skipped_reason: None,
        trace_id: Some(trace_id.clone()),
    };
    match (req.auto_rollback_policy, &req.cwd, snapshot_id) {
        (Some(policy), Some(cwd), Some(id)) => {
            let guard = AutoRollbackGuard::new(policy, id, cwd.clone(), pre);
            if guard.looks_at(exit_code) {
                ExecStage::DamageStatus { result, guard }
            } else {
                ExecStage::Finished(result)
            }
        },
        (_, _, _) => ExecStage::Finished(result),
    }
}

/// The stage while a diagnosis is made.
fn enrich(req: &ExecutionRequest, trace_id: &String, snapshot: Option<String>, pre: Vec<String>, ran: SandboxResult, found: Enrichment, elapsed_ns: u64) -> (r: ExecStage)
    ensures
        r@ == enriched(
            ExecV { req: req@, trace_id: trace_id@, stage: ExecStageV::Validate },
            opt_text(snapshot),
            texts(pre@),
            ran@,
            found@,
            elapsed_ns,
        ),
{
    match &found.stage {
        EnrichStage::Over => end(req, trace_id, snapshot, pre, ran, Some(found), elapsed_ns),
        _ => ExecStage::Diagnose { snapshot, pre, ran, found },
    }
}

/// Goes on with what the sandbox gave.
fn on_ran(req: &ExecutionRequest, trace_id: &String, snapshot: Option<String>, pre: Vec<String>, answer: ExecAnswer, elapsed_ns: u64) -> (r: ExecStage)
    ensures
        r@ == exec_next(ExecV { req: req@, trace_id: trace_id@, stage: ExecStageV::RunSandbox { snapshot: opt_text(snapshot), pre: texts(pre@) } }, answer@, elapsed_ns),
{
    match answer {
        ExecAnswer::Ran(ran) => if ran.exit_code != 0 && !ran.timed_out {
            let cwd = match &req.cwd {
                Some(c) => Some(c.as_str()),
                None => None,
            };
            let found = if ran.stderr.as_str().is_empty() {
                Slicer::new().slice(ran.stdout.as_str(), cwd)
            } else {
                Slicer::new().slice(ran.stderr.as_str(), cwd)
            };
            proof {
                assert(opt_str(cwd) == req@.cwd);
                assert(found@ == sliced(diagnosed(ran@.stdout, ran@.stderr), req@.cwd));
            }
            enrich(req, trace_id, snapshot, pre, ran, found, elapsed_ns)
        } else {
            end(req, trace_id, snapshot, pre, ran, None, elapsed_ns)
        },
        ExecAnswer::NotRun(e) => ExecStage::Failed(e),
        _ => ExecStage::RunSandbox { snapshot, pre },
    }
}

/// Goes on with what the enrichment of the diagnosis asked for.
fn on_source(req: &ExecutionRequest, trace_id: &String, snapshot: Option<String>, pre: Vec<String>, ran: SandboxResult, found: Enrichment, answer: ExecAnswer, elapsed_ns: u64) -> (r: ExecStage)
    ensures
        r@ == exec_next(
            ExecV {
                req: req@,
                trace_id: trace_id@,
                stage: ExecStageV::Diagnose { snapshot: opt_text(snapshot), pre: texts(pre@), ran: ran@, found: found@ },
            },
            answer@,
            elapsed_ns,
        ),
{
    match answer {
        ExecAnswer::Source(s) => {
            let found = found.enrich(s);
            enrich(req, trace_id, snapshot, pre, ran, found, elapsed_ns)
        },
        _ => ExecStage::Diagnose { snapshot, pre, ran, found },
    }
}

/// Goes on with the status behind the command.
fn on_damage(req: &ExecutionRequest, trace_id: &String, result: ExecutionResult, guard: AutoRollbackGuard, answer: ExecAnswer) -> (r: ExecStage)
    ensures
        r@ == exec_next(ExecV { req: req@, trace_id: trace_id@, stage: ExecStageV::DamageStatus { result: result@, guard: guard@ } }, answer@, 0),
{
    match answer {
        ExecAnswer::Status(Some(post)) => if guard.detect_damage(&post) == 0 {
            ExecStage::Finished(result)
        } else {
            ExecStage::SetBack { result, guard }
        },
        ExecAnswer::Status(None) => ExecStage::Finished(AutoRollbackGuard::record_result(result, None)),
        _ => ExecStage::DamageStatus { result, guard },
    }
}

impl Execution {
    /// Starts an execution under an identifier that it is traced by.
    pub fn start(req: ExecutionRequest, trace_id: String) -> (r: Execution)
        ensures
            r@ == exec_start(req@, trace_id@),
    {
        Execution { req, trace_id, stage: ExecStage::Validate }
    }

    /// Goes on with the answer to the stage that was waited for, so many nanoseconds after the start.
    pub fn step(self, answer: ExecAnswer, elapsed_ns: u64) -> (r: Execution)
        ensures
            r@ == exec_step(self@, answer@, elapsed_ns),
    {
        let req = self.req;
        let trace_id = self.trace_id;
        let stage = match self.stage {
            ExecStage::Validate => on_validate(&req, &trace_id, answer),
            ExecStage::ValidateCwd { cwd } => on_validate_cwd(&req, &trace_id, cwd, answer),
            ExecStage::TakeSnapshot { cwd } => match answer {
                ExecAnswer::Snapshot(snapshot) => ExecStage::TakeStatus { cwd, snapshot },
                _ => ExecStage::TakeSnapshot { cwd },
            },
            ExecStage::TakeStatus { cwd, snapshot } => on_status(&req, &trace_id, cwd, snapshot, answer),
            ExecStage::RunSandbox { snapshot, pre } => on_ran(&req, &trace_id, snapshot, pre, answer, elapsed_ns),
            ExecStage::Diagnose { snapshot, pre, ran, found } => on_source(&req, &trace_id, snapshot, pre, ran, found, answer, elapsed_ns),
            ExecStage::DamageStatus { result, guard } => on_damage(&req, &trace_id, result, guard, answer),
            ExecStage::SetBack { result, guard } => match answer {
                ExecAnswer::Rolled(o) => ExecStage::Finished(AutoRollbackGuard::record_result(result, o)),
                _ => ExecStage::SetBack { result, guard },
            },
            ExecStage::Finished(r) => ExecStage::Finished(r),
            ExecStage::Failed(e) => ExecStage::Failed(e),
        };
        Execution { req, trace_id, stage }
    }

    /// The event that passes on a part of the output, while the command runs.
    pub fn forward(&self, data: String) -> (r: Option<ExecutionStreamEvent>)
        ensures
            opt_event(r) == forwarded(self@, data@),
    {
        match &self.stage {
            ExecStage::RunSandbox { .. } => Some(ExecutionStreamEvent::Chunk { data }),
            _ => None,
        }
    }

    /// The event that passes on the result, once the execution has it.
    pub fn done(&self) -> (r: Option<ExecutionStreamEvent>)
        ensures
            opt_event(r) == done_said(self@),
    {
        match &self.stage {
            ExecStage::Finished(result) => Some(ExecutionStreamEvent::Done(result.copy())),
            _ => None,
        }
    }

    /// The result of an execution that was cut short by a panic.
    pub fn panicked(&self, message: &str, elapsed_ns: u64) -> (r: ExecutionResult)
        ensures
            r@ == panicked_said(self@, message@, elapsed_ns),
    {
        let mut stderr = "internal panic: ".to_owned();
        stderr.append(message);
        let mut r = ExecutionResult::default();
        r.exit_code = EXIT_BLOCKED;
        r.stderr = stderr;
        r.task_id = opt_clone(&self.req.task_id);
        r.command = Some(self.req.command.clone());
        r.duration_ns = elapsed_ns;
        r.trace_id = Some(self.trace_id.clone());
        r
    }
}

/// The event that passes on a part of the output: there is one while the command runs.
pub open spec fn forwarded(x: ExecV, data: Seq<char>) -> Option<EventV> {
    if x.stage is RunSandbox {
        Some(EventV::Chunk { data })
    } else {
        None
    }
}

/// The event that passes on the result: there is one once the execution has it.
pub open spec fn done_said(x: ExecV) -> Option<EventV> {
    match x.stage {
        ExecStageV::Finished(r) => Some(EventV::Done(r)),
        _ => None,
    }
}

/// The result of an execution that was cut short by a panic.
pub open spec fn panicked_said(x: ExecV, message: Seq<char>, elapsed_ns: u64) -> ResultV {
    ResultV {
        exit_code: EXIT_BLOCKED,
        stderr: "internal panic: "@ + message,
        task_id: x.req.task_id,
        command: Some(x.req.command),
        duration_ns: elapsed_ns,
        trace_id: Some(x.trace_id),
        ..no_result()
    }
}

/// What happens while an execution is streamed.
pub enum Happening {
    /// The command has written a part of its output.
    Part { data: String },
    /// The stage that was waited for has its answer, so many nanoseconds after the start.
    Answer { answer: ExecAnswer, elapsed_ns: u64 },
    /// The work was cut short by a panic.
    Panic { message: String, elapsed_ns: u64 },
}

/// What happens, as it is said.
pub enum HappeningV {
    Part { data: Seq<char> },
    Answer { answer: ExecAnswerV, elapsed_ns: u64 },
    Panic { message: Seq<char>, elapsed_ns: u64 },
}

impl View for Happening {
    type V = HappeningV;

    open spec fn view(&self) -> HappeningV {
        match self {
            Happening::Part { data } => HappeningV::Part { data: data@ },
            Happening::Answer { answer, elapsed_ns } => HappeningV::Answer { answer: answer@, elapsed_ns: *elapsed_ns },
            Happening::Panic { message, elapsed_ns } => HappeningV::Panic { message: message@, elapsed_ns: *elapsed_ns },
        }
    }
}

/// An execution whose output is passed on as it comes, and whose result comes last.
pub struct ExecStream {
    pub x: Execution,
    /// Whether nothing is sent any more.
    pub over: bool,
}

/// What a stream says.
pub struct StreamV {
    pub x: ExecV,
    pub over: bool,
}

impl View for ExecStream {
    type V = StreamV;

    open spec fn view(&self) -> StreamV {
        StreamV { x: self.x@, over: self.over }
    }
}

/// How a stream starts.
pub open spec fn stream_start(x: ExecV) -> StreamV {
    StreamV { x, over: false }
}

/// How a stream goes on, and what it sends.
pub open spec fn stream_next(s: StreamV, h: HappeningV) -> (StreamV, Option<EventV>) {
    if s.over {
        (s, None)
    } else {
        match h {
            HappeningV::Part { data } => (s, forwarded(s.x, data)),
            HappeningV::Answer { answer, elapsed_ns } => {
                let x = exec_step(s.x, answer, elapsed_ns);
                (StreamV { x, over: x.stage is Finished || x.stage is Failed }, done_said(x))
            },
            HappeningV::Panic { message, elapsed_ns } => (
                StreamV { x: s.x, over: true },
                Some(EventV::Done(panicked_said(s.x, message, elapsed_ns))),
            ),
        }
    }
}

/// Some events and one more, where there is one.
pub open spec fn with_event(events: Seq<EventV>, e: Option<EventV>) -> Seq<EventV> {
    match e {
        Some(e) => events.push(e),
        None => events,
    }
}

/// A stream behind all that has happened, and what it has sent.
pub open spec fn stream_run(s: StreamV, hs: Seq<HappeningV>) -> (StreamV, Seq<EventV>)
    decreases hs.len(),
{
    if hs.len() == 0 {
        (s, Seq::empty())
    } else {
        let (before, events) = stream_run(s, hs.drop_last());
        let (after, e) = stream_next(before, hs.last());
        (after, with_event(events, e))
    }
}

impl ExecStream {
    /// Starts to stream an execution.
    pub fn start(x: Execution) -> (r: ExecStream)
        ensures
            r@ == stream_start(x@),
    {
        ExecStream { x, over: false }
    }

    /// Goes on with what has happened, and gives what is sent.
    pub fn go_on(self, h: Happening) -> (r: (ExecStream, Option<ExecutionStreamEvent>))
        ensures
            r.0@ == stream_next(self@, h@).0,
            opt_event(r.1) == stream_next(self@, h@).1,
    {
        if self.over {
            return (self, None);
        }
        match h {
            Happening::Part { data } => {
                let e = self.x.forward(data);
                (self, e)
            },
            Happening::Answer { answer, elapsed_ns } => {
                let x = self.x.step(answer, elapsed_ns);
                let e = x.done();
                let over = match &x.stage {
                    ExecStage::Finished(_) => true,
                    ExecStage::Failed(_) => true,
                    _ => false,
                };
                (ExecStream { x, over }, e)
            },
            Happening::Panic { message, elapsed_ns } => {
                let r = self.x.panicked(message.as_str(), elapsed_ns);
                (ExecStream { x: self.x, over: true }, Some(ExecutionStreamEvent::Done(r)))
            },
        }
    }
}

/// Whether an execution may stand as it does: a snapshot is there only where it was asked for, a
/// result carries what it was asked for and traced by, and the diagnosis that it calls for, a
/// rollback is on its way only for a failure that has a policy and a snapshot, and a result bears
/// at most one mark of a rollback.
pub open spec fn exec_is_sound(x: ExecV) -> bool {
    match x.stage {
        ExecStageV::TakeSnapshot { cwd } => x.req.enable_rollback_snapshot && x.req.cwd == Some(cwd),
        ExecStageV::TakeStatus { cwd, snapshot } => x.req.enable_rollback_snapshot && x.req.cwd == Some(cwd),
        ExecStageV::RunSandbox { snapshot, pre } => snapshot is Some ==> x.req.enable_rollback_snapshot && x.req.cwd is Some,
        ExecStageV::Diagnose { snapshot, pre, ran, found } => {
            &&& snapshot is Some ==> x.req.enable_rollback_snapshot && x.req.cwd is Some
            &&& ran.exit_code != 0 && !ran.timed_out
            &&& is_told_of(found.diag, ran.stdout, ran.stderr, x.req.cwd)
        },
        ExecStageV::DamageStatus { result, guard } => is_guarded(x, result, guard),
        ExecStageV::SetBack { result, guard } => is_guarded(x, result, guard),
        ExecStageV::Finished(result) => {
            &&& is_labelled(x, result)
            &&& is_diagnosed_rightly(x, result)
            &&& result.snapshot_id is Some ==> x.req.enable_rollback_snapshot && x.req.cwd is Some
            &&& !(result.auto_rolled_back && result.rollback_unavailable)
            &&& !(result.auto_rolled_back && result.rollback_skipped_reason is Some)
            &&& !(result.rollback_unavailable && result.rollback_skipped_reason is Some)
            &&& is_marked(result) ==> may_roll_back(x, result)
        },
        _ => true,
    }
}

/// Whether a result bears the mark of a rollback, done or not.
pub open spec fn is_marked(r: ResultV) -> bool {
    r.auto_rolled_back || r.rollback_unavailable || r.rollback_skipped_reason is Some
}

/// Whether a result says what was asked for, and what it is traced by.
pub open spec fn is_labelled(x: ExecV, r: ResultV) -> bool {
    r.task_id == x.req.task_id && r.command == Some(x.req.command) && r.trace_id == Some(x.trace_id)
}

/// Whether a diagnosis is that of what a command wrote, but for the lines of source in it.
pub open spec fn is_told_of(d: DiagV, stdout: Seq<char>, stderr: Seq<char>, cwd: Option<Seq<char>>) -> bool {
    d == (DiagV { code_snippet: d.code_snippet, ..sliced(diagnosed(stdout, stderr), cwd).diag })
}

/// Whether a result has a diagnosis just where a command was run and has failed in time, and has it
/// from what the command wrote of errors, or from what it wrote where it wrote none.
pub open spec fn is_diagnosed_rightly(x: ExecV, r: ResultV) -> bool {
    &&& r.diagnostics is Some <==> r.exit_code != 0 && !r.timed_out && !r.blocked_by_security
    &&& r.diagnostics matches Some(d) ==> is_told_of(d, r.stdout, r.stderr, x.req.cwd)
}

/// Whether a result is one for which the work tree may be set back.
pub open spec fn may_roll_back(x: ExecV, r: ResultV) -> bool {
    &&& r.exit_code != 0
    &&& r.snapshot_id is Some
    &&& r.snapshot_id->Some_0.len() > 0
    &&& x.req.enable_rollback_snapshot
    &&& x.req.cwd is Some
    &&& x.req.auto_rollback_policy is Some
    &&& x.req.auto_rollback_policy->Some_0.file_damage_check
}

/// Whether a result waits for a rollback by the guard that its execution calls for.
pub open spec fn is_guarded(x: ExecV, r: ResultV, guard: GuardV) -> bool {
    &&& is_labelled(x, r)
    &&& is_diagnosed_rightly(x, r)
    &&& !is_marked(r)
    &&& may_roll_back(x, r)
    &&& r.snapshot_id == Some(guard.snapshot_id)
    &&& x.req.cwd == Some(guard.cwd)
}

/// Every execution stays sound, whatever is answered.
pub proof fn law_executions_stay_sound(x: ExecV, a: ExecAnswerV, elapsed_ns: u64)
    requires
        exec_is_sound(x),
    ensures
        exec_is_sound(exec_step(x, a, elapsed_ns)),
{
    if let (ExecStageV::Diagnose { snapshot, pre, ran, found }, ExecAnswerV::Source(s)) = (x.stage, a) {
        law_enrichment_keeps_the_error(found, s);
    }
}

/// Every execution is sound, from its start on.
pub proof fn law_every_execution_is_sound(req: RequestV, trace_id: Seq<char>, answers: Seq<(ExecAnswerV, u64)>)
    ensures
        exec_is_sound(exec_run(exec_start(req, trace_id), answers)),
        exec_run(exec_start(req, trace_id), answers).req == req,
        exec_run(exec_start(req, trace_id), answers).trace_id == trace_id,
    decreases answers.len(),
{
    if answers.len() > 0 {
        law_every_execution_is_sound(req, trace_id, answers.drop_last());
        let before = exec_run(exec_start(req, trace_id), answers.drop_last());
        law_executions_stay_sound(before, answers.last().0, answers.last().1);
    }
}

/// A command that is refused is never run: once the first verdict is a refusal, the execution has
/// its blocked result, whatever is answered later.
pub proof fn law_refused_command_never_runs(req: RequestV, trace_id: Seq<char>, answers: Seq<(ExecAnswerV, u64)>)
    requires
        answers.len() > 0,
        answers[0].0 matches ExecAnswerV::Verdict { allowed, reason } && !allowed,
    ensures
        exec_run(exec_start(req, trace_id), answers).stage == blocked_stage(req, trace_id, answers[0].0->reason, "未知原因"@),
    decreases answers.len(),
{
    if answers.len() == 1 {
        assert(answers.drop_last() =~= Seq::empty());
        reveal_with_fuel(exec_run, 2);
    } else {
        assert(answers.drop_last()[0] == answers[0]);
        law_refused_command_never_runs(req, trace_id, answers.drop_last());
        law_every_execution_is_sound(req, trace_id, answers.drop_last());
    }
}

/// A command is run only behind the verdicts that allow it: an execution comes to the sandbox, or
/// to a question behind it, only past an answer that allows the command and, where there is a
/// directory, one that allows the directory.
pub proof fn law_sandbox_comes_behind_verdicts(x: ExecV, a: ExecAnswerV, elapsed_ns: u64)
    ensures
        x.stage is Validate && exec_next(x, a, elapsed_ns) != x.stage && !(exec_next(x, a, elapsed_ns) is Finished) ==> {
            &&& a is Verdict && a->allowed
            &&& x.req.cwd is Some ==> exec_next(x, a, elapsed_ns) is ValidateCwd
        },
        x.stage is ValidateCwd && exec_next(x, a, elapsed_ns) != x.stage && !(exec_next(x, a, elapsed_ns) is Finished) ==> a is Verdict && a->allowed,
        exec_next(x, a, elapsed_ns) is RunSandbox && !(x.stage is RunSandbox) ==> x.stage is Validate || x.stage is ValidateCwd || x.stage is TakeStatus,
        exec_next(x, a, elapsed_ns) is TakeStatus && !(x.stage is TakeStatus) ==> x.stage is TakeSnapshot,
        exec_next(x, a, elapsed_ns) is TakeSnapshot && !(x.stage is TakeSnapshot) ==> x.stage is Validate || x.stage is ValidateCwd,
{
}

/// The work tree is set back only where a tracked file was changed since before the command.
pub proof fn law_rollback_needs_new_damage(x: ExecV, a: ExecAnswerV, elapsed_ns: u64)
    requires
        exec_next(x, a, elapsed_ns) is SetBack,
        !(x.stage is SetBack),
    ensures
        x.stage is DamageStatus,
        a matches ExecAnswerV::Status(Some(post)) && new_damage(x.stage->DamageStatus_guard.pre_status, post).len() > 0,
{
}

/// An execution that has its result, or has failed, stays so.
pub proof fn law_result_is_final(x: ExecV, a: ExecAnswerV, elapsed_ns: u64)
    requires
        x.stage is Finished || x.stage is Failed,
    ensures
        exec_step(x, a, elapsed_ns) == x,
{
}

/// A result without how long it took.
pub open spec fn undated(r: ResultV) -> ResultV {
    ResultV { duration_ns: 0, ..r }
}

/// A result without how long it took and what it is traced by.
pub open spec fn untraced(r: ResultV) -> ResultV {
    ResultV { duration_ns: 0, trace_id: None, ..r }
}

/// Whether two executions have come equally far: they stand at the same stage with the same values,
/// and where they have a result it is the same but for how long it took and what it is traced by.
pub open spec fn is_as_far(x: ExecV, y: ExecV) -> bool {
    match (x.stage, y.stage) {
        (ExecStageV::DamageStatus { result: r, guard: g }, ExecStageV::DamageStatus { result: s, guard: h }) => untraced(r) == untraced(s) && g == h,
        (ExecStageV::SetBack { result: r, guard: g }, ExecStageV::SetBack { result: s, guard: h }) => untraced(r) == untraced(s) && g == h,
        (ExecStageV::Finished(r), ExecStageV::Finished(s)) => untraced(r) == untraced(s),
        _ => x.stage == y.stage,
    }
}

/// What an execution comes to depends on the request and the answers alone: two executions of one
/// request that are given the same answers come equally far, whatever they are traced by and
/// however long the answers take. Where they are traced by the same identifier, their results
/// differ in nothing but how long they took.
#[verifier::spinoff_prover]
#[verifier::rlimit(60)]
pub proof fn law_same_answers_give_the_same_result(req: RequestV, t: Seq<char>, u: Seq<char>, answers: Seq<(ExecAnswerV, u64)>, others: Seq<(ExecAnswerV, u64)>)
    requires
        answers.len() == others.len(),
        forall|i: int| 0 <= i < answers.len() ==> (#[trigger] answers[i]).0 == others[i].0,
    ensures
        is_as_far(exec_run(exec_start(req, t), answers), exec_run(exec_start(req, u), others)),
        t == u ==> (exec_run(exec_start(req, t), answers).stage matches ExecStageV::Finished(r) ==> {
            &&& exec_run(exec_start(req, u), others).stage is Finished
            &&& undated(r) == undated(exec_run(exec_start(req, u), others).stage->Finished_0)
        }),
    decreases answers.len(),
{
    law_every_execution_is_sound(req, t, answers);
    law_every_execution_is_sound(req, u, others);
    if answers.len() > 0 {
        assert forall|i: int| 0 <= i < answers.drop_last().len() implies (#[trigger] answers.drop_last()[i]).0 == others.drop_last()[i].0 by {
            assert(answers[i].0 == others[i].0);
        }
        law_same_answers_give_the_same_result(req, t, u, answers.drop_last(), others.drop_last());
        law_every_execution_is_sound(req, t, answers.drop_last());
        law_every_execution_is_sound(req, u, others.drop_last());
        let n = answers.len() - 1;
        assert(answers[n].0 == others[n].0);
        assert(answers.last() == answers[n] && others.last() == others[n]);
    }
}

/// A part of the output and the result are never sent at once, and once the result can be sent,
/// nothing of the output is, whatever is answered.
pub proof fn law_nothing_is_forwarded_behind_the_result(x: ExecV, data: Seq<char>, a: ExecAnswerV, elapsed_ns: u64)
    ensures
        forwarded(x, data) is None || done_said(x) is None,
        done_said(x) is Some ==> forwarded(exec_step(x, a, elapsed_ns), data) is None && done_said(exec_step(x, a, elapsed_ns)) == done_said(x),
{
}

/// Whether the result comes last, if it comes at all: all events before the last are parts of the
/// output.
pub open spec fn result_comes_last(events: Seq<EventV>) -> bool {
    forall|i: int| 0 <= i < events.len() - 1 ==> (#[trigger] events[i]) is Chunk
}

/// Whether the result was sent.
pub open spec fn result_was_sent(events: Seq<EventV>) -> bool {
    events.len() > 0 && events.last() is Done
}

/// A stream sends its result at most once and last. It sends it just where it is over, unless the
/// command could not be run.
pub proof fn law_stream_ends_with_its_result(s: StreamV, hs: Seq<HappeningV>)
    requires
        !s.over,
        !(s.x.stage is Finished),
        !(s.x.stage is Failed),
    ensures
        result_comes_last(stream_run(s, hs).1),
        !stream_run(s, hs).0.over ==> !result_was_sent(stream_run(s, hs).1),
        !stream_run(s, hs).0.over ==> !(stream_run(s, hs).0.x.stage is Finished) && !(stream_run(s, hs).0.x.stage is Failed),
        stream_run(s, hs).0.over ==> (result_was_sent(stream_run(s, hs).1) <==> !(stream_run(s, hs).0.x.stage is Failed)),
    decreases hs.len(),
{
    if hs.len() > 0 {
        law_stream_ends_with_its_result(s, hs.drop_last());
        let (before, events) = stream_run(s, hs.drop_last());
        let (after, e) = stream_next(before, hs.last());
        let all = with_event(events, e);
        assert(stream_run(s, hs) == (after, all));
        assert forall|i: int| 0 <= i < all.len() - 1 implies (#[trigger] all[i]) is Chunk by {
            assert(all[i] == events[i]);
            if i == events.len() - 1 {
                assert(!before.over);
                assert(events.last() == events[i]);
            }
        }
    }
}

/// Whether nothing is cut short by a panic.
pub open spec fn nothing_panics(hs: Seq<HappeningV>) -> bool {
    forall|i: int| 0 <= i < hs.len() ==> !((#[trigger] hs[i]) is Panic)
}

/// The answers among what happens.
pub open spec fn answers_in(hs: Seq<HappeningV>) -> Seq<(ExecAnswerV, u64)>
    decreases hs.len(),
{
    if hs.len() == 0 {
        Seq::empty()
    } else {
        match hs.last() {
            HappeningV::Answer { answer, elapsed_ns } => answers_in(hs.drop_last()).push((answer, elapsed_ns)),
            _ => answers_in(hs.drop_last()),
        }
    }
}

/// The parts of the output that come between the answers change nothing: where nothing panics, a
/// stream comes as far as an execution that is given the answers alone, and the result that it has
/// sent is that execution's.
pub proof fn law_stream_comes_as_far(x: ExecV, hs: Seq<HappeningV>)
    requires
        !(x.stage is Finished),
        !(x.stage is Failed),
        nothing_panics(hs),
    ensures
        stream_run(stream_start(x), hs).0.x == exec_run(x, answers_in(hs)),
        stream_run(stream_start(x), hs).0.over <==> exec_run(x, answers_in(hs)).stage is Finished || exec_run(x, answers_in(hs)).stage is Failed,
        result_was_sent(stream_run(stream_start(x), hs).1) ==> Some(stream_run(stream_start(x), hs).1.last()) == done_said(exec_run(x, answers_in(hs))),
        exec_run(x, answers_in(hs)).stage is Finished ==> result_was_sent(stream_run(stream_start(x), hs).1),
    decreases hs.len(),
{
    law_stream_ends_with_its_result(stream_start(x), hs);
    if hs.len() > 0 {
        let front = hs.drop_last();
        assert forall|i: int| 0 <= i < front.len() implies !((#[trigger] front[i]) is Panic) by {
            assert(!(hs[i] is Panic));
        }
        law_stream_comes_as_far(x, front);
        law_stream_ends_with_its_result(stream_start(x), front);
        assert(!(hs[hs.len() - 1] is Panic));
        if let HappeningV::Answer { answer, elapsed_ns } = hs.last() {
            assert(answers_in(hs).drop_last() =~= answers_in(front));
            assert(answers_in(hs).last() == (answer, elapsed_ns));
            if exec_run(x, answers_in(front)).stage is Finished || exec_run(x, answers_in(front)).stage is Failed {
                law_result_is_final(exec_run(x, answers_in(front)), answer, elapsed_ns);
            }
        }
    }
}

/// Whether a status behind a command tells of a change to a tracked file that the status before it
/// did not tell of.
pub open spec fn tells_of_damage(pre: Seq<Seq<char>>, post: Seq<Seq<char>>) -> bool {
    exists|i: int| 0 <= i < post.len() && has_change_letter(#[trigger] post[i]) && !pre.contains(post[i])
}

/// Damage sets the work tree back: at the damage stage, a status that tells of any change to a
/// tracked file that was not there before leads to the rollback to the guard's snapshot, and one
/// that tells of none ends the execution with its result unchanged.
pub proof fn law_any_damage_sets_back(x: ExecV, post: Seq<Seq<char>>, elapsed_ns: u64)
    requires
        x.stage is DamageStatus,
    ensures
        ({
            let result = x.stage->DamageStatus_result;
            let guard = x.stage->DamageStatus_guard;
            let next = exec_next(x, ExecAnswerV::Status(Some(post)), elapsed_ns);
            &&& tells_of_damage(guard.pre_status, post) ==> next == (ExecStageV::SetBack { result, guard })
            &&& !tells_of_damage(guard.pre_status, post) ==> next == ExecStageV::Finished(result)
        }),
{
    let pre = x.stage->DamageStatus_guard.pre_status;
    let damage = new_damage(pre, post);
    if tells_of_damage(pre, post) {
        let i = choose|i: int| 0 <= i < post.len() && has_change_letter(#[trigger] post[i]) && !pre.contains(post[i]);
        law_changes_are_told_by_their_letters(post[i]);
        law_damage_is_new_and_tracked(pre, post, post[i]);
        assert(damage.contains(post[i]));
    } else if damage.len() > 0 {
        let e = damage[0];
        assert(damage.contains(e));
        law_damage_is_new_and_tracked(pre, post, e);
        law_changes_are_told_by_their_letters(e);
        let i = choose|i: int| 0 <= i < post.len() && post[i] == e;
        assert(has_change_letter(post[i]) && !pre.contains(post[i]));
    }
}

/// How a rollback ended is told in the result, which is not changed otherwise: that it was done, why
/// it was left undone, or that it could not be carried out; and where the status behind the command
/// cannot be had, the result says that the rollback was not to be had either.
pub proof fn law_end_of_a_rollback_is_told(x: ExecV, o: OutcomeV, elapsed_ns: u64)
    ensures
        x.stage matches ExecStageV::SetBack { result, guard } ==> {
            &&& exec_next(x, ExecAnswerV::Rolled(Some(o)), elapsed_ns) matches ExecStageV::Finished(r) && (if o.applied {
                r == (ResultV { auto_rolled_back: true, ..result })
            } else if o.skipped_reason is Some {
                r == (ResultV { rollback_skipped_reason: o.skipped_reason, ..result })
            } else {
                r == result
            })
            &&& exec_next(x, ExecAnswerV::Rolled(None), elapsed_ns) == ExecStageV::Finished(ResultV { rollback_unavailable: true, ..result })
        },
        x.stage matches ExecStageV::DamageStatus { result, guard } ==> exec_next(x, ExecAnswerV::Status(None), elapsed_ns) == ExecStageV::Finished(ResultV { rollback_unavailable: true, ..result }),
{
}

/// An allowed command goes on to the verdict on its directory, where it has one, and past that, or
/// without a directory, to the snapshot that it asks for, or else to the sandbox with no snapshot.
pub proof fn law_allowed_command_goes_on(x: ExecV, reason: Option<Seq<char>>, elapsed_ns: u64)
    ensures
        ({
            let next = exec_next(x, ExecAnswerV::Verdict { allowed: true, reason }, elapsed_ns);
            let wanted = x.req.enable_rollback_snapshot;
            &&& x.stage is Validate && x.req.cwd is Some ==> next == (ExecStageV::ValidateCwd { cwd: x.req.cwd->0 })
            &&& x.stage is Validate && x.req.cwd is None ==> next == (ExecStageV::RunSandbox { snapshot: None, pre: Seq::empty() })
            &&& x.stage is ValidateCwd && x.req.cwd is Some && wanted ==> next == (ExecStageV::TakeSnapshot { cwd: x.req.cwd->0 })
            &&& x.stage is ValidateCwd && !wanted ==> next == (ExecStageV::RunSandbox { snapshot: None, pre: Seq::empty() })
        }),
{
}

/// A refusal, of the command or of its directory, blocks the command for the reason that it gives,
/// or for a fixed one where it gives none.
pub proof fn law_refusal_blocks_for_its_reason(x: ExecV, reason: Option<Seq<char>>, elapsed_ns: u64)
    requires
        x.stage is Validate || x.stage is ValidateCwd,
    ensures
        exec_next(x, ExecAnswerV::Verdict { allowed: false, reason }, elapsed_ns) matches ExecStageV::Finished(r) && {
            &&& r.blocked_by_security && r.exit_code == -1
            &&& reason is Some ==> r.security_reason == reason
            &&& reason is None && x.stage is Validate ==> r.security_reason == Some("未知原因"@)
            &&& reason is None && x.stage is ValidateCwd ==> r.security_reason == Some("cwd 非法"@)
            &&& r.stdout.len() == 0 && r.stderr.len() == 0 && r.duration_ns == 0 && !r.timed_out
            &&& r.task_id == x.req.task_id && r.command == Some(x.req.command) && r.trace_id == Some(x.trace_id)
            &&& r.snapshot_id is None && r.diagnostics is None && !is_marked(r)
        },
{
}

/// The snapshot and the status that were taken before a command are those that it is run with; a
/// failed snapshot, or a status that cannot be had, leaves nothing to compare with.
pub proof fn law_command_runs_with_its_snapshot(x: ExecV, taken: Option<Seq<char>>, status: Option<Seq<Seq<char>>>, elapsed_ns: u64)
    ensures
        x.stage matches ExecStageV::TakeSnapshot { cwd } ==> exec_next(x, ExecAnswerV::Snapshot(taken), elapsed_ns) == (ExecStageV::TakeStatus { cwd, snapshot: taken }),
        x.stage matches ExecStageV::TakeStatus { cwd, snapshot } ==> (exec_next(x, ExecAnswerV::Status(status), elapsed_ns) matches ExecStageV::RunSandbox { snapshot: s, pre } && {
            &&& s == snapshot
            &&& snapshot is Some && status is Some ==> pre == status->0
            &&& snapshot is None || status is None ==> pre.len() == 0
        }),
{
}

/// Whether a result tells what the sandbox gave of the command of an execution, in how much time and
/// behind which snapshot.
pub open spec fn tells_what_ran(x: ExecV, r: ResultV, ran: RanV, snapshot: Option<Seq<char>>, elapsed_ns: u64) -> bool {
    &&& r.exit_code == ran.exit_code && r.timed_out == ran.timed_out
    &&& r.stdout == ran.stdout && r.stderr == ran.stderr
    &&& r.duration_ns == elapsed_ns
    &&& r.task_id == x.req.task_id && r.command == Some(x.req.command) && r.trace_id == Some(x.trace_id)
    &&& snapshot is Some && snapshot->0.len() > 0 ==> r.snapshot_id == snapshot
    &&& snapshot is None || snapshot->0.len() == 0 ==> r.snapshot_id is None
    &&& !r.blocked_by_security && r.security_reason is None && !is_marked(r)
}

/// Whether the work tree of a request is looked at behind a command: it has failed, there is a
/// snapshot to go back to in a directory, and the policy says so.
pub open spec fn is_looked_after(req: RequestV, snapshot: Option<Seq<char>>, exit_code: i32) -> bool {
    &&& exit_code != 0
    &&& snapshot is Some && snapshot->0.len() > 0
    &&& req.cwd is Some
    &&& req.auto_rollback_policy is Some && req.auto_rollback_policy->0.file_damage_check
}

/// Whether a stage ends an execution with what was run: at the work tree where that is looked after,
/// by a guard over the snapshot and the status from before the command, and with the result
/// otherwise.
pub open spec fn ends_with(x: ExecV, next: ExecStageV, ran: RanV, snapshot: Option<Seq<char>>, pre: Seq<Seq<char>>, elapsed_ns: u64) -> bool {
    if is_looked_after(x.req, snapshot, ran.exit_code) {
        next matches ExecStageV::DamageStatus { result, guard } && {
            &&& tells_what_ran(x, result, ran, snapshot, elapsed_ns)
            &&& guard.snapshot_id == snapshot->0 && guard.cwd == x.req.cwd->0 && guard.pre_status == pre
            &&& guard.policy == x.req.auto_rollback_policy->0
        }
    } else {
        next matches ExecStageV::Finished(result) && tells_what_ran(x, result, ran, snapshot, elapsed_ns)
    }
}

/// What the sandbox gives of a command is what its result tells. A command that has failed in time
/// is diagnosed first; one that has succeeded, or has run out of time, has no diagnosis. One that
/// could not be run fails for the reason given.
pub proof fn law_result_tells_what_ran(x: ExecV, ran: RanV, e: Seq<char>, elapsed_ns: u64)
    requires
        x.stage is RunSandbox,
    ensures
        ({
            let snapshot = x.stage->RunSandbox_snapshot;
            let pre = x.stage->RunSandbox_pre;
            let next = exec_next(x, ExecAnswerV::Ran(ran), elapsed_ns);
            &&& !(next is Diagnose) ==> ends_with(x, next, ran, snapshot, pre, elapsed_ns)
            &&& ran.exit_code == 0 || ran.timed_out ==> !(next is Diagnose)
            &&& next matches ExecStageV::Diagnose { snapshot: s, pre: p, ran: q, found } ==> s == snapshot && p == pre && q == ran
            &&& exec_next(x, ExecAnswerV::NotRun(e), elapsed_ns) == ExecStageV::Failed(e)
        }),
{
}

/// A diagnosis that is over ends the execution with what was run and with the diagnosis; one that is
/// not goes on with the same run.
pub proof fn law_diagnosis_ends_in_the_result(x: ExecV, a: EnrichAnswerV, elapsed_ns: u64)
    requires
        x.stage is Diagnose,
    ensures
        ({
            let snapshot = x.stage->Diagnose_snapshot;
            let pre = x.stage->Diagnose_pre;
            let ran = x.stage->Diagnose_ran;
            let next = exec_next(x, ExecAnswerV::Source(a), elapsed_ns);
            let found = enrich_next(x.stage->Diagnose_found, a);
            &&& found.stage is Over ==> ends_with(x, next, ran, snapshot, pre, elapsed_ns)
            &&& next matches ExecStageV::Finished(r) ==> r.diagnostics == Some(found.diag)
            &&& next matches ExecStageV::DamageStatus { result, guard } ==> result.diagnostics == Some(found.diag)
            &&& !(found.stage is Over) ==> next == (ExecStageV::Diagnose { snapshot, pre, ran, found })
        }),
{
}

/// The diagnosis of an output is that of its last lines, plain: the first error that one of the
/// languages tells of, and where there is none the lines themselves.
pub proof fn law_diagnosis_is_of_the_last_lines(output: Seq<char>, cwd: Option<Seq<char>>)
    ensures
        extracted(looked_at(output)) matches Some(d) ==> sliced(output, cwd).diag == d,
        extracted(looked_at(output)) is None ==> {
            let d = sliced(output, cwd).diag;
            &&& sliced(output, cwd).stage is Over
            &&& d.raw_trace == Some(looked_at(output))
            &&& d.error_type is None && d.file_path is None && d.line_number is None && d.code_snippet is None
        },
{
}

/// Whether an execution was asked at one of its answers whether it may run in a directory, and was
/// allowed to.
pub open spec fn was_let_into(req: RequestV, trace_id: Seq<char>, answers: Seq<(ExecAnswerV, u64)>, i: int, dir: Seq<char>) -> bool {
    &&& 0 <= i < answers.len()
    &&& exec_run(exec_start(req, trace_id), answers.take(i)).stage == (ExecStageV::ValidateCwd { cwd: dir })
    &&& answers[i].0 is Verdict && answers[i].0->allowed
}

/// Whether an execution was asked at one of its answers whether its command may be run, and was
/// allowed to.
pub open spec fn was_let_run(req: RequestV, trace_id: Seq<char>, answers: Seq<(ExecAnswerV, u64)>, i: int) -> bool {
    &&& 0 <= i < answers.len()
    &&& exec_run(exec_start(req, trace_id), answers.take(i)).stage is Validate
    &&& answers[i].0 is Verdict && answers[i].0->allowed
}

/// Whether an execution has come past its verdicts.
pub open spec fn is_past_verdicts(s: ExecStageV) -> bool {
    match s {
        ExecStageV::TakeSnapshot { cwd } => true,
        ExecStageV::TakeStatus { cwd, snapshot } => true,
        ExecStageV::RunSandbox { snapshot, pre } => true,
        ExecStageV::Diagnose { snapshot, pre, ran, found } => true,
        ExecStageV::DamageStatus { result, guard } => true,
        ExecStageV::SetBack { result, guard } => true,
        ExecStageV::Finished(r) => !r.blocked_by_security,
        ExecStageV::Failed(e) => true,
        _ => false,
    }
}

/// Behind its verdicts an execution was let run, and let into the directory of its request.
proof fn lemma_verdicts_came(req: RequestV, t: Seq<char>, answers: Seq<(ExecAnswerV, u64)>)
    ensures
        ({
            let x = exec_run(exec_start(req, t), answers);
            &&& x.stage is ValidateCwd ==> x.stage == (ExecStageV::ValidateCwd { cwd: req.cwd->0 }) && req.cwd is Some
            &&& x.stage is ValidateCwd || is_past_verdicts(x.stage) ==> exists|i: int| #[trigger] was_let_run(req, t, answers, i)
            &&& is_past_verdicts(x.stage) && req.cwd is Some ==> exists|i: int| #[trigger] was_let_into(req, t, answers, i, req.cwd->0)
        }),
    decreases answers.len(),
{
    law_every_execution_is_sound(req, t, answers);
    if answers.len() > 0 {
        let front = answers.drop_last();
        let n = front.len() as int;
        lemma_verdicts_came(req, t, front);
        law_every_execution_is_sound(req, t, front);
        let before = exec_run(exec_start(req, t), front);
        let after = exec_run(exec_start(req, t), answers);
        assert(answers.take(n) =~= front);
        assert(answers.last() == answers[n]);
        assert forall|i: int| #[trigger] was_let_run(req, t, front, i) implies was_let_run(req, t, answers, i) by {
            assert(front.take(i) =~= answers.take(i));
            assert(front[i] == answers[i]);
        }
        assert forall|i: int, d: Seq<char>| #[trigger] was_let_into(req, t, front, i, d) implies was_let_into(req, t, answers, i, d) by {
            assert(front.take(i) =~= answers.take(i));
            assert(front[i] == answers[i]);
        }
        if before.stage is Validate && after.stage != before.stage && (after.stage is ValidateCwd || is_past_verdicts(after.stage)) {
            assert(was_let_run(req, t, answers, n));
        } else if before.stage is ValidateCwd && is_past_verdicts(after.stage) {
            let i = choose|i: int| was_let_run(req, t, front, i);
            assert(was_let_run(req, t, answers, i));
            assert(was_let_into(req, t, answers, n, req.cwd->0));
        } else if after.stage is ValidateCwd || is_past_verdicts(after.stage) {
            let i = choose|i: int| was_let_run(req, t, front, i);
            assert(was_let_run(req, t, answers, i));
            if is_past_verdicts(before.stage) && req.cwd is Some {
                let j = choose|j: int| was_let_into(req, t, front, j, req.cwd->0);
                assert(was_let_into(req, t, answers, j, req.cwd->0));
            }
        }
    }
}

/// A command runs where it was allowed to: whatever the answers, an execution that comes to its
/// sandbox still has the command and the directory of its request, was let run, was let into that
/// directory where there is one, and the configuration for what it runs names that command and that
/// directory.
pub proof fn law_command_runs_where_it_was_allowed(req: RequestV, trace_id: Seq<char>, answers: Seq<(ExecAnswerV, u64)>, c: SandboxConfig)
    requires
        exec_run(exec_start(req, trace_id), answers).stage is RunSandbox,
        is_config_for(c, exec_run(exec_start(req, trace_id), answers).req),
    ensures
        c.command@ == req.command,
        exists|i: int| #[trigger] was_let_run(req, trace_id, answers, i),
        req.cwd is None ==> c.cwd is None,
        req.cwd matches Some(d) ==> {
            &&& c.cwd matches Some(e) && e@ == d
            &&& exists|i: int| #[trigger] was_let_into(req, trace_id, answers, i, d)
        },
{
    law_every_execution_is_sound(req, trace_id, answers);
    lemma_verdicts_came(req, trace_id, answers);
    law_config_is_that_of_the_request(c, req);
}

/// A panic ends the stream with a result that says so, under the name of its task and its command.
pub proof fn law_panic_is_told(s: StreamV, message: Seq<char>, elapsed_ns: u64)
    ensures
        ({
            let r = panicked_said(s.x, message, elapsed_ns);
            &&& r.exit_code == -1
            &&& r.stderr == "internal panic: "@ + message
            &&& r.stdout.len() == 0
            &&& r.task_id == s.x.req.task_id
            &&& r.command == Some(s.x.req.command)
            &&& r.duration_ns == elapsed_ns
            &&& r.trace_id == Some(s.x.trace_id)
            &&& !r.timed_out && !r.blocked_by_security && !r.auto_rolled_back && !r.rollback_unavailable
            &&& r.snapshot_id is None && r.diagnostics is None && r.security_reason is None && r.rollback_skipped_reason is None
            &&& !s.over ==> stream_next(s, HappeningV::Panic { message, elapsed_ns }).1 == Some(EventV::Done(r)) && stream_next(s, HappeningV::Panic { message, elapsed_ns }).0.over
            &&& s.over ==> stream_next(s, HappeningV::Panic { message, elapsed_ns }).1 is None
        }),
{
}

/// What the sandbox gave, what was answered and how far a command is are seen as they are.
pub proof fn law_runs_are_seen_as_they_are(r: SandboxResult, x: Execution, a: ExecAnswer, h: Happening)
    ensures
        r@.exit_code == r.exit_code && r@.stdout == r.stdout@ && r@.stderr == r.stderr@ && r@.timed_out == r.timed_out,
        x@.req == x.req@ && x@.trace_id == x.trace_id@ && x@.stage == x.stage@,
        a matches ExecAnswer::Verdict { allowed, reason } ==> a@ == (ExecAnswerV::Verdict { allowed, reason: opt_text(reason) }),
        a matches ExecAnswer::Ran(b) ==> a@ == ExecAnswerV::Ran(b@),
        a matches ExecAnswer::NotRun(e) ==> a@ == ExecAnswerV::NotRun(e@),
        h matches Happening::Part { data } ==> h@ == (HappeningV::Part { data: data@ }),
        h matches Happening::Panic { message, elapsed_ns } ==> h@ == (HappeningV::Panic { message: message@, elapsed_ns }),
        h matches Happening::Answer { answer, elapsed_ns } ==> h@ == (HappeningV::Answer { answer: answer@, elapsed_ns }),
{
}

/// A failed command is diagnosed by what it wrote as its errors, and where it wrote none by what it
/// wrote otherwise.
pub proof fn law_errors_are_diagnosed_first(x: ExecV, ran: RanV, elapsed_ns: u64)
    requires
        x.stage is RunSandbox,
        ran.exit_code != 0,
        !ran.timed_out,
    ensures
        ({
            let found = sliced(if ran.stderr.len() > 0 {
                ran.stderr
            } else {
                ran.stdout
            }, x.req.cwd);
            let next = exec_next(x, ExecAnswerV::Ran(ran), elapsed_ns);
            &&& found.stage is Over <==> !(next is Diagnose)
            &&& next matches ExecStageV::Diagnose { snapshot, pre, ran: r, found: f } ==> f == found
            &&& next matches ExecStageV::Finished(r) ==> r.diagnostics == Some(found.diag)
            &&& next matches ExecStageV::DamageStatus { result, guard } ==> result.diagnostics == Some(found.diag)
        }),
{
}

/// What a command writes is sent on as it comes while it runs and at no other time, and its result
/// where it has one.
pub proof fn law_output_is_sent_on_as_it_comes(s: StreamV, data: Seq<char>, answer: ExecAnswerV, elapsed_ns: u64)
    ensures
        !s.over && s.x.stage is RunSandbox ==> stream_next(s, HappeningV::Part { data }) == (s, Some(EventV::Chunk { data })),
        s.over || !(s.x.stage is RunSandbox) ==> stream_next(s, HappeningV::Part { data }) == (s, None::<EventV>),
        !s.over ==> {
            let x = exec_step(s.x, answer, elapsed_ns);
            let (after, e) = stream_next(s, HappeningV::Answer { answer, elapsed_ns });
            &&& after.x == x
            &&& after.over <==> x.stage is Finished || x.stage is Failed
            &&& x.stage matches ExecStageV::Finished(r) ==> e == Some(EventV::Done(r))
            &&& !(x.stage is Finished) ==> e is None
        },
        s.over ==> stream_next(s, HappeningV::Answer { answer, elapsed_ns }) == (s, None::<EventV>),
{
}

} // verus!
