//! The executor: what it is set up with, and how its work starts.

use vstd::prelude::*;
use crate::execution::{EventV, ExecutionRequest, ExecutionResult, RequestV};
use crate::gui::{default_config, plan_of, ConfigV, GuiAction, GuiConfig, GuiController, GuiResult, Plan};
use crate::keys::KeyEvent;
use crate::pipeline::{answers_in, exec_run, exec_start, is_as_far, is_uuid_v4, law_same_answers_give_the_same_result, law_stream_comes_as_far, law_stream_ends_with_its_result, nothing_panics, resolve_trace_id, result_comes_last, result_was_sent, stream_run, stream_start, undated, ExecAnswerV, ExecStage, ExecStageV, Execution, HappeningV};
use crate::rollback::{run_start, Job, RollbackManager, RollbackOutcome, Run};
use crate::server::{trusted_dirs, trusted_said};
use crate::text::{copy_texts, opt_str, texts};

verus! {

/// What came of a request for a shell in the background.
#[derive(Debug, Clone)]
pub struct ShellStartResult {
    pub ok: bool,
    pub shell_id: Option<String>,
    pub blocked_by_security: bool,
    pub security_reason: Option<String>,
    pub error: Option<String>,
}

/// Runs commands, goes back to snapshots and drives the screen. Which programs it allows beyond the
/// usual ones, and where it trusts them, is what it is set up with.
pub struct Executor {
    pub gui: GuiController,
    extras: Vec<String>,
    trusted: Vec<String>,
}

/// What an executor is set up with.
pub struct ExecutorV {
    pub gui: ConfigV,
    pub extras: Seq<Seq<char>>,
    pub trusted: Seq<Seq<char>>,
}

impl View for Executor {
    type V = ExecutorV;

    closed spec fn view(&self) -> ExecutorV {
        ExecutorV { gui: self.gui.config@, extras: texts(self.extras@), trusted: texts(self.trusted@) }
    }
}

/// Whether an execution is the start of a request: it is traced by the identifier that the request
/// gives, or else by a random one.
pub open spec fn is_started(x: Execution, req: RequestV) -> bool {
    &&& x@ == exec_start(req, x.trace_id@)
    &&& match req.trace_id {
        Some(t) => x.trace_id@ == t,
        None => is_uuid_v4(x.trace_id@),
    }
}

impl Executor {
    /// An executor on a machine with this virtual environment and this running program.
    pub fn new(venv: Option<&str>, exe: Option<&str>) -> (r: Self)
        ensures
            r@ == (ExecutorV { gui: default_config(), extras: Seq::empty(), trusted: trusted_said(opt_str(venv), opt_str(exe)) }),
    {
        let r = Executor { gui: GuiController::new(), extras: Vec::new(), trusted: trusted_dirs(venv, exe) };
        proof {
            assert(r@.extras =~= Seq::empty());
        }
        r
    }

    /// The executor with more programs allowed.
    pub fn with_extra_whitelist(self, extras: &Vec<String>) -> (r: Self)
        ensures
            r@ == (ExecutorV { extras: self@.extras + texts(extras@), ..self@ }),
    {
        let mut all = self.extras;
        let ghost before = texts(all@);
        let mut i: usize = 0;
        proof {
            assert(before + texts(extras@).take(0) =~= before);
        }
        while i < extras.len()
            invariant
                i <= extras@.len(),
                texts(all@) == before + texts(extras@).take(i as int),
            decreases extras@.len() - i,
        {
            let ghost mid = texts(all@);
            all.push(extras[i].clone());
            proof {
                assert(texts(all@) =~= mid.push(texts(extras@)[i as int]));
                assert(texts(all@) =~= before + texts(extras@).take(i + 1));
            }
            i = i + 1;
        }
        proof {
            assert(texts(extras@).take(i as int) =~= texts(extras@));
        }
        Executor { gui: self.gui, extras: all, trusted: self.trusted }
    }

    /// Allows these programs beyond the usual ones, and no longer those that were allowed before.
    pub fn reload_whitelist(&mut self, extras: &Vec<String>)
        ensures
            final(self)@ == (ExecutorV { extras: texts(extras@), ..old(self)@ }),
    {
        self.extras = copy_texts(extras);
    }

    /// The programs that are allowed beyond the usual ones.
    pub fn extra_whitelist(&self) -> (r: &Vec<String>)
        ensures
            texts(r@) == self@.extras,
    {
        &self.extras
    }

    /// The directories that programs are trusted in beyond the usual ones.
    pub fn trusted_bin_dirs(&self) -> (r: &Vec<String>)
        ensures
            texts(r@) == self@.trusted,
    {
        &self.trusted
    }

    /// The executor with another configuration for the screen.
    pub fn with_gui_config(self, config: GuiConfig) -> (r: Self)
        ensures
            r@ == (ExecutorV { gui: config@, ..self@ }),
    {
        Executor { gui: GuiController::new_with_config(config), extras: self.extras, trusted: self.trusted }
    }

    /// What an action on the screen comes to.
    pub fn gui_action(&self, action: &GuiAction, ax_trusted: bool) -> (r: Plan<String, Vec<KeyEvent>, GuiResult>)
        ensures
            r@ == plan_of(self@.gui, *action, ax_trusted),
    {
        self.gui.execute(action, ax_trusted)
    }

    /// Refuses a shell whose command is not allowed; nothing where it is.
    pub fn shell_start(&self, allowed: bool, reason: Option<String>) -> (r: Option<ShellStartResult>)
        ensures
            allowed ==> r is None,
            !allowed ==> (r matches Some(s) && !s.ok && s.shell_id is None && s.blocked_by_security && s.security_reason == reason && s.error is None),
    {
        if allowed {
            None
        } else {
            Some(ShellStartResult { ok: false, shell_id: None, blocked_by_security: true, security_reason: reason, error: None })
        }
    }

    /// Starts to take a snapshot.
    pub fn snapshot_create_async(&self, cwd: &str) -> (r: Run<String, RollbackOutcome>)
        ensures
            r@ == (Run { job: Job::Snapshot, cwd: cwd@, stage: run_start(cwd@) }),
    {
        RollbackManager::new().snapshot_create(cwd)
    }

    /// Starts to go back to a snapshot.
    pub fn rollback_async(&self, snapshot_id: &str, cwd: &str) -> (r: Run<String, RollbackOutcome>)
        ensures
            r@ == (Run { job: Job::Rollback { snapshot_id: snapshot_id@ }, cwd: cwd@, stage: run_start(cwd@) }),
    {
        RollbackManager::new().rollback(snapshot_id, cwd)
    }

    /// Starts a command.
    pub fn execute_async(&self, req: ExecutionRequest) -> (r: Execution)
        ensures
            is_started(r, req@),
    {
        let trace_id = resolve_trace_id(&req.trace_id);
        Execution::start(req, trace_id)
    }

    /// Starts a command whose output is passed on: it goes through the same stages as one whose output
    /// is not.
    pub fn execute_streaming(&self, req: ExecutionRequest) -> (r: Execution)
        ensures
            is_started(r, req@),
    {
        self.execute_async(req)
    }

    /// What an execution has come to: its result, or why it failed; nothing while it runs.
    pub fn execute(x: Execution) -> (r: Option<Result<ExecutionResult, String>>)
        ensures
            match x@.stage {
                ExecStageV::Finished(v) => r matches Some(Ok(res)) && res@ == v,
                ExecStageV::Failed(e) => r matches Some(Err(why)) && why@ == e,
                _ => r is None,
            },
    {
        match x.stage {
            ExecStage::Finished(res) => Some(Ok(res)),
            ExecStage::Failed(e) => Some(Err(e)),
            _ => None,
        }
    }
}

/// A command whose output is passed on comes to the same as one whose output is not: two executions
/// that were started for one request and are given the same answers come equally far, and where
/// the request says what it is traced by, their results differ in nothing but how long they took.
pub proof fn law_streaming_changes_no_result(req: RequestV, plain: Execution, streamed: Execution, answers: Seq<(ExecAnswerV, u64)>, others: Seq<(ExecAnswerV, u64)>)
    requires
        is_started(plain, req),
        is_started(streamed, req),
        answers.len() == others.len(),
        forall|i: int| 0 <= i < answers.len() ==> (#[trigger] answers[i]).0 == others[i].0,
    ensures
        is_as_far(exec_run(plain@, answers), exec_run(streamed@, others)),
        req.trace_id is Some ==> (exec_run(plain@, answers).stage matches ExecStageV::Finished(r) ==> {
            &&& exec_run(streamed@, others).stage is Finished
            &&& undated(r) == undated(exec_run(streamed@, others).stage->Finished_0)
        }),
{
    law_same_answers_give_the_same_result(req, plain.trace_id@, streamed.trace_id@, answers, others);
}

/// A command whose output is passed on sends its result once and last, and it is the result of one
/// whose output is not, but for how long it took: so where the request says what it is traced by,
/// both are given the same answers, and nothing panics.
pub proof fn law_stream_sends_the_plain_result(req: RequestV, plain: Execution, streamed: Execution, answers: Seq<(ExecAnswerV, u64)>, hs: Seq<HappeningV>)
    requires
        is_started(plain, req),
        is_started(streamed, req),
        req.trace_id is Some,
        nothing_panics(hs),
        answers.len() == answers_in(hs).len(),
        forall|i: int| 0 <= i < answers.len() ==> (#[trigger] answers[i]).0 == answers_in(hs)[i].0,
        exec_run(plain@, answers).stage is Finished,
    ensures
        ({
            let sent = stream_run(stream_start(streamed@), hs).1;
            &&& result_comes_last(sent)
            &&& result_was_sent(sent)
            &&& sent.last() matches EventV::Done(d) && undated(d) == undated(exec_run(plain@, answers).stage->Finished_0)
        }),
{
    law_streaming_changes_no_result(req, plain, streamed, answers, answers_in(hs));
    law_stream_comes_as_far(streamed@, hs);
    law_stream_ends_with_its_result(stream_start(streamed@), hs);
}

impl Default for Executor {
    fn default() -> (r: Self)
        ensures
            r@ == (ExecutorV { gui: default_config(), extras: Seq::empty(), trusted: trusted_said(None, None) }),
    {
        Self::new(None, None)
    }
}

} // verus!
