//! Methods: what a request asks for, and how it is answered.

use vstd::prelude::*;
use crate::execution::ExecutionResult;
use crate::frames::{err_resp, err_said, ok_resp, ok_said, ERR_INTERNAL, ERR_INVALID_REQ, ERR_METHOD_NOT_FOUND};
use crate::hub::{nat_or, pushes_said, stdio_pushes, u64_or, BroadcastHub, Push};
use crate::json::{as_int, as_items, as_nat, as_text, as_truth, empty_object, items_said, member, no_members, opt_said, text, text_or_null, texts_in, with_member, Json, JsonV};
use crate::metrics::{exec_recorded, Metrics};
use crate::rollback::{entry_json, entry_object, infos, SnapshotInfo, SnapshotV};
use crate::text::{behind, opt_text, str_eq, texts};

verus! {

/// The code of a rollback that was not done.
pub const ERR_ROLLBACK: i64 = -32012;

/// What a request asks for. What only another part of the program can read is carried along as it
/// came.
pub enum Call<T, P, J> {
    Health,
    Execute { request: J },
    SnapshotCreate { cwd: T },
    ListSnapshots { cwd: T },
    Validate { command: T },
    Rollback { snapshot_id: T, cwd: T },
    Diagnostics { output: T, cwd: Option<T> },
    GuiAction { action: J },
    Metrics,
    MetricsPrometheus,
    Shutdown,
    FileEdit { path: T, old_string: T, new_string: T, cwd: Option<T>, replace_all: bool },
    WriteFile { path: T, content: T, cwd: Option<T> },
    Glob { pattern: T, cwd: Option<T> },
    Grep { pattern: T, paths: P, cwd: Option<T> },
    GrepWithOpts { pattern: T, paths: P, cwd: Option<T>, opts: Option<J> },
    ApplyPatch { diff: T, cwd: Option<T> },
    ReplaceFunction { path: T, fn_name: T, new_body: T, cwd: Option<T> },
    MultiEdit { path: T, edits: J, cwd: Option<T> },
    NotebookEdit { path: T, cell_id: Option<T>, cell_number: Option<i64>, new_source: T, edit_mode: Option<T>, cwd: Option<T> },
    ShellStart { start: ShellStart<T, J> },
    ShellOutput { shell_id: T },
    KillShell { shell_id: T },
    ListShells,
}

/// A shell that is to be started in the background, and how. How long it may stay idle is left to
/// the shells where the request does not say.
pub struct ShellStart<T, J> {
    pub command: T,
    pub cwd: Option<T>,
    pub task_id: Option<T>,
    pub env_vars: Option<J>,
    pub max_output_chars: usize,
    pub seatbelt: bool,
    pub inherit_env: bool,
    pub max_nproc: u32,
    pub max_cpu_sec: u32,
    pub max_nofile: u32,
    pub max_idle_sec: Option<u64>,
    pub kill_grace_ms: u64,
}

/// What an optional value says.
pub open spec fn opt_json(j: Option<Json>) -> Option<JsonV> {
    match j {
        Some(j) => Some(j@),
        None => None,
    }
}

impl View for ShellStart<String, Json> {
    type V = ShellStart<Seq<char>, JsonV>;

    open spec fn view(&self) -> ShellStart<Seq<char>, JsonV> {
        ShellStart {
            command: self.command@,
            cwd: opt_text(self.cwd),
            task_id: opt_text(self.task_id),
            env_vars: opt_json(self.env_vars),
            max_output_chars: self.max_output_chars,
            seatbelt: self.seatbelt,
            inherit_env: self.inherit_env,
            max_nproc: self.max_nproc,
            max_cpu_sec: self.max_cpu_sec,
            max_nofile: self.max_nofile,
            max_idle_sec: self.max_idle_sec,
            kill_grace_ms: self.kill_grace_ms,
        }
    }
}

/// What a call says.
pub type CallV = Call<Seq<char>, Seq<Seq<char>>, JsonV>;

impl View for Call<String, Vec<String>, Json> {
    type V = Call<Seq<char>, Seq<Seq<char>>, JsonV>;

    open spec fn view(&self) -> Call<Seq<char>, Seq<Seq<char>>, JsonV> {
        match self {
            Call::Health => Call::Health,
            Call::Execute { request } => Call::Execute { request: request@ },
            Call::SnapshotCreate { cwd } => Call::SnapshotCreate { cwd: cwd@ },
            Call::ListSnapshots { cwd } => Call::ListSnapshots { cwd: cwd@ },
            Call::Validate { command } => Call::Validate { command: command@ },
            Call::Rollback { snapshot_id, cwd } => Call::Rollback { snapshot_id: snapshot_id@, cwd: cwd@ },
            Call::Diagnostics { output, cwd } => Call::Diagnostics { output: output@, cwd: opt_text(*cwd) },
            Call::GuiAction { action } => Call::GuiAction { action: action@ },
            Call::Metrics => Call::Metrics,
            Call::MetricsPrometheus => Call::MetricsPrometheus,
            Call::Shutdown => Call::Shutdown,
            Call::FileEdit { path, old_string, new_string, cwd, replace_all } => Call::FileEdit {
                path: path@,
                old_string: old_string@,
                new_string: new_string@,
                cwd: opt_text(*cwd),
                replace_all: *replace_all,
            },
            Call::WriteFile { path, content, cwd } => Call::WriteFile { path: path@, content: content@, cwd: opt_text(*cwd) },
            Call::Glob { pattern, cwd } => Call::Glob { pattern: pattern@, cwd: opt_text(*cwd) },
            Call::Grep { pattern, paths, cwd } => Call::Grep { pattern: pattern@, paths: texts(paths@), cwd: opt_text(*cwd) },
            Call::GrepWithOpts { pattern, paths, cwd, opts } => Call::GrepWithOpts {
                pattern: pattern@,
                paths: texts(paths@),
                cwd: opt_text(*cwd),
                opts: opt_json(*opts),
            },
            Call::ApplyPatch { diff, cwd } => Call::ApplyPatch { diff: diff@, cwd: opt_text(*cwd) },
            Call::ReplaceFunction { path, fn_name, new_body, cwd } => Call::ReplaceFunction {
                path: path@,
                fn_name: fn_name@,
                new_body: new_body@,
                cwd: opt_text(*cwd),
            },
            Call::MultiEdit { path, edits, cwd } => Call::MultiEdit { path: path@, edits: edits@, cwd: opt_text(*cwd) },
            Call::NotebookEdit { path, cell_id, cell_number, new_source, edit_mode, cwd } => Call::NotebookEdit {
                path: path@,
                cell_id: opt_text(*cell_id),
                cell_number: *cell_number,
                new_source: new_source@,
                edit_mode: opt_text(*edit_mode),
                cwd: opt_text(*cwd),
            },
            Call::ShellStart { start } => Call::ShellStart { start: start@ },
            Call::ShellOutput { shell_id } => Call::ShellOutput { shell_id: shell_id@ },
            Call::KillShell { shell_id } => Call::KillShell { shell_id: shell_id@ },
            Call::ListShells => Call::ListShells,
        }
    }
}

/// What was planned: a call, or the code and the message of a refusal.
pub open spec fn plan_said(r: Result<Call<String, Vec<String>, Json>, (i64, String)>) -> Result<CallV, (i64, Seq<char>)> {
    match r {
        Ok(c) => Ok(c@),
        Err(e) => Err((e.0, e.1@)),
    }
}

/// The refusal of a request that lacks something.
pub open spec fn lacks(what: Seq<char>) -> Result<CallV, (i64, Seq<char>)> {
    Err((ERR_INVALID_REQ, "缺少 "@ + what))
}

/// The refusal of a request that lacks something.
fn lack(what: &str) -> (r: Result<Call<String, Vec<String>, Json>, (i64, String)>)
    ensures
        plan_said(r) == lacks(what@),
{
    Err((ERR_INVALID_REQ, behind("缺少 ", what)))
}

/// The text under a name.
pub open spec fn str_in(params: JsonV, key: Seq<char>) -> Option<Seq<char>> {
    as_text(member(params, key))
}

/// The text under a name.
pub fn param_str(params: &Json, key: &str) -> (r: Option<String>)
    ensures
        opt_text(r) == str_in(params@, key@),
{
    params.get_str(key)
}

/// The truth value under a name, or another where there is none.
pub open spec fn truth_or(params: JsonV, key: Seq<char>, otherwise: bool) -> bool {
    match as_truth(member(params, key)) {
        Some(b) => b,
        None => otherwise,
    }
}

/// The truth value under a name, or another where there is none.
fn bool_or(params: &Json, key: &str, otherwise: bool) -> (r: bool)
    ensures
        r == truth_or(params@, key@, otherwise),
{
    match params.get_bool(key) {
        Some(b) => b,
        None => otherwise,
    }
}

/// A natural number under a name, cut to 32 bits, or another where there is none.
pub open spec fn nat32_or(params: JsonV, key: Seq<char>, otherwise: u32) -> u32 {
    match as_nat(member(params, key)) {
        Some(n) => n as u32,
        None => otherwise,
    }
}

/// A natural number under a name, cut to 32 bits, or another where there is none.
fn u32_or(params: &Json, key: &str, otherwise: u32) -> (r: u32)
    ensures
        r == nat32_or(params@, key@, otherwise),
{
    match params.get_u64(key) {
        Some(n) => #[verifier::truncate]
        (n as u32),
        None => otherwise,
    }
}

/// The member under a name, where there is one.
fn opt_member(params: &Json, key: &str) -> (r: Option<Json>)
    ensures
        opt_json(r) == member(params@, key@),
{
    match params.get(key) {
        Some(j) => Some(j.copy()),
        None => None,
    }
}

/// What a request for a rollback asks for.
pub open spec fn rollback_in(p: JsonV) -> Result<CallV, (i64, Seq<char>)> {
    match (str_in(p, "snapshot_id"@), str_in(p, "cwd"@)) {
        (None, _) => lacks("snapshot_id"@),
        (_, None) => lacks("cwd"@),
        (Some(snapshot_id), Some(cwd)) => Ok(Call::Rollback { snapshot_id, cwd }),
    }
}

/// What a request for a rollback asks for.
fn plan_rollback(p: &Json) -> (r: Result<Call<String, Vec<String>, Json>, (i64, String)>)
    ensures
        plan_said(r) == rollback_in(p@),
{
    let snapshot_id = match param_str(p, "snapshot_id") {
        Some(s) => s,
        None => return lack("snapshot_id"),
    };
    match param_str(p, "cwd") {
        Some(cwd) => Ok(Call::Rollback { snapshot_id, cwd }),
        None => lack("cwd"),
    }
}

/// What a request for a diagnosis asks for: the output is under the first of three names.
pub open spec fn diagnostics_in(p: JsonV) -> Result<CallV, (i64, Seq<char>)> {
    let output = match (str_in(p, "stdout"@), str_in(p, "stderr"@), str_in(p, "output"@)) {
        (Some(s), _, _) => s,
        (None, Some(s), _) => s,
        (None, None, Some(s)) => s,
        (None, None, None) => Seq::empty(),
    };
    Ok(Call::Diagnostics { output, cwd: str_in(p, "cwd"@) })
}

/// What a request for a diagnosis asks for.
fn plan_diagnostics(p: &Json) -> (r: Result<Call<String, Vec<String>, Json>, (i64, String)>)
    ensures
        plan_said(r) == diagnostics_in(p@),
{
    let output = match param_str(p, "stdout") {
        Some(s) => s,
        None => match param_str(p, "stderr") {
            Some(s) => s,
            None => match param_str(p, "output") {
                Some(s) => s,
                None => String::new(),
            },
        },
    };
    Ok(Call::Diagnostics { output, cwd: param_str(p, "cwd") })
}

/// What a request to change a file asks for.
pub open spec fn file_edit_in(p: JsonV) -> Result<CallV, (i64, Seq<char>)> {
    match (str_in(p, "path"@), str_in(p, "old_string"@), str_in(p, "new_string"@)) {
        (None, _, _) => lacks("path"@),
        (_, None, _) => lacks("old_string"@),
        (_, _, None) => lacks("new_string"@),
        (Some(path), Some(old_string), Some(new_string)) => Ok(Call::FileEdit {
            path,
            old_string,
            new_string,
            cwd: str_in(p, "cwd"@),
            replace_all: truth_or(p, "replace_all"@, false),
        }),
    }
}

/// What a request to edit a file asks for.
fn plan_file_edit(p: &Json) -> (r: Result<Call<String, Vec<String>, Json>, (i64, String)>)
    ensures
        plan_said(r) == file_edit_in(p@),
{
    let path = match param_str(p, "path") {
        Some(s) => s,
        None => return lack("path"),
    };
    let old_string = match param_str(p, "old_string") {
        Some(s) => s,
        None => return lack("old_string"),
    };
    match param_str(p, "new_string") {
        Some(new_string) => Ok(Call::FileEdit { path, old_string, new_string, cwd: param_str(p, "cwd"), replace_all: bool_or(p, "replace_all", false) }),
        None => lack("new_string"),
    }
}

/// What a request to write a file asks for.
pub open spec fn write_file_in(p: JsonV) -> Result<CallV, (i64, Seq<char>)> {
    match (str_in(p, "path"@), str_in(p, "content"@)) {
        (None, _) => lacks("path"@),
        (_, None) => lacks("content"@),
        (Some(path), Some(content)) => Ok(Call::WriteFile { path, content, cwd: str_in(p, "cwd"@) }),
    }
}

/// What a request to write a file asks for.
fn plan_write_file(p: &Json) -> (r: Result<Call<String, Vec<String>, Json>, (i64, String)>)
    ensures
        plan_said(r) == write_file_in(p@),
{
    let path = match param_str(p, "path") {
        Some(s) => s,
        None => return lack("path"),
    };
    match param_str(p, "content") {
        Some(content) => Ok(Call::WriteFile { path, content, cwd: param_str(p, "cwd") }),
        None => lack("content"),
    }
}

/// What a request for a search in files asks for, with options or without.
pub open spec fn grep_in(p: JsonV, with_opts: bool) -> Result<CallV, (i64, Seq<char>)> {
    match (str_in(p, "pattern"@), as_items(member(p, "paths"@))) {
        (None, _) => lacks("pattern"@),
        (_, None) => lacks("paths 数组"@),
        (Some(pattern), Some(items)) => if with_opts {
            Ok(Call::GrepWithOpts { pattern, paths: texts_in(items), cwd: str_in(p, "cwd"@), opts: member(p, "opts"@) })
        } else {
            Ok(Call::Grep { pattern, paths: texts_in(items), cwd: str_in(p, "cwd"@) })
        },
    }
}

/// What a request for a search asks for, with options or without.
fn plan_grep(p: &Json, with_opts: bool) -> (r: Result<Call<String, Vec<String>, Json>, (i64, String)>)
    ensures
        plan_said(r) == grep_in(p@, with_opts),
{
    let pattern = match param_str(p, "pattern") {
        Some(s) => s,
        None => return lack("pattern"),
    };
    let paths = match p.get_texts("paths") {
        Some(v) => v,
        None => return lack("paths 数组"),
    };
    let cwd = param_str(p, "cwd");
    if with_opts {
        Ok(Call::GrepWithOpts { pattern, paths, cwd, opts: opt_member(p, "opts") })
    } else {
        Ok(Call::Grep { pattern, paths, cwd })
    }
}

/// What a request to replace a function asks for.
pub open spec fn replace_function_in(p: JsonV) -> Result<CallV, (i64, Seq<char>)> {
    match (str_in(p, "path"@), str_in(p, "fn_name"@), str_in(p, "new_body"@)) {
        (None, _, _) => lacks("path"@),
        (_, None, _) => lacks("fn_name"@),
        (_, _, None) => lacks("new_body"@),
        (Some(path), Some(fn_name), Some(new_body)) => Ok(Call::ReplaceFunction { path, fn_name, new_body, cwd: str_in(p, "cwd"@) }),
    }
}

/// What a request to replace a function asks for.
fn plan_replace_function(p: &Json) -> (r: Result<Call<String, Vec<String>, Json>, (i64, String)>)
    ensures
        plan_said(r) == replace_function_in(p@),
{
    let path = match param_str(p, "path") {
        Some(s) => s,
        None => return lack("path"),
    };
    let fn_name = match param_str(p, "fn_name") {
        Some(s) => s,
        None => return lack("fn_name"),
    };
    match param_str(p, "new_body") {
        Some(new_body) => Ok(Call::ReplaceFunction { path, fn_name, new_body, cwd: param_str(p, "cwd") }),
        None => lack("new_body"),
    }
}

/// What a request for several changes to a file asks for.
pub open spec fn multi_edit_in(p: JsonV) -> Result<CallV, (i64, Seq<char>)> {
    match (str_in(p, "path"@), member(p, "edits"@)) {
        (None, _) => lacks("path"@),
        (_, None) => lacks("edits 数组"@),
        (Some(path), Some(edits)) => Ok(Call::MultiEdit { path, edits, cwd: str_in(p, "cwd"@) }),
    }
}

/// What a request for several edits asks for.
fn plan_multi_edit(p: &Json) -> (r: Result<Call<String, Vec<String>, Json>, (i64, String)>)
    ensures
        plan_said(r) == multi_edit_in(p@),
{
    let path = match param_str(p, "path") {
        Some(s) => s,
        None => return lack("path"),
    };
    match opt_member(p, "edits") {
        Some(edits) => Ok(Call::MultiEdit { path, edits, cwd: param_str(p, "cwd") }),
        None => lack("edits 数组"),
    }
}

/// What a request to change a notebook asks for.
pub open spec fn notebook_edit_in(p: JsonV) -> Result<CallV, (i64, Seq<char>)> {
    match (str_in(p, "path"@), str_in(p, "new_source"@)) {
        (None, _) => lacks("path"@),
        (_, None) => lacks("new_source"@),
        (Some(path), Some(new_source)) => Ok(Call::NotebookEdit {
            path,
            cell_id: str_in(p, "cell_id"@),
            cell_number: as_int(member(p, "cell_number"@)),
            new_source,
            edit_mode: str_in(p, "edit_mode"@),
            cwd: str_in(p, "cwd"@),
        }),
    }
}

/// What a request to edit a notebook asks for.
fn plan_notebook_edit(p: &Json) -> (r: Result<Call<String, Vec<String>, Json>, (i64, String)>)
    ensures
        plan_said(r) == notebook_edit_in(p@),
{
    let path = match param_str(p, "path") {
        Some(s) => s,
        None => return lack("path"),
    };
    match param_str(p, "new_source") {
        Some(new_source) => Ok(Call::NotebookEdit {
            path,
            cell_id: param_str(p, "cell_id"),
            cell_number: p.get_i64("cell_number"),
            new_source,
            edit_mode: param_str(p, "edit_mode"),
            cwd: param_str(p, "cwd"),
        }),
        None => lack("new_source"),
    }
}

/// What a request for a shell in the background asks for: it is sandboxed unless the request says
/// otherwise.
pub open spec fn shell_start_in(p: JsonV) -> Result<CallV, (i64, Seq<char>)> {
    match str_in(p, "command"@) {
        None => lacks("command"@),
        Some(command) => Ok(Call::ShellStart {
            start: ShellStart {
                command,
                cwd: str_in(p, "cwd"@),
                task_id: str_in(p, "task_id"@),
                env_vars: member(p, "env_vars"@),
                max_output_chars: match as_nat(member(p, "max_output_chars"@)) {
                    Some(n) => n as usize,
                    None => 100_000,
                },
                seatbelt: truth_or(p, "seatbelt"@, true),
                inherit_env: truth_or(p, "inherit_env"@, false),
                max_nproc: nat32_or(p, "max_nproc"@, 1024),
                max_cpu_sec: nat32_or(p, "max_cpu_sec"@, 0),
                max_nofile: nat32_or(p, "max_nofile"@, 1024),
                max_idle_sec: as_nat(member(p, "max_idle_sec"@)),
                kill_grace_ms: nat_or(p, "kill_grace_ms"@, 500),
            },
        }),
    }
}

/// What a request to start a shell asks for.
fn plan_shell_start(p: &Json) -> (r: Result<Call<String, Vec<String>, Json>, (i64, String)>)
    ensures
        plan_said(r) == shell_start_in(p@),
{
    let command = match param_str(p, "command") {
        Some(s) => s,
        None => return lack("command"),
    };
    let max_output_chars: usize = match p.get_u64("max_output_chars") {
        Some(n) => #[verifier::truncate]
        (n as usize),
        None => 100_000,
    };
    Ok(Call::ShellStart {
        start: ShellStart {
            command,
            cwd: param_str(p, "cwd"),
            task_id: param_str(p, "task_id"),
            env_vars: opt_member(p, "env_vars"),
            max_output_chars,
            seatbelt: bool_or(p, "seatbelt", true),
            inherit_env: bool_or(p, "inherit_env", false),
            max_nproc: u32_or(p, "max_nproc", 1024),
            max_cpu_sec: u32_or(p, "max_cpu_sec", 0),
            max_nofile: u32_or(p, "max_nofile", 1024),
            max_idle_sec: p.get_u64("max_idle_sec"),
            kill_grace_ms: u64_or(p, "kill_grace_ms", 500),
        },
    })
}

/// What a request for a method asks for, with these parameters; or why it is refused.
pub open spec fn planned(method: Seq<char>, p: JsonV) -> Result<CallV, (i64, Seq<char>)> {
    if method == "executor.health"@ {
        Ok(Call::Health)
    } else if method == "executor.execute"@ {
        Ok(Call::Execute { request: p })
    } else if method == "executor.snapshot_create"@ {
        match str_in(p, "cwd"@) {
            Some(cwd) => Ok(Call::SnapshotCreate { cwd }),
            None => lacks("cwd"@),
        }
    } else if method == "executor.list_snapshots"@ {
        match str_in(p, "cwd"@) {
            Some(cwd) => Ok(Call::ListSnapshots { cwd }),
            None => lacks("cwd"@),
        }
    } else if method == "executor.validate"@ {
        match str_in(p, "command"@) {
            Some(command) => Ok(Call::Validate { command }),
            None => lacks("command"@),
        }
    } else if method == "executor.rollback"@ {
        rollback_in(p)
    } else if method == "executor.diagnostics"@ {
        diagnostics_in(p)
    } else if method == "executor.gui_action"@ {
        match member(p, "action"@) {
            Some(action) => Ok(Call::GuiAction { action }),
            None => lacks("action"@),
        }
    } else if method == "executor.metrics"@ {
        Ok(Call::Metrics)
    } else if method == "executor.metrics_prometheus"@ {
        Ok(Call::MetricsPrometheus)
    } else if method == "executor.shutdown"@ {
        Ok(Call::Shutdown)
    } else {
        planned_tool(method, p)
    }
}

/// What a request for a method of the tools and shells asks for; or why it is refused.
pub open spec fn planned_tool(method: Seq<char>, p: JsonV) -> Result<CallV, (i64, Seq<char>)> {
    if method == "executor.file_edit"@ {
        file_edit_in(p)
    } else if method == "executor.write_file"@ {
        write_file_in(p)
    } else if method == "executor.glob"@ {
        match str_in(p, "pattern"@) {
            Some(pattern) => Ok(Call::Glob { pattern, cwd: str_in(p, "cwd"@) }),
            None => lacks("pattern"@),
        }
    } else if method == "executor.grep"@ {
        grep_in(p, false)
    } else if method == "executor.grep_with_opts"@ {
        grep_in(p, true)
    } else if method == "executor.apply_patch"@ {
        match str_in(p, "diff"@) {
            Some(diff) => Ok(Call::ApplyPatch { diff, cwd: str_in(p, "cwd"@) }),
            None => lacks("diff"@),
        }
    } else if method == "executor.replace_function"@ {
        replace_function_in(p)
    } else if method == "executor.multi_edit"@ {
        multi_edit_in(p)
    } else if method == "executor.notebook_edit"@ {
        notebook_edit_in(p)
    } else if method == "executor.shell_start"@ {
        shell_start_in(p)
    } else if method == "executor.shell_output"@ {
        match str_in(p, "shell_id"@) {
            Some(shell_id) => Ok(Call::ShellOutput { shell_id }),
            None => lacks("shell_id"@),
        }
    } else if method == "executor.kill_shell"@ {
        match str_in(p, "shell_id"@) {
            Some(shell_id) => Ok(Call::KillShell { shell_id }),
            None => lacks("shell_id"@),
        }
    } else if method == "executor.list_shells"@ {
        Ok(Call::ListShells)
    } else {
        Err((ERR_METHOD_NOT_FOUND, "Method not found: "@ + method))
    }
}

/// What a request for a tool or a shell asks for.
fn plan_tool(method: &str, p: &Json) -> (r: Result<Call<String, Vec<String>, Json>, (i64, String)>)
    ensures
        plan_said(r) == planned_tool(method@, p@),
{
    if str_eq(method, "executor.file_edit") {
        plan_file_edit(p)
    } else if str_eq(method, "executor.write_file") {
        plan_write_file(p)
    } else if str_eq(method, "executor.glob") {
        match param_str(p, "pattern") {
            Some(pattern) => Ok(Call::Glob { pattern, cwd: param_str(p, "cwd") }),
            None => lack("pattern"),
        }
    } else if str_eq(method, "executor.grep") {
        plan_grep(p, false)
    } else if str_eq(method, "executor.grep_with_opts") {
        plan_grep(p, true)
    } else if str_eq(method, "executor.apply_patch") {
        match param_str(p, "diff") {
            Some(diff) => Ok(Call::ApplyPatch { diff, cwd: param_str(p, "cwd") }),
            None => lack("diff"),
        }
    } else if str_eq(method, "executor.replace_function") {
        plan_replace_function(p)
    } else if str_eq(method, "executor.multi_edit") {
        plan_multi_edit(p)
    } else if str_eq(method, "executor.notebook_edit") {
        plan_notebook_edit(p)
    } else if str_eq(method, "executor.shell_start") {
        plan_shell_start(p)
    } else if str_eq(method, "executor.shell_output") {
        match param_str(p, "shell_id") {
            Some(shell_id) => Ok(Call::ShellOutput { shell_id }),
            None => lack("shell_id"),
        }
    } else if str_eq(method, "executor.kill_shell") {
        match param_str(p, "shell_id") {
            Some(shell_id) => Ok(Call::KillShell { shell_id }),
            None => lack("shell_id"),
        }
    } else if str_eq(method, "executor.list_shells") {
        Ok(Call::ListShells)
    } else {
        Err((ERR_METHOD_NOT_FOUND, behind("Method not found: ", method)))
    }
}

/// What a request for a method asks for, with these parameters; or why it is refused.
pub fn handle_method(method: &str, p: &Json) -> (r: Result<Call<String, Vec<String>, Json>, (i64, String)>)
    ensures
        plan_said(r) == planned(method@, p@),
{
    if str_eq(method, "executor.health") {
        Ok(Call::Health)
    } else if str_eq(method, "executor.execute") {
        Ok(Call::Execute { request: p.copy() })
    } else if str_eq(method, "executor.snapshot_create") {
        match param_str(p, "cwd") {
            Some(cwd) => Ok(Call::SnapshotCreate { cwd }),
            None => lack("cwd"),
        }
    } else if str_eq(method, "executor.list_snapshots") {
        match param_str(p, "cwd") {
            Some(cwd) => Ok(Call::ListSnapshots { cwd }),
            None => lack("cwd"),
        }
    } else if str_eq(method, "executor.validate") {
        match param_str(p, "command") {
            Some(command) => Ok(Call::Validate { command }),
            None => lack("command"),
        }
    } else if str_eq(method, "executor.rollback") {
        plan_rollback(p)
    } else if str_eq(method, "executor.diagnostics") {
        plan_diagnostics(p)
    } else if str_eq(method, "executor.gui_action") {
        match opt_member(p, "action") {
            Some(action) => Ok(Call::GuiAction { action }),
            None => lack("action"),
        }
    } else if str_eq(method, "executor.metrics") {
        Ok(Call::Metrics)
    } else if str_eq(method, "executor.metrics_prometheus") {
        Ok(Call::MetricsPrometheus)
    } else if str_eq(method, "executor.shutdown") {
        Ok(Call::Shutdown)
    } else {
        plan_tool(method, p)
    }
}

/// The word that a call is called by in the message of a failure.
pub open spec fn word_of(c: CallV) -> Seq<char> {
    match c {
        Call::Health => "health"@,
        Call::Execute { .. } => "execute"@,
        Call::SnapshotCreate { .. } => "snapshot_create"@,
        Call::ListSnapshots { .. } => "list_snapshots"@,
        Call::Validate { .. } => "validate"@,
        Call::Rollback { .. } => "rollback"@,
        Call::Diagnostics { .. } => "diagnostics"@,
        Call::GuiAction { .. } => "gui_action"@,
        Call::Metrics => "metrics"@,
        Call::MetricsPrometheus => "metrics_prometheus"@,
        Call::Shutdown => "shutdown"@,
        Call::FileEdit { .. } => "file_edit"@,
        Call::WriteFile { .. } => "write_file"@,
        Call::Glob { .. } => "glob"@,
        Call::Grep { .. } => "grep"@,
        Call::GrepWithOpts { .. } => "grep_with_opts"@,
        Call::ApplyPatch { .. } => "apply_patch"@,
        Call::ReplaceFunction { .. } => "replace_function"@,
        Call::MultiEdit { .. } => "multi_edit"@,
        Call::NotebookEdit { .. } => "notebook_edit"@,
        Call::ShellStart { .. } => "shell_start"@,
        Call::ShellOutput { .. } => "shell_output"@,
        Call::KillShell { .. } => "kill_shell"@,
        Call::ListShells => "list_shells"@,
    }
}

/// What is said of a call whose parameters cannot be read.
pub open spec fn unreadable(c: CallV) -> Seq<char> {
    match c {
        Call::GuiAction { .. } => "action 反序列化失败: "@,
        Call::GrepWithOpts { .. } => "opts 解析失败: "@,
        Call::MultiEdit { .. } => "edits 解析失败: "@,
        Call::NotebookEdit { .. } => "edit_mode 解析失败: "@,
        Call::ShellStart { .. } => "env_vars 解析失败: "@,
        _ => "params 无效: "@,
    }
}

impl Call<String, Vec<String>, Json> {
    /// The word that the call is called by in the message of a failure.
    pub fn word(&self) -> (r: &'static str)
        ensures
            r@ == word_of(self@),
    {
        match self {
            Call::Health => "health",
            Call::Execute { .. } => "execute",
            Call::SnapshotCreate { .. } => "snapshot_create",
            Call::ListSnapshots { .. } => "list_snapshots",
            Call::Validate { .. } => "validate",
            Call::Rollback { .. } => "rollback",
            Call::Diagnostics { .. } => "diagnostics",
            Call::GuiAction { .. } => "gui_action",
            Call::Metrics => "metrics",
            Call::MetricsPrometheus => "metrics_prometheus",
            Call::Shutdown => "shutdown",
            Call::FileEdit { .. } => "file_edit",
            Call::WriteFile { .. } => "write_file",
            Call::Glob { .. } => "glob",
            Call::Grep { .. } => "grep",
            Call::GrepWithOpts { .. } => "grep_with_opts",
            Call::ApplyPatch { .. } => "apply_patch",
            Call::ReplaceFunction { .. } => "replace_function",
            Call::MultiEdit { .. } => "multi_edit",
            Call::NotebookEdit { .. } => "notebook_edit",
            Call::ShellStart { .. } => "shell_start",
            Call::ShellOutput { .. } => "shell_output",
            Call::KillShell { .. } => "kill_shell",
            Call::ListShells => "list_shells",
        }
    }

    /// The code and the message of a call that failed.
    pub fn failed(&self, why: &str) -> (r: (i64, String))
        ensures
            r.0 == ERR_INTERNAL,
            r.1@ == word_of(self@) + " 失败: "@ + why@,
    {
        let mut m = behind(self.word(), " 失败: ");
        m.append(why);
        (ERR_INTERNAL, m)
    }

    /// The code and the message of a call whose parameters cannot be read.
    pub fn refused(&self, why: &str) -> (r: (i64, String))
        ensures
            r.0 == ERR_INVALID_REQ,
            r.1@ == unreadable(self@) + why@,
    {
        let front = match self {
            Call::GuiAction { .. } => "action 反序列化失败: ",
            Call::GrepWithOpts { .. } => "opts 解析失败: ",
            Call::MultiEdit { .. } => "edits 解析失败: ",
            Call::NotebookEdit { .. } => "edit_mode 解析失败: ",
            Call::ShellStart { .. } => "env_vars 解析失败: ",
            _ => "params 无效: ",
        };
        (ERR_INVALID_REQ, behind(front, why))
    }
}

/// The result of a call for a snapshot.
pub fn snapshot_result(id: &str) -> (r: Json)
    ensures
        r@ == with_member(no_members(), "snapshot_id"@, JsonV::Str(id@)),
{
    empty_object().with("snapshot_id", text(id))
}

/// Some snapshots as JSON.
pub open spec fn snapshots_json(v: Seq<SnapshotV>) -> Seq<JsonV>
    decreases v.len(),
{
    if v.len() == 0 {
        Seq::empty()
    } else {
        snapshots_json(v.drop_last()).push(entry_json(v.last()))
    }
}

/// The result of a call for the list of snapshots.
pub fn snapshots_result(snaps: &Vec<SnapshotInfo>) -> (r: Json)
    ensures
        r@ == with_member(no_members(), "snapshots"@, JsonV::Arr(snapshots_json(infos(snaps@)))),
{
    let mut out: Vec<Json> = Vec::new();
    let mut i: usize = 0;
    proof {
        assert(infos(snaps@).take(0) =~= Seq::empty());
    }
    while i < snaps.len()
        invariant
            i <= snaps@.len(),
            items_said(out@) == snapshots_json(infos(snaps@).take(i as int)),
        decreases snaps@.len() - i,
    {
        let ghost before = out@;
        proof {
            assert(infos(snaps@).take(i + 1).drop_last() =~= infos(snaps@).take(i as int));
            assert(infos(snaps@).take(i + 1).last() == snaps@[i as int]@);
        }
        out.push(entry_object(&snaps[i]));
        proof {
            assert(out@.drop_last() =~= before);
            assert(out@.last()@ == entry_json(snaps@[i as int]@));
        }
        i = i + 1;
    }
    proof {
        assert(infos(snaps@).take(i as int) =~= infos(snaps@));
    }
    empty_object().with("snapshots", Json::Arr(out))
}

/// The stages of the checks that a command can fail at.
#[derive(Debug, Clone, Copy, PartialEq, Eq, Structural)]
pub enum SecurityStage {
    Regex,
    Tokenizer,
}

/// The word for a stage.
pub open spec fn stage_word(s: Option<SecurityStage>) -> JsonV {
    match s {
        Some(SecurityStage::Regex) => JsonV::Str("regex"@),
        Some(SecurityStage::Tokenizer) => JsonV::Str("tokenizer"@),
        None => JsonV::Null,
    }
}

/// The result of a call for a verdict on a command.
pub fn verdict_result(allowed: bool, reason: &Option<String>, stage: Option<SecurityStage>) -> (r: Json)
    ensures
        r@ == with_member(
            with_member(
                with_member(with_member(no_members(), "allowed"@, JsonV::Bool(allowed)), "blocked"@, JsonV::Bool(!allowed)),
                "reason"@,
                opt_said(opt_text(*reason)),
            ),
            "stage"@,
            stage_word(stage),
        ),
{
    let stage = match stage {
        Some(SecurityStage::Regex) => text("regex"),
        Some(SecurityStage::Tokenizer) => text("tokenizer"),
        None => Json::Null,
    };
    empty_object().with("allowed", Json::Bool(allowed)).with("blocked", Json::Bool(!allowed)).with("reason", text_or_null(reason)).with("stage", stage)
}

/// The result of a call for a rollback: one that was not done is an error.
pub open spec fn rollback_said(ok: bool) -> Result<JsonV, (i64, Seq<char>)> {
    if ok {
        Ok(with_member(no_members(), "ok"@, JsonV::Bool(true)))
    } else {
        Err((ERR_ROLLBACK, "rollback 失败 (stash apply 或非 repo)"@))
    }
}

/// The result of a call for a rollback, which is counted.
pub fn rollback_result(metrics: &mut Metrics, ok: bool) -> (r: Result<Json, (i64, String)>)
    ensures
        crate::frames::outcome_said(r) == rollback_said(ok),
        final(metrics)@ == crate::metrics::rollback_recorded(old(metrics)@, ok),
{
    metrics.record_rollback(ok);
    if ok {
        Ok(empty_object().with("ok", Json::Bool(true)))
    } else {
        Err((ERR_ROLLBACK, "rollback 失败 (stash apply 或非 repo)".to_owned()))
    }
}

/// The result of a call for the figures as text.
pub open spec fn prometheus_said(figures: Option<Seq<char>>) -> Result<JsonV, (i64, Seq<char>)> {
    match figures {
        Some(t) => Ok(with_member(with_member(no_members(), "ok"@, JsonV::Bool(true)), "text"@, JsonV::Str(t))),
        None => Err((ERR_INTERNAL, "Prometheus recorder 未安装, 仅 executor.metrics JSON 可用"@)),
    }
}

/// The result of a call for the figures as text, which there are only where they are recorded.
pub fn prometheus_result(figures: &Option<String>) -> (r: Result<Json, (i64, String)>)
    ensures
        crate::frames::outcome_said(r) == prometheus_said(opt_text(*figures)),
{
    match figures {
        Some(t) => Ok(empty_object().with("ok", Json::Bool(true)).with("text", text(t.as_str()))),
        None => Err((ERR_INTERNAL, "Prometheus recorder 未安装, 仅 executor.metrics JSON 可用".to_owned())),
    }
}

/// The result of a call to shut down.
pub fn shutdown_result() -> (r: Json)
    ensures
        r@ == with_member(with_member(no_members(), "ok"@, JsonV::Bool(true)), "shutting_down"@, JsonV::Bool(true)),
{
    empty_object().with("ok", Json::Bool(true)).with("shutting_down", Json::Bool(true))
}

/// The result of a call to end a shell.
pub fn kill_result(ok: bool) -> (r: Json)
    ensures
        r@ == with_member(no_members(), "ok"@, JsonV::Bool(ok)),
{
    empty_object().with("ok", Json::Bool(ok))
}

/// The event that tells of a part of the output.
pub open spec fn chunk_event(task_id: Option<Seq<char>>, data: Seq<char>) -> JsonV {
    with_member(
        with_member(with_member(no_members(), "task_id"@, opt_said(task_id)), "event"@, JsonV::Str("chunk"@)),
        "data"@,
        JsonV::Str(data),
    )
}

/// The event that tells of a result.
pub open spec fn done_event(task_id: Option<Seq<char>>, result: JsonV) -> JsonV {
    with_member(
        with_member(with_member(no_members(), "task_id"@, opt_said(task_id)), "event"@, JsonV::Str("done"@)),
        "result"@,
        result,
    )
}

/// The frame with a part of the output.
pub open spec fn chunk_frame(id: JsonV, data: Seq<char>) -> JsonV {
    ok_said(id, with_member(with_member(no_members(), "type"@, JsonV::Str("chunk"@)), "data"@, JsonV::Str(data)))
}

/// The frame with a result.
pub open spec fn done_frame(id: JsonV, result: JsonV) -> JsonV {
    ok_said(id, with_member(with_member(no_members(), "type"@, JsonV::Str("done"@)), "result"@, result))
}

/// The frame with a sample.
pub open spec fn sample_frame(id: JsonV, sample: JsonV) -> JsonV {
    ok_said(id, with_member(with_member(no_members(), "type"@, JsonV::Str("sample"@)), "sample"@, sample))
}

/// A command whose output is passed on: the request that it is answered to, its task, and the
/// connection that it came in over.
pub struct ExecuteStream {
    pub id: Json,
    pub task_id: Option<String>,
    pub conn_id: u64,
}

/// A frame for the connection that asked, and the pushes to those who see the command.
pub struct Relay {
    pub frame: Json,
    pub pushes: Vec<Push>,
}

impl ExecuteStream {
    /// Passes on a part of the output.
    pub fn chunk(&self, hub: &BroadcastHub, data: &str) -> (r: Relay)
        ensures
            r.frame@ == chunk_frame(self.id@, data@),
            pushes_said(r.pushes@) == stdio_pushes(hub@.subs, chunk_event(opt_text(self.task_id), data@), self.conn_id),
    {
        let event = empty_object().with("task_id", text_or_null(&self.task_id)).with("event", text("chunk")).with("data", text(data));
        let pushes = hub.broadcast_stdio(&event, self.conn_id);
        let frame = ok_resp(self.id.copy(), empty_object().with("type", text("chunk")).with("data", text(data)));
        Relay { frame, pushes }
    }

    /// Passes on the result, which is counted.
    pub fn done(&self, hub: &BroadcastHub, metrics: &mut Metrics, result: &ExecutionResult, value: &Json) -> (r: Relay)
        requires
            old(metrics).wf(),
        ensures
            final(metrics).wf(),
            final(metrics)@ == exec_recorded(old(metrics)@, result@),
            r.frame@ == done_frame(self.id@, value@),
            pushes_said(r.pushes@) == stdio_pushes(hub@.subs, done_event(opt_text(self.task_id), value@), self.conn_id),
    {
        metrics.record_exec(result);
        let pushes = broadcast_done(hub, &self.task_id, value, self.conn_id);
        let frame = ok_resp(self.id.copy(), empty_object().with("type", text("done")).with("result", value.copy()));
        Relay { frame, pushes }
    }

    /// The frame of a command that could not be started.
    pub fn not_started(&self, why: &str) -> (r: Json)
        ensures
            r@ == err_said(self.id@, ERR_INTERNAL, "execute_stream 失败: "@ + why@),
    {
        err_resp(self.id.copy(), ERR_INTERNAL, behind("execute_stream 失败: ", why).as_str())
    }
}

/// Pushes a result to those who see the command.
pub fn broadcast_done(hub: &BroadcastHub, task_id: &Option<String>, value: &Json, conn_id: u64) -> (r: Vec<Push>)
    ensures
        pushes_said(r@) == stdio_pushes(hub@.subs, done_event(opt_text(*task_id), value@), conn_id),
{
    let event = empty_object().with("task_id", text_or_null(task_id)).with("event", text("done")).with("result", value.copy());
    hub.broadcast_stdio(&event, conn_id)
}

/// The frame of a request for a stream whose parameters cannot be read.
pub fn stream_refused(id: Json, why: &str) -> (r: Json)
    ensures
        r@ == err_said(id@, ERR_INVALID_REQ, "params 无效: "@ + why@),
{
    err_resp(id, ERR_INVALID_REQ, behind("params 无效: ", why).as_str())
}

/// How samples are taken.
#[derive(Debug, Clone, Copy, PartialEq, Eq, Structural)]
pub struct TelemetryStreamConfig {
    pub interval_ms: u64,
    pub max_samples: u64,
    pub pid: Option<u32>,
}

/// How a request wants samples to be taken: ten in a second, without end, of this process.
pub open spec fn telemetry_in(p: JsonV) -> TelemetryStreamConfig {
    TelemetryStreamConfig {
        interval_ms: nat_or(p, "interval_ms"@, 100),
        max_samples: nat_or(p, "max_samples"@, 0),
        pid: match as_nat(member(p, "pid"@)) {
            Some(n) => Some(n as u32),
            None => None,
        },
    }
}

/// How a request wants samples to be taken.
pub fn handle_telemetry_stream(p: &Json) -> (r: TelemetryStreamConfig)
    ensures
        r == telemetry_in(p@),
{
    let pid = match p.get_u64("pid") {
        Some(n) => Some(
            #[verifier::truncate]
            (n as u32),
        ),
        None => None,
    };
    TelemetryStreamConfig { interval_ms: u64_or(p, "interval_ms", 100), max_samples: u64_or(p, "max_samples", 0), pid }
}

/// The frame with a sample.
pub fn sample_reply(id: &Json, sample: Json) -> (r: Json)
    ensures
        r@ == sample_frame(id@, sample@),
{
    ok_resp(id.copy(), empty_object().with("type", text("sample")).with("sample", sample))
}

/// A shell in the background is sandboxed unless the request says that it is not to be.
pub proof fn law_shells_are_sandboxed(p: JsonV)
    requires
        as_truth(member(p, "seatbelt"@)) != Some(false),
        str_in(p, "command"@) is Some,
    ensures
        shell_start_in(p) matches Ok(Call::ShellStart { start }) && start.seatbelt,
{
}

/// Whether a refusal is one of a request: it lacks something, or there is no such method.
pub open spec fn is_refusal(e: (i64, Seq<char>)) -> bool {
    e.0 == ERR_INVALID_REQ || e.0 == ERR_METHOD_NOT_FOUND
}

/// A request is refused only for what it lacks, or because there is no such method.
pub proof fn law_requests_are_refused_for_cause(method: Seq<char>, p: JsonV)
    ensures
        planned(method, p) matches Err(e) ==> is_refusal(e),
{
}

/// What a command writes carries its task, so that it reaches those who have named the task.
pub proof fn law_events_carry_the_task(task_id: Option<Seq<char>>, data: Seq<char>, result: JsonV)
    ensures
        crate::hub::task_of(chunk_event(task_id, data)) == task_id,
        crate::hub::task_of(done_event(task_id, result)) == task_id,
{
    reveal_strlit("task_id");
    reveal_strlit("event");
    reveal_strlit("data");
    reveal_strlit("result");
    assert("task_id"@.len() == 7);
    assert("event"@.len() == 5);
    assert("data"@.len() == 4);
    assert("result"@.len() == 6);
}

/// Whether a member of some parameters is this value.
pub open spec fn has_value(p: JsonV, name: Seq<char>, j: JsonV) -> bool {
    p matches JsonV::Obj(m) && m.contains_key(name) && m[name] == j
}

/// Whether some parameters have a member with this name.
pub open spec fn has_name(p: JsonV, name: Seq<char>) -> bool {
    p matches JsonV::Obj(m) && m.contains_key(name)
}

/// Whether a member of some parameters is a text.
pub open spec fn has_text(p: JsonV, name: Seq<char>) -> bool {
    p matches JsonV::Obj(m) && m.contains_key(name) && m[name] is Str
}

/// Whether a member of some parameters is an array.
pub open spec fn has_array(p: JsonV, name: Seq<char>) -> bool {
    p matches JsonV::Obj(m) && m.contains_key(name) && m[name] is Arr
}

/// Whether what is carried under a name is the text that a member of that name is, and nothing where
/// that is none.
pub open spec fn carries_text(p: JsonV, name: Seq<char>, o: Option<Seq<char>>) -> bool {
    match o {
        Some(t) => has_value(p, name, JsonV::Str(t)),
        None => !has_text(p, name),
    }
}

/// Whether a number is the one that a member is, as far as it fits, or a fixed one where that is
/// none.
pub open spec fn carries_number(p: JsonV, name: Seq<char>, n: int, most: int, otherwise: int) -> bool {
    &&& forall|k: u64| #[trigger] has_value(p, name, JsonV::UInt(k)) && k <= most ==> n == k
    &&& (forall|k: u64| !(#[trigger] has_value(p, name, JsonV::UInt(k)))) ==> n == otherwise
}

/// Whether some paths are those in the array that a member is: the texts in it, and no others.
pub open spec fn carries_paths(p: JsonV, name: Seq<char>, paths: Seq<Seq<char>>) -> bool {
    &&& has_array(p, name)
    &&& forall|t: Seq<char>| paths.contains(t) <==> p->Obj_0[name]->Arr_0.contains(JsonV::Str(t))
    &&& (forall|i: int| 0 <= i < p->Obj_0[name]->Arr_0.len() ==> (#[trigger] p->Obj_0[name]->Arr_0[i]) is Str) ==> {
        &&& paths.len() == p->Obj_0[name]->Arr_0.len()
        &&& forall|i: int| 0 <= i < paths.len() ==> JsonV::Str(#[trigger] paths[i]) == p->Obj_0[name]->Arr_0[i]
    }
}

/// Whether a call carries what the parameters of its request hold, each under its own name.
pub open spec fn carries(c: CallV, p: JsonV) -> bool {
    match c {
        Call::Health => true,
        Call::Execute { request } => {
            &&& request == p
        },
        Call::SnapshotCreate { cwd } => {
            &&& has_value(p, "cwd"@, JsonV::Str(cwd))
        },
        Call::ListSnapshots { cwd } => {
            &&& has_value(p, "cwd"@, JsonV::Str(cwd))
        },
        Call::Validate { command } => {
            &&& has_value(p, "command"@, JsonV::Str(command))
        },
        Call::Rollback { snapshot_id, cwd } => {
            &&& has_value(p, "snapshot_id"@, JsonV::Str(snapshot_id))
            &&& has_value(p, "cwd"@, JsonV::Str(cwd))
        },
        Call::GuiAction { action } => {
            &&& has_value(p, "action"@, action)
        },
        Call::Metrics => true,
        Call::MetricsPrometheus => true,
        Call::Shutdown => true,
        Call::FileEdit { path, old_string, new_string, cwd, replace_all } => {
            &&& has_value(p, "path"@, JsonV::Str(path))
            &&& has_value(p, "old_string"@, JsonV::Str(old_string))
            &&& has_value(p, "new_string"@, JsonV::Str(new_string))
            &&& carries_text(p, "cwd"@, cwd)
            &&& replace_all <==> has_value(p, "replace_all"@, JsonV::Bool(true))
        },
        Call::WriteFile { path, content, cwd } => {
            &&& has_value(p, "path"@, JsonV::Str(path))
            &&& has_value(p, "content"@, JsonV::Str(content))
            &&& carries_text(p, "cwd"@, cwd)
        },
        Call::Glob { pattern, cwd } => {
            &&& has_value(p, "pattern"@, JsonV::Str(pattern))
            &&& carries_text(p, "cwd"@, cwd)
        },
        Call::Grep { pattern, paths, cwd } => {
            &&& has_value(p, "pattern"@, JsonV::Str(pattern))
            &&& carries_paths(p, "paths"@, paths)
            &&& carries_text(p, "cwd"@, cwd)
        },
        Call::GrepWithOpts { pattern, paths, cwd, opts } => {
            &&& has_value(p, "pattern"@, JsonV::Str(pattern))
            &&& carries_paths(p, "paths"@, paths)
            &&& carries_text(p, "cwd"@, cwd)
            &&& opts matches Some(j) ==> has_value(p, "opts"@, j)
            &&& opts is None ==> !has_name(p, "opts"@)
        },
        Call::ApplyPatch { diff, cwd } => {
            &&& has_value(p, "diff"@, JsonV::Str(diff))
            &&& carries_text(p, "cwd"@, cwd)
        },
        Call::ReplaceFunction { path, fn_name, new_body, cwd } => {
            &&& has_value(p, "path"@, JsonV::Str(path))
            &&& has_value(p, "fn_name"@, JsonV::Str(fn_name))
            &&& has_value(p, "new_body"@, JsonV::Str(new_body))
            &&& carries_text(p, "cwd"@, cwd)
        },
        Call::MultiEdit { path, edits, cwd } => {
            &&& has_value(p, "path"@, JsonV::Str(path))
            &&& has_value(p, "edits"@, edits)
            &&& carries_text(p, "cwd"@, cwd)
        },
        Call::NotebookEdit { path, cell_id, cell_number, new_source, edit_mode, cwd } => {
            &&& has_value(p, "path"@, JsonV::Str(path))
            &&& carries_text(p, "cell_id"@, cell_id)
            &&& cell_number matches Some(n) ==> (n >= 0 && has_value(p, "cell_number"@, JsonV::UInt(n as u64))) || has_value(p, "cell_number"@, JsonV::NInt(n))
            &&& cell_number is None ==> forall|n: u64| n <= i64::MAX ==> !(#[trigger] has_value(p, "cell_number"@, JsonV::UInt(n)))
            &&& has_value(p, "new_source"@, JsonV::Str(new_source))
            &&& carries_text(p, "edit_mode"@, edit_mode)
            &&& carries_text(p, "cwd"@, cwd)
        },
        Call::ShellOutput { shell_id } => {
            &&& has_value(p, "shell_id"@, JsonV::Str(shell_id))
        },
        Call::KillShell { shell_id } => {
            &&& has_value(p, "shell_id"@, JsonV::Str(shell_id))
        },
        Call::ListShells => true,
        Call::Diagnostics { output, cwd } => {
            &&& has_text(p, "stdout"@) ==> has_value(p, "stdout"@, JsonV::Str(output))
            &&& !has_text(p, "stdout"@) && has_text(p, "stderr"@) ==> has_value(p, "stderr"@, JsonV::Str(output))
            &&& !has_text(p, "stdout"@) && !has_text(p, "stderr"@) && has_text(p, "output"@) ==> has_value(p, "output"@, JsonV::Str(output))
            &&& !has_text(p, "stdout"@) && !has_text(p, "stderr"@) && !has_text(p, "output"@) ==> output.len() == 0
            &&& carries_text(p, "cwd"@, cwd)
        },
        Call::ShellStart { start } => {
            &&& has_value(p, "command"@, JsonV::Str(start.command))
            &&& carries_text(p, "cwd"@, start.cwd)
            &&& carries_text(p, "task_id"@, start.task_id)
            &&& start.env_vars matches Some(j) ==> has_value(p, "env_vars"@, j)
            &&& start.env_vars is None ==> !has_name(p, "env_vars"@)
            &&& !start.seatbelt <==> has_value(p, "seatbelt"@, JsonV::Bool(false))
            &&& start.inherit_env <==> has_value(p, "inherit_env"@, JsonV::Bool(true))
            &&& carries_number(p, "max_output_chars"@, start.max_output_chars as int, 0xffff_ffff, 100_000)
            &&& carries_number(p, "max_nproc"@, start.max_nproc as int, 0xffff_ffff, 1024)
            &&& carries_number(p, "max_cpu_sec"@, start.max_cpu_sec as int, 0xffff_ffff, 0)
            &&& carries_number(p, "max_nofile"@, start.max_nofile as int, 0xffff_ffff, 1024)
            &&& carries_number(p, "kill_grace_ms"@, start.kill_grace_ms as int, u64::MAX as int, 500)
            &&& start.max_idle_sec matches Some(n) ==> has_value(p, "max_idle_sec"@, JsonV::UInt(n))
            &&& start.max_idle_sec is None ==> forall|n: u64| !(#[trigger] has_value(p, "max_idle_sec"@, JsonV::UInt(n)))
        },
    }
}

/// The texts among some values are those values that are texts, and where all are, they are in the
/// same places.
pub proof fn law_texts_are_picked_out(v: Seq<JsonV>)
    ensures
        forall|t: Seq<char>| texts_in(v).contains(t) <==> v.contains(JsonV::Str(t)),
        (forall|i: int| 0 <= i < v.len() ==> (#[trigger] v[i]) is Str) ==> texts_in(v).len() == v.len() && forall|i: int|
            0 <= i < v.len() ==> JsonV::Str(#[trigger] texts_in(v)[i]) == v[i],
    decreases v.len(),
{
    if v.len() > 0 {
        let front = v.drop_last();
        law_texts_are_picked_out(front);
        let out = texts_in(v);
        assert(v =~= front.push(v.last()));
        assert forall|t: Seq<char>| out.contains(t) <==> v.contains(JsonV::Str(t)) by {
            if front.contains(JsonV::Str(t)) {
                let k = choose|k: int| 0 <= k < front.len() && front[k] == JsonV::Str(t);
                assert(v[k] == JsonV::Str(t));
                assert(texts_in(front).contains(t));
                let j = choose|j: int| 0 <= j < texts_in(front).len() && texts_in(front)[j] == t;
                assert(out[j] == t);
            }
            if v.last() == JsonV::Str(t) {
                assert(v[v.len() - 1] == JsonV::Str(t));
                assert(out[out.len() - 1] == t);
            }
            if out.contains(t) {
                let j = choose|j: int| 0 <= j < out.len() && out[j] == t;
                if j < texts_in(front).len() {
                    assert(texts_in(front)[j] == t);
                    assert(texts_in(front).contains(t));
                    let k = choose|k: int| 0 <= k < front.len() && front[k] == JsonV::Str(t);
                    assert(v[k] == JsonV::Str(t));
                }
            }
            if v.contains(JsonV::Str(t)) && !(v.last() == JsonV::Str(t)) {
                let k = choose|k: int| 0 <= k < v.len() && v[k] == JsonV::Str(t);
                assert(front[k] == JsonV::Str(t));
            }
        }
        if forall|i: int| 0 <= i < v.len() ==> (#[trigger] v[i]) is Str {
            assert forall|i: int| 0 <= i < front.len() implies (#[trigger] front[i]) is Str by {
                assert(v[i] is Str);
            }
            assert(v[v.len() - 1] is Str);
            assert forall|i: int| 0 <= i < v.len() implies JsonV::Str(#[trigger] out[i]) == v[i] by {
                if i < front.len() {
                    assert(texts_in(front)[i] == out[i]);
                    assert(JsonV::Str(texts_in(front)[i]) == front[i]);
                }
            }
        }
    }
}

proof fn lemma_search_carries(p: JsonV, with_opts: bool)
    ensures
        grep_in(p, with_opts) matches Ok(c) ==> carries(c, p),
{
    if let JsonV::Obj(m) = p {
        if m.contains_key("paths"@) {
            if let JsonV::Arr(items) = m["paths"@] {
                law_texts_are_picked_out(items);
            }
        }
    }
}

proof fn lemma_notebook_carries(p: JsonV)
    ensures
        notebook_edit_in(p) matches Ok(c) ==> carries(c, p),
{
    lemma_number_is_held(p, "cell_number"@);
}

proof fn lemma_shell_carries(p: JsonV)
    ensures
        shell_start_in(p) matches Ok(c) ==> carries(c, p),
{
    lemma_number_is_held(p, "max_output_chars"@);
    lemma_number_is_held(p, "max_nproc"@);
    lemma_number_is_held(p, "max_cpu_sec"@);
    lemma_number_is_held(p, "max_nofile"@);
    lemma_number_is_held(p, "kill_grace_ms"@);
    lemma_number_is_held(p, "max_idle_sec"@);
}

proof fn lemma_file_tools_carry(p: JsonV)
    ensures
        file_edit_in(p) matches Ok(c) ==> carries(c, p),
        write_file_in(p) matches Ok(c) ==> carries(c, p),
        replace_function_in(p) matches Ok(c) ==> carries(c, p),
        multi_edit_in(p) matches Ok(c) ==> carries(c, p),
        rollback_in(p) matches Ok(c) ==> carries(c, p),
        diagnostics_in(p) matches Ok(c) ==> carries(c, p),
{
}

/// A request that is accepted becomes a call that carries what the parameters hold, each part under
/// its own name: no text stands in for another.
#[verifier::spinoff_prover]
#[verifier::rlimit(80)]
pub proof fn law_calls_carry_their_parameters(method: Seq<char>, p: JsonV)
    ensures
        planned(method, p) matches Ok(c) ==> carries(c, p),
{
    lemma_search_carries(p, true);
    lemma_search_carries(p, false);
    lemma_notebook_carries(p);
    lemma_shell_carries(p);
    lemma_file_tools_carry(p);
}

/// A member that is a natural number is held as one.
proof fn lemma_number_is_held(p: JsonV, name: Seq<char>)
    ensures
        as_nat(member(p, name)) matches Some(n) ==> has_value(p, name, JsonV::UInt(n)),
{
}

/// A call as it is said carries the same texts as the call itself.
pub proof fn law_calls_are_seen_as_they_are(c: Call<String, Vec<String>, Json>)
    ensures
        c matches Call::Execute { request } ==> (c@ matches Call::Execute { request: request_ } && request_ == request@),
        c matches Call::SnapshotCreate { cwd } ==> (c@ matches Call::SnapshotCreate { cwd: cwd_ } && cwd_ == cwd@),
        c matches Call::ListSnapshots { cwd } ==> (c@ matches Call::ListSnapshots { cwd: cwd_ } && cwd_ == cwd@),
        c matches Call::Validate { command } ==> (c@ matches Call::Validate { command: command_ } && command_ == command@),
        c matches Call::Rollback { snapshot_id, cwd } ==> (c@ matches Call::Rollback { snapshot_id: snapshot_id_, cwd: cwd_ } && snapshot_id_ == snapshot_id@ && cwd_ == cwd@),
        c matches Call::GuiAction { action } ==> (c@ matches Call::GuiAction { action: action_ } && action_ == action@),
        c matches Call::FileEdit { path, old_string, new_string, cwd, replace_all } ==> (c@ matches Call::FileEdit { path: path_, old_string: old_string_, new_string: new_string_, cwd: cwd_, replace_all: replace_all_ } && path_ == path@ && old_string_ == old_string@ && new_string_ == new_string@ && ((cwd matches Some(t) ==> cwd_ == Some(t@)) && (cwd is None ==> cwd_ is None)) && replace_all_ == replace_all),
        c matches Call::WriteFile { path, content, cwd } ==> (c@ matches Call::WriteFile { path: path_, content: content_, cwd: cwd_ } && path_ == path@ && content_ == content@ && ((cwd matches Some(t) ==> cwd_ == Some(t@)) && (cwd is None ==> cwd_ is None))),
        c matches Call::Glob { pattern, cwd } ==> (c@ matches Call::Glob { pattern: pattern_, cwd: cwd_ } && pattern_ == pattern@ && ((cwd matches Some(t) ==> cwd_ == Some(t@)) && (cwd is None ==> cwd_ is None))),
        c matches Call::Grep { pattern, paths, cwd } ==> (c@ matches Call::Grep { pattern: pattern_, paths: paths_, cwd: cwd_ } && pattern_ == pattern@ && paths_ == texts(paths@) && ((cwd matches Some(t) ==> cwd_ == Some(t@)) && (cwd is None ==> cwd_ is None))),
        c matches Call::GrepWithOpts { pattern, paths, cwd, opts } ==> (c@ matches Call::GrepWithOpts { pattern: pattern_, paths: paths_, cwd: cwd_, opts: opts_ } && pattern_ == pattern@ && paths_ == texts(paths@) && ((cwd matches Some(t) ==> cwd_ == Some(t@)) && (cwd is None ==> cwd_ is None)) && ((opts matches Some(t) ==> opts_ == Some(t@)) && (opts is None ==> opts_ is None))),
        c matches Call::ApplyPatch { diff, cwd } ==> (c@ matches Call::ApplyPatch { diff: diff_, cwd: cwd_ } && diff_ == diff@ && ((cwd matches Some(t) ==> cwd_ == Some(t@)) && (cwd is None ==> cwd_ is None))),
        c matches Call::ReplaceFunction { path, fn_name, new_body, cwd } ==> (c@ matches Call::ReplaceFunction { path: path_, fn_name: fn_name_, new_body: new_body_, cwd: cwd_ } && path_ == path@ && fn_name_ == fn_name@ && new_body_ == new_body@ && ((cwd matches Some(t) ==> cwd_ == Some(t@)) && (cwd is None ==> cwd_ is None))),
        c matches Call::MultiEdit { path, edits, cwd } ==> (c@ matches Call::MultiEdit { path: path_, edits: edits_, cwd: cwd_ } && path_ == path@ && edits_ == edits@ && ((cwd matches Some(t) ==> cwd_ == Some(t@)) && (cwd is None ==> cwd_ is None))),
        c matches Call::NotebookEdit { path, cell_id, cell_number, new_source, edit_mode, cwd } ==> (c@ matches Call::NotebookEdit { path: path_, cell_id: cell_id_, cell_number: cell_number_, new_source: new_source_, edit_mode: edit_mode_, cwd: cwd_ } && path_ == path@ && ((cell_id matches Some(t) ==> cell_id_ == Some(t@)) && (cell_id is None ==> cell_id_ is None)) && cell_number_ == cell_number && new_source_ == new_source@ && ((edit_mode matches Some(t) ==> edit_mode_ == Some(t@)) && (edit_mode is None ==> edit_mode_ is None)) && ((cwd matches Some(t) ==> cwd_ == Some(t@)) && (cwd is None ==> cwd_ is None))),
        c matches Call::ShellOutput { shell_id } ==> (c@ matches Call::ShellOutput { shell_id: shell_id_ } && shell_id_ == shell_id@),
        c matches Call::KillShell { shell_id } ==> (c@ matches Call::KillShell { shell_id: shell_id_ } && shell_id_ == shell_id@),
        c matches Call::Diagnostics { output, cwd } ==> (c@ matches Call::Diagnostics { output: output_, cwd: cwd_ } && output_ == output@ && ((cwd matches Some(t) ==> cwd_ == Some(t@)) && (cwd is None ==> cwd_ is None))),
        c matches Call::ShellStart { start } ==> (c@ matches Call::ShellStart { start: s } && s.command == start.command@ && s.seatbelt == start.seatbelt && s.inherit_env == start.inherit_env && s.max_nproc == start.max_nproc && s.max_cpu_sec == start.max_cpu_sec && s.max_nofile == start.max_nofile && s.max_output_chars == start.max_output_chars && s.max_idle_sec == start.max_idle_sec && s.kill_grace_ms == start.kill_grace_ms && (start.cwd matches Some(t) ==> s.cwd == Some(t@)) && (start.cwd is None ==> s.cwd is None) && (start.task_id matches Some(t) ==> s.task_id == Some(t@)) && (start.task_id is None ==> s.task_id is None)),
{
}

/// The names of the methods differ.
#[verifier::spinoff_prover]
proof fn lemma_method_names_differ()
    ensures
        "executor.health"@ != "executor.execute"@,
        "executor.health"@ != "executor.snapshot_create"@,
        "executor.health"@ != "executor.list_snapshots"@,
        "executor.health"@ != "executor.validate"@,
        "executor.health"@ != "executor.rollback"@,
        "executor.health"@ != "executor.diagnostics"@,
        "executor.health"@ != "executor.gui_action"@,
        "executor.health"@ != "executor.metrics"@,
        "executor.health"@ != "executor.metrics_prometheus"@,
        "executor.health"@ != "executor.shutdown"@,
        "executor.health"@ != "executor.file_edit"@,
        "executor.health"@ != "executor.write_file"@,
        "executor.health"@ != "executor.glob"@,
        "executor.health"@ != "executor.grep"@,
        "executor.health"@ != "executor.grep_with_opts"@,
        "executor.health"@ != "executor.apply_patch"@,
        "executor.health"@ != "executor.replace_function"@,
        "executor.health"@ != "executor.multi_edit"@,
        "executor.health"@ != "executor.notebook_edit"@,
        "executor.health"@ != "executor.shell_start"@,
        "executor.health"@ != "executor.shell_output"@,
        "executor.health"@ != "executor.kill_shell"@,
        "executor.health"@ != "executor.list_shells"@,
        "executor.execute"@ != "executor.snapshot_create"@,
        "executor.execute"@ != "executor.list_snapshots"@,
        "executor.execute"@ != "executor.validate"@,
        "executor.execute"@ != "executor.rollback"@,
        "executor.execute"@ != "executor.diagnostics"@,
        "executor.execute"@ != "executor.gui_action"@,
        "executor.execute"@ != "executor.metrics"@,
        "executor.execute"@ != "executor.metrics_prometheus"@,
        "executor.execute"@ != "executor.shutdown"@,
        "executor.execute"@ != "executor.file_edit"@,
        "executor.execute"@ != "executor.write_file"@,
        "executor.execute"@ != "executor.glob"@,
        "executor.execute"@ != "executor.grep"@,
        "executor.execute"@ != "executor.grep_with_opts"@,
        "executor.execute"@ != "executor.apply_patch"@,
        "executor.execute"@ != "executor.replace_function"@,
        "executor.execute"@ != "executor.multi_edit"@,
        "executor.execute"@ != "executor.notebook_edit"@,
        "executor.execute"@ != "executor.shell_start"@,
        "executor.execute"@ != "executor.shell_output"@,
        "executor.execute"@ != "executor.kill_shell"@,
        "executor.execute"@ != "executor.list_shells"@,
        "executor.snapshot_create"@ != "executor.list_snapshots"@,
        "executor.snapshot_create"@ != "executor.validate"@,
        "executor.snapshot_create"@ != "executor.rollback"@,
        "executor.snapshot_create"@ != "executor.diagnostics"@,
        "executor.snapshot_create"@ != "executor.gui_action"@,
        "executor.snapshot_create"@ != "executor.metrics"@,
        "executor.snapshot_create"@ != "executor.metrics_prometheus"@,
        "executor.snapshot_create"@ != "executor.shutdown"@,
        "executor.snapshot_create"@ != "executor.file_edit"@,
        "executor.snapshot_create"@ != "executor.write_file"@,
        "executor.snapshot_create"@ != "executor.glob"@,
        "executor.snapshot_create"@ != "executor.grep"@,
        "executor.snapshot_create"@ != "executor.grep_with_opts"@,
        "executor.snapshot_create"@ != "executor.apply_patch"@,
        "executor.snapshot_create"@ != "executor.replace_function"@,
        "executor.snapshot_create"@ != "executor.multi_edit"@,
        "executor.snapshot_create"@ != "executor.notebook_edit"@,
        "executor.snapshot_create"@ != "executor.shell_start"@,
        "executor.snapshot_create"@ != "executor.shell_output"@,
        "executor.snapshot_create"@ != "executor.kill_shell"@,
        "executor.snapshot_create"@ != "executor.list_shells"@,
        "executor.list_snapshots"@ != "executor.validate"@,
        "executor.list_snapshots"@ != "executor.rollback"@,
        "executor.list_snapshots"@ != "executor.diagnostics"@,
        "executor.list_snapshots"@ != "executor.gui_action"@,
        "executor.list_snapshots"@ != "executor.metrics"@,
        "executor.list_snapshots"@ != "executor.metrics_prometheus"@,
        "executor.list_snapshots"@ != "executor.shutdown"@,
        "executor.list_snapshots"@ != "executor.file_edit"@,
        "executor.list_snapshots"@ != "executor.write_file"@,
        "executor.list_snapshots"@ != "executor.glob"@,
        "executor.list_snapshots"@ != "executor.grep"@,
        "executor.list_snapshots"@ != "executor.grep_with_opts"@,
        "executor.list_snapshots"@ != "executor.apply_patch"@,
        "executor.list_snapshots"@ != "executor.replace_function"@,
        "executor.list_snapshots"@ != "executor.multi_edit"@,
        "executor.list_snapshots"@ != "executor.notebook_edit"@,
        "executor.list_snapshots"@ != "executor.shell_start"@,
        "executor.list_snapshots"@ != "executor.shell_output"@,
        "executor.list_snapshots"@ != "executor.kill_shell"@,
        "executor.list_snapshots"@ != "executor.list_shells"@,
        "executor.validate"@ != "executor.rollback"@,
        "executor.validate"@ != "executor.diagnostics"@,
        "executor.validate"@ != "executor.gui_action"@,
        "executor.validate"@ != "executor.metrics"@,
        "executor.validate"@ != "executor.metrics_prometheus"@,
        "executor.validate"@ != "executor.shutdown"@,
        "executor.validate"@ != "executor.file_edit"@,
        "executor.validate"@ != "executor.write_file"@,
        "executor.validate"@ != "executor.glob"@,
        "executor.validate"@ != "executor.grep"@,
        "executor.validate"@ != "executor.grep_with_opts"@,
        "executor.validate"@ != "executor.apply_patch"@,
        "executor.validate"@ != "executor.replace_function"@,
        "executor.validate"@ != "executor.multi_edit"@,
        "executor.validate"@ != "executor.notebook_edit"@,
        "executor.validate"@ != "executor.shell_start"@,
        "executor.validate"@ != "executor.shell_output"@,
        "executor.validate"@ != "executor.kill_shell"@,
        "executor.validate"@ != "executor.list_shells"@,
        "executor.rollback"@ != "executor.diagnostics"@,
        "executor.rollback"@ != "executor.gui_action"@,
        "executor.rollback"@ != "executor.metrics"@,
        "executor.rollback"@ != "executor.metrics_prometheus"@,
        "executor.rollback"@ != "executor.shutdown"@,
        "executor.rollback"@ != "executor.file_edit"@,
        "executor.rollback"@ != "executor.write_file"@,
        "executor.rollback"@ != "executor.glob"@,
        "executor.rollback"@ != "executor.grep"@,
        "executor.rollback"@ != "executor.grep_with_opts"@,
        "executor.rollback"@ != "executor.apply_patch"@,
        "executor.rollback"@ != "executor.replace_function"@,
        "executor.rollback"@ != "executor.multi_edit"@,
        "executor.rollback"@ != "executor.notebook_edit"@,
        "executor.rollback"@ != "executor.shell_start"@,
        "executor.rollback"@ != "executor.shell_output"@,
        "executor.rollback"@ != "executor.kill_shell"@,
        "executor.rollback"@ != "executor.list_shells"@,
        "executor.diagnostics"@ != "executor.gui_action"@,
        "executor.diagnostics"@ != "executor.metrics"@,
        "executor.diagnostics"@ != "executor.metrics_prometheus"@,
        "executor.diagnostics"@ != "executor.shutdown"@,
        "executor.diagnostics"@ != "executor.file_edit"@,
        "executor.diagnostics"@ != "executor.write_file"@,
        "executor.diagnostics"@ != "executor.glob"@,
        "executor.diagnostics"@ != "executor.grep"@,
        "executor.diagnostics"@ != "executor.grep_with_opts"@,
        "executor.diagnostics"@ != "executor.apply_patch"@,
        "executor.diagnostics"@ != "executor.replace_function"@,
        "executor.diagnostics"@ != "executor.multi_edit"@,
        "executor.diagnostics"@ != "executor.notebook_edit"@,
        "executor.diagnostics"@ != "executor.shell_start"@,
        "executor.diagnostics"@ != "executor.shell_output"@,
        "executor.diagnostics"@ != "executor.kill_shell"@,
        "executor.diagnostics"@ != "executor.list_shells"@,
        "executor.gui_action"@ != "executor.metrics"@,
        "executor.gui_action"@ != "executor.metrics_prometheus"@,
        "executor.gui_action"@ != "executor.shutdown"@,
        "executor.gui_action"@ != "executor.file_edit"@,
        "executor.gui_action"@ != "executor.write_file"@,
        "executor.gui_action"@ != "executor.glob"@,
        "executor.gui_action"@ != "executor.grep"@,
        "executor.gui_action"@ != "executor.grep_with_opts"@,
        "executor.gui_action"@ != "executor.apply_patch"@,
        "executor.gui_action"@ != "executor.replace_function"@,
        "executor.gui_action"@ != "executor.multi_edit"@,
        "executor.gui_action"@ != "executor.notebook_edit"@,
        "executor.gui_action"@ != "executor.shell_start"@,
        "executor.gui_action"@ != "executor.shell_output"@,
        "executor.gui_action"@ != "executor.kill_shell"@,
        "executor.gui_action"@ != "executor.list_shells"@,
        "executor.metrics"@ != "executor.metrics_prometheus"@,
        "executor.metrics"@ != "executor.shutdown"@,
        "executor.metrics"@ != "executor.file_edit"@,
        "executor.metrics"@ != "executor.write_file"@,
        "executor.metrics"@ != "executor.glob"@,
        "executor.metrics"@ != "executor.grep"@,
        "executor.metrics"@ != "executor.grep_with_opts"@,
        "executor.metrics"@ != "executor.apply_patch"@,
        "executor.metrics"@ != "executor.replace_function"@,
        "executor.metrics"@ != "executor.multi_edit"@,
        "executor.metrics"@ != "executor.notebook_edit"@,
        "executor.metrics"@ != "executor.shell_start"@,
        "executor.metrics"@ != "executor.shell_output"@,
        "executor.metrics"@ != "executor.kill_shell"@,
        "executor.metrics"@ != "executor.list_shells"@,
        "executor.metrics_prometheus"@ != "executor.shutdown"@,
        "executor.metrics_prometheus"@ != "executor.file_edit"@,
        "executor.metrics_prometheus"@ != "executor.write_file"@,
        "executor.metrics_prometheus"@ != "executor.glob"@,
        "executor.metrics_prometheus"@ != "executor.grep"@,
        "executor.metrics_prometheus"@ != "executor.grep_with_opts"@,
        "executor.metrics_prometheus"@ != "executor.apply_patch"@,
        "executor.metrics_prometheus"@ != "executor.replace_function"@,
        "executor.metrics_prometheus"@ != "executor.multi_edit"@,
        "executor.metrics_prometheus"@ != "executor.notebook_edit"@,
        "executor.metrics_prometheus"@ != "executor.shell_start"@,
        "executor.metrics_prometheus"@ != "executor.shell_output"@,
        "executor.metrics_prometheus"@ != "executor.kill_shell"@,
        "executor.metrics_prometheus"@ != "executor.list_shells"@,
        "executor.shutdown"@ != "executor.file_edit"@,
        "executor.shutdown"@ != "executor.write_file"@,
        "executor.shutdown"@ != "executor.glob"@,
        "executor.shutdown"@ != "executor.grep"@,
        "executor.shutdown"@ != "executor.grep_with_opts"@,
        "executor.shutdown"@ != "executor.apply_patch"@,
        "executor.shutdown"@ != "executor.replace_function"@,
        "executor.shutdown"@ != "executor.multi_edit"@,
        "executor.shutdown"@ != "executor.notebook_edit"@,
        "executor.shutdown"@ != "executor.shell_start"@,
        "executor.shutdown"@ != "executor.shell_output"@,
        "executor.shutdown"@ != "executor.kill_shell"@,
        "executor.shutdown"@ != "executor.list_shells"@,
        "executor.file_edit"@ != "executor.write_file"@,
        "executor.file_edit"@ != "executor.glob"@,
        "executor.file_edit"@ != "executor.grep"@,
        "executor.file_edit"@ != "executor.grep_with_opts"@,
        "executor.file_edit"@ != "executor.apply_patch"@,
        "executor.file_edit"@ != "executor.replace_function"@,
        "executor.file_edit"@ != "executor.multi_edit"@,
        "executor.file_edit"@ != "executor.notebook_edit"@,
        "executor.file_edit"@ != "executor.shell_start"@,
        "executor.file_edit"@ != "executor.shell_output"@,
        "executor.file_edit"@ != "executor.kill_shell"@,
        "executor.file_edit"@ != "executor.list_shells"@,
        "executor.write_file"@ != "executor.glob"@,
        "executor.write_file"@ != "executor.grep"@,
        "executor.write_file"@ != "executor.grep_with_opts"@,
        "executor.write_file"@ != "executor.apply_patch"@,
        "executor.write_file"@ != "executor.replace_function"@,
        "executor.write_file"@ != "executor.multi_edit"@,
        "executor.write_file"@ != "executor.notebook_edit"@,
        "executor.write_file"@ != "executor.shell_start"@,
        "executor.write_file"@ != "executor.shell_output"@,
        "executor.write_file"@ != "executor.kill_shell"@,
        "executor.write_file"@ != "executor.list_shells"@,
        "executor.glob"@ != "executor.grep"@,
        "executor.glob"@ != "executor.grep_with_opts"@,
        "executor.glob"@ != "executor.apply_patch"@,
        "executor.glob"@ != "executor.replace_function"@,
        "executor.glob"@ != "executor.multi_edit"@,
        "executor.glob"@ != "executor.notebook_edit"@,
        "executor.glob"@ != "executor.shell_start"@,
        "executor.glob"@ != "executor.shell_output"@,
        "executor.glob"@ != "executor.kill_shell"@,
        "executor.glob"@ != "executor.list_shells"@,
        "executor.grep"@ != "executor.grep_with_opts"@,
        "executor.grep"@ != "executor.apply_patch"@,
        "executor.grep"@ != "executor.replace_function"@,
        "executor.grep"@ != "executor.multi_edit"@,
        "executor.grep"@ != "executor.notebook_edit"@,
        "executor.grep"@ != "executor.shell_start"@,
        "executor.grep"@ != "executor.shell_output"@,
        "executor.grep"@ != "executor.kill_shell"@,
        "executor.grep"@ != "executor.list_shells"@,
        "executor.grep_with_opts"@ != "executor.apply_patch"@,
        "executor.grep_with_opts"@ != "executor.replace_function"@,
        "executor.grep_with_opts"@ != "executor.multi_edit"@,
        "executor.grep_with_opts"@ != "executor.notebook_edit"@,
        "executor.grep_with_opts"@ != "executor.shell_start"@,
        "executor.grep_with_opts"@ != "executor.shell_output"@,
        "executor.grep_with_opts"@ != "executor.kill_shell"@,
        "executor.grep_with_opts"@ != "executor.list_shells"@,
        "executor.apply_patch"@ != "executor.replace_function"@,
        "executor.apply_patch"@ != "executor.multi_edit"@,
        "executor.apply_patch"@ != "executor.notebook_edit"@,
        "executor.apply_patch"@ != "executor.shell_start"@,
        "executor.apply_patch"@ != "executor.shell_output"@,
        "executor.apply_patch"@ != "executor.kill_shell"@,
        "executor.apply_patch"@ != "executor.list_shells"@,
        "executor.replace_function"@ != "executor.multi_edit"@,
        "executor.replace_function"@ != "executor.notebook_edit"@,
        "executor.replace_function"@ != "executor.shell_start"@,
        "executor.replace_function"@ != "executor.shell_output"@,
        "executor.replace_function"@ != "executor.kill_shell"@,
        "executor.replace_function"@ != "executor.list_shells"@,
        "executor.multi_edit"@ != "executor.notebook_edit"@,
        "executor.multi_edit"@ != "executor.shell_start"@,
        "executor.multi_edit"@ != "executor.shell_output"@,
        "executor.multi_edit"@ != "executor.kill_shell"@,
        "executor.multi_edit"@ != "executor.list_shells"@,
        "executor.notebook_edit"@ != "executor.shell_start"@,
        "executor.notebook_edit"@ != "executor.shell_output"@,
        "executor.notebook_edit"@ != "executor.kill_shell"@,
        "executor.notebook_edit"@ != "executor.list_shells"@,
        "executor.shell_start"@ != "executor.shell_output"@,
        "executor.shell_start"@ != "executor.kill_shell"@,
        "executor.shell_start"@ != "executor.list_shells"@,
        "executor.shell_output"@ != "executor.kill_shell"@,
        "executor.shell_output"@ != "executor.list_shells"@,
        "executor.kill_shell"@ != "executor.list_shells"@,
{
    reveal_strlit("executor.health");
    reveal_strlit("executor.execute");
    reveal_strlit("executor.snapshot_create");
    reveal_strlit("executor.list_snapshots");
    reveal_strlit("executor.validate");
    reveal_strlit("executor.rollback");
    reveal_strlit("executor.diagnostics");
    reveal_strlit("executor.gui_action");
    reveal_strlit("executor.metrics");
    reveal_strlit("executor.metrics_prometheus");
    reveal_strlit("executor.shutdown");
    reveal_strlit("executor.file_edit");
    reveal_strlit("executor.write_file");
    reveal_strlit("executor.glob");
    reveal_strlit("executor.grep");
    reveal_strlit("executor.grep_with_opts");
    reveal_strlit("executor.apply_patch");
    reveal_strlit("executor.replace_function");
    reveal_strlit("executor.multi_edit");
    reveal_strlit("executor.notebook_edit");
    reveal_strlit("executor.shell_start");
    reveal_strlit("executor.shell_output");
    reveal_strlit("executor.kill_shell");
    reveal_strlit("executor.list_shells");
    assert("executor.health"@.len() == 15);
    assert("executor.execute"@.len() == 16);
    assert("executor.snapshot_create"@.len() == 24);
    assert("executor.list_snapshots"@.len() == 23);
    assert("executor.validate"@.len() == 17);
    assert("executor.rollback"@.len() == 17);
    assert("executor.diagnostics"@.len() == 20);
    assert("executor.gui_action"@.len() == 19);
    assert("executor.metrics"@.len() == 16);
    assert("executor.metrics_prometheus"@.len() == 27);
    assert("executor.shutdown"@.len() == 17);
    assert("executor.file_edit"@.len() == 18);
    assert("executor.write_file"@.len() == 19);
    assert("executor.glob"@.len() == 13);
    assert("executor.grep"@.len() == 13);
    assert("executor.grep_with_opts"@.len() == 23);
    assert("executor.apply_patch"@.len() == 20);
    assert("executor.replace_function"@.len() == 25);
    assert("executor.multi_edit"@.len() == 19);
    assert("executor.notebook_edit"@.len() == 22);
    assert("executor.shell_start"@.len() == 20);
    assert("executor.shell_output"@.len() == 21);
    assert("executor.kill_shell"@.len() == 19);
    assert("executor.list_shells"@.len() == 20);
    assert("executor.execute"@[9] != "executor.metrics"@[9]);
    assert("executor.list_snapshots"@[9] != "executor.grep_with_opts"@[9]);
    assert("executor.validate"@[9] != "executor.rollback"@[9]);
    assert("executor.validate"@[9] != "executor.shutdown"@[9]);
    assert("executor.rollback"@[9] != "executor.shutdown"@[9]);
    assert("executor.diagnostics"@[9] != "executor.apply_patch"@[9]);
    assert("executor.diagnostics"@[9] != "executor.shell_start"@[9]);
    assert("executor.diagnostics"@[9] != "executor.list_shells"@[9]);
    assert("executor.gui_action"@[9] != "executor.write_file"@[9]);
    assert("executor.gui_action"@[9] != "executor.multi_edit"@[9]);
    assert("executor.gui_action"@[9] != "executor.kill_shell"@[9]);
    assert("executor.write_file"@[9] != "executor.multi_edit"@[9]);
    assert("executor.write_file"@[9] != "executor.kill_shell"@[9]);
    assert("executor.glob"@[10] != "executor.grep"@[10]);
    assert("executor.apply_patch"@[9] != "executor.shell_start"@[9]);
    assert("executor.apply_patch"@[9] != "executor.list_shells"@[9]);
    assert("executor.multi_edit"@[9] != "executor.kill_shell"@[9]);
    assert("executor.shell_start"@[9] != "executor.list_shells"@[9]);
}

/// Whether a request was refused because it lacks something.
pub open spec fn is_refused_for(r: Result<CallV, (i64, Seq<char>)>, what: Seq<char>) -> bool {
    r matches Err(e) && e.0 == -32600 && e.1 == "缺少 "@ + what
}

/// Each method becomes the call of its name. A request is accepted where its parameters hold all that
/// the method needs, and is refused for the first of these things that they lack.
#[verifier::spinoff_prover]
#[verifier::rlimit(60)]
pub proof fn law_methods_become_their_calls(method: Seq<char>, p: JsonV)
    ensures
        method == "executor.health"@ ==> {
            &&& planned(method, p) matches Ok(c) && c is Health
        },
        method == "executor.execute"@ ==> {
            &&& planned(method, p) matches Ok(c) && c is Execute
        },
        method == "executor.snapshot_create"@ ==> {
            &&& !has_text(p, "cwd"@) ==> is_refused_for(planned(method, p), "cwd"@)
            &&& has_text(p, "cwd"@) ==> (planned(method, p) matches Ok(c) && c is SnapshotCreate)
        },
        method == "executor.list_snapshots"@ ==> {
            &&& !has_text(p, "cwd"@) ==> is_refused_for(planned(method, p), "cwd"@)
            &&& has_text(p, "cwd"@) ==> (planned(method, p) matches Ok(c) && c is ListSnapshots)
        },
        method == "executor.validate"@ ==> {
            &&& !has_text(p, "command"@) ==> is_refused_for(planned(method, p), "command"@)
            &&& has_text(p, "command"@) ==> (planned(method, p) matches Ok(c) && c is Validate)
        },
        method == "executor.rollback"@ ==> {
            &&& !has_text(p, "snapshot_id"@) ==> is_refused_for(planned(method, p), "snapshot_id"@)
            &&& has_text(p, "snapshot_id"@) && !has_text(p, "cwd"@) ==> is_refused_for(planned(method, p), "cwd"@)
            &&& has_text(p, "snapshot_id"@) && has_text(p, "cwd"@) ==> (planned(method, p) matches Ok(c) && c is Rollback)
        },
        method == "executor.diagnostics"@ ==> {
            &&& planned(method, p) matches Ok(c) && c is Diagnostics
        },
        method == "executor.gui_action"@ ==> {
            &&& !has_name(p, "action"@) ==> is_refused_for(planned(method, p), "action"@)
            &&& has_name(p, "action"@) ==> (planned(method, p) matches Ok(c) && c is GuiAction)
        },
        method == "executor.metrics"@ ==> {
            &&& planned(method, p) matches Ok(c) && c is Metrics
        },
        method == "executor.metrics_prometheus"@ ==> {
            &&& planned(method, p) matches Ok(c) && c is MetricsPrometheus
        },
        method == "executor.shutdown"@ ==> {
            &&& planned(method, p) matches Ok(c) && c is Shutdown
        },
        method == "executor.file_edit"@ ==> {
            &&& !has_text(p, "path"@) ==> is_refused_for(planned(method, p), "path"@)
            &&& has_text(p, "path"@) && !has_text(p, "old_string"@) ==> is_refused_for(planned(method, p), "old_string"@)
            &&& has_text(p, "path"@) && has_text(p, "old_string"@) && !has_text(p, "new_string"@) ==> is_refused_for(planned(method, p), "new_string"@)
            &&& has_text(p, "path"@) && has_text(p, "old_string"@) && has_text(p, "new_string"@) ==> (planned(method, p) matches Ok(c) && c is FileEdit)
        },
        method == "executor.write_file"@ ==> {
            &&& !has_text(p, "path"@) ==> is_refused_for(planned(method, p), "path"@)
            &&& has_text(p, "path"@) && !has_text(p, "content"@) ==> is_refused_for(planned(method, p), "content"@)
            &&& has_text(p, "path"@) && has_text(p, "content"@) ==> (planned(method, p) matches Ok(c) && c is WriteFile)
        },
        method == "executor.glob"@ ==> {
            &&& !has_text(p, "pattern"@) ==> is_refused_for(planned(method, p), "pattern"@)
            &&& has_text(p, "pattern"@) ==> (planned(method, p) matches Ok(c) && c is Glob)
        },
        method == "executor.grep"@ ==> {
            &&& !has_text(p, "pattern"@) ==> is_refused_for(planned(method, p), "pattern"@)
            &&& has_text(p, "pattern"@) && !has_array(p, "paths"@) ==> is_refused_for(planned(method, p), "paths 数组"@)
            &&& has_text(p, "pattern"@) && has_array(p, "paths"@) ==> (planned(method, p) matches Ok(c) && c is Grep)
        },
        method == "executor.grep_with_opts"@ ==> {
            &&& !has_text(p, "pattern"@) ==> is_refused_for(planned(method, p), "pattern"@)
            &&& has_text(p, "pattern"@) && !has_array(p, "paths"@) ==> is_refused_for(planned(method, p), "paths 数组"@)
            &&& has_text(p, "pattern"@) && has_array(p, "paths"@) ==> (planned(method, p) matches Ok(c) && c is GrepWithOpts)
        },
        method == "executor.apply_patch"@ ==> {
            &&& !has_text(p, "diff"@) ==> is_refused_for(planned(method, p), "diff"@)
            &&& has_text(p, "diff"@) ==> (planned(method, p) matches Ok(c) && c is ApplyPatch)
        },
        method == "executor.replace_function"@ ==> {
            &&& !has_text(p, "path"@) ==> is_refused_for(planned(method, p), "path"@)
            &&& has_text(p, "path"@) && !has_text(p, "fn_name"@) ==> is_refused_for(planned(method, p), "fn_name"@)
            &&& has_text(p, "path"@) && has_text(p, "fn_name"@) && !has_text(p, "new_body"@) ==> is_refused_for(planned(method, p), "new_body"@)
            &&& has_text(p, "path"@) && has_text(p, "fn_name"@) && has_text(p, "new_body"@) ==> (planned(method, p) matches Ok(c) && c is ReplaceFunction)
        },
        method == "executor.multi_edit"@ ==> {
            &&& !has_text(p, "path"@) ==> is_refused_for(planned(method, p), "path"@)
            &&& has_text(p, "path"@) && !has_name(p, "edits"@) ==> is_refused_for(planned(method, p), "edits 数组"@)
            &&& has_text(p, "path"@) && has_name(p, "edits"@) ==> (planned(method, p) matches Ok(c) && c is MultiEdit)
        },
        method == "executor.notebook_edit"@ ==> {
            &&& !has_text(p, "path"@) ==> is_refused_for(planned(method, p), "path"@)
            &&& has_text(p, "path"@) && !has_text(p, "new_source"@) ==> is_refused_for(planned(method, p), "new_source"@)
            &&& has_text(p, "path"@) && has_text(p, "new_source"@) ==> (planned(method, p) matches Ok(c) && c is NotebookEdit)
        },
        method == "executor.shell_start"@ ==> {
            &&& !has_text(p, "command"@) ==> is_refused_for(planned(method, p), "command"@)
            &&& has_text(p, "command"@) ==> (planned(method, p) matches Ok(c) && c is ShellStart)
        },
        method == "executor.shell_output"@ ==> {
            &&& !has_text(p, "shell_id"@) ==> is_refused_for(planned(method, p), "shell_id"@)
            &&& has_text(p, "shell_id"@) ==> (planned(method, p) matches Ok(c) && c is ShellOutput)
        },
        method == "executor.kill_shell"@ ==> {
            &&& !has_text(p, "shell_id"@) ==> is_refused_for(planned(method, p), "shell_id"@)
            &&& has_text(p, "shell_id"@) ==> (planned(method, p) matches Ok(c) && c is KillShell)
        },
        method == "executor.list_shells"@ ==> {
            &&& planned(method, p) matches Ok(c) && c is ListShells
        },
        !(method == "executor.health"@ || method == "executor.execute"@ || method == "executor.snapshot_create"@ || method == "executor.list_snapshots"@ || method == "executor.validate"@ || method == "executor.rollback"@ || method == "executor.diagnostics"@ || method == "executor.gui_action"@ || method == "executor.metrics"@ || method == "executor.metrics_prometheus"@ || method == "executor.shutdown"@ || method == "executor.file_edit"@ || method == "executor.write_file"@ || method == "executor.glob"@ || method == "executor.grep"@ || method == "executor.grep_with_opts"@ || method == "executor.apply_patch"@ || method == "executor.replace_function"@ || method == "executor.multi_edit"@ || method == "executor.notebook_edit"@ || method == "executor.shell_start"@ || method == "executor.shell_output"@ || method == "executor.kill_shell"@ || method == "executor.list_shells"@) ==> (planned(method, p) matches Err(e) && e.0 == -32601 && e.1 == "Method not found: "@ + method),
{
    lemma_method_names_differ();
}

/// A call is called by the name of its method.
#[verifier::spinoff_prover]
pub proof fn law_calls_are_called_by_their_methods(method: Seq<char>, p: JsonV)
    ensures
        planned(method, p) matches Ok(c) ==> method == "executor."@ + word_of(c),
{
    reveal_strlit("executor.");
    reveal_strlit("health");
    reveal_strlit("executor.health");
    assert("executor."@ + "health"@ =~= "executor.health"@);
    reveal_strlit("execute");
    reveal_strlit("executor.execute");
    assert("executor."@ + "execute"@ =~= "executor.execute"@);
    reveal_strlit("snapshot_create");
    reveal_strlit("executor.snapshot_create");
    assert("executor."@ + "snapshot_create"@ =~= "executor.snapshot_create"@);
    reveal_strlit("list_snapshots");
    reveal_strlit("executor.list_snapshots");
    assert("executor."@ + "list_snapshots"@ =~= "executor.list_snapshots"@);
    reveal_strlit("validate");
    reveal_strlit("executor.validate");
    assert("executor."@ + "validate"@ =~= "executor.validate"@);
    reveal_strlit("rollback");
    reveal_strlit("executor.rollback");
    assert("executor."@ + "rollback"@ =~= "executor.rollback"@);
    reveal_strlit("diagnostics");
    reveal_strlit("executor.diagnostics");
    assert("executor."@ + "diagnostics"@ =~= "executor.diagnostics"@);
    reveal_strlit("gui_action");
    reveal_strlit("executor.gui_action");
    assert("executor."@ + "gui_action"@ =~= "executor.gui_action"@);
    reveal_strlit("metrics");
    reveal_strlit("executor.metrics");
    assert("executor."@ + "metrics"@ =~= "executor.metrics"@);
    reveal_strlit("metrics_prometheus");
    reveal_strlit("executor.metrics_prometheus");
    assert("executor."@ + "metrics_prometheus"@ =~= "executor.metrics_prometheus"@);
    reveal_strlit("shutdown");
    reveal_strlit("executor.shutdown");
    assert("executor."@ + "shutdown"@ =~= "executor.shutdown"@);
    reveal_strlit("file_edit");
    reveal_strlit("executor.file_edit");
    assert("executor."@ + "file_edit"@ =~= "executor.file_edit"@);
    reveal_strlit("write_file");
    reveal_strlit("executor.write_file");
    assert("executor."@ + "write_file"@ =~= "executor.write_file"@);
    reveal_strlit("glob");
    reveal_strlit("executor.glob");
    assert("executor."@ + "glob"@ =~= "executor.glob"@);
    reveal_strlit("grep");
    reveal_strlit("executor.grep");
    assert("executor."@ + "grep"@ =~= "executor.grep"@);
    reveal_strlit("grep_with_opts");
    reveal_strlit("executor.grep_with_opts");
    assert("executor."@ + "grep_with_opts"@ =~= "executor.grep_with_opts"@);
    reveal_strlit("apply_patch");
    reveal_strlit("executor.apply_patch");
    assert("executor."@ + "apply_patch"@ =~= "executor.apply_patch"@);
    reveal_strlit("replace_function");
    reveal_strlit("executor.replace_function");
    assert("executor."@ + "replace_function"@ =~= "executor.replace_function"@);
    reveal_strlit("multi_edit");
    reveal_strlit("executor.multi_edit");
    assert("executor."@ + "multi_edit"@ =~= "executor.multi_edit"@);
    reveal_strlit("notebook_edit");
    reveal_strlit("executor.notebook_edit");
    assert("executor."@ + "notebook_edit"@ =~= "executor.notebook_edit"@);
    reveal_strlit("shell_start");
    reveal_strlit("executor.shell_start");
    assert("executor."@ + "shell_start"@ =~= "executor.shell_start"@);
    reveal_strlit("shell_output");
    reveal_strlit("executor.shell_output");
    assert("executor."@ + "shell_output"@ =~= "executor.shell_output"@);
    reveal_strlit("kill_shell");
    reveal_strlit("executor.kill_shell");
    assert("executor."@ + "kill_shell"@ =~= "executor.kill_shell"@);
    reveal_strlit("list_shells");
    reveal_strlit("executor.list_shells");
    assert("executor."@ + "list_shells"@ =~= "executor.list_shells"@);
}

/// A frame of a streamed command answers the request that it was asked by, and tells a part of the
/// output, a result or a sample as what it is. What is pushed to others tells the same of the task.
#[verifier::spinoff_prover]
pub proof fn law_stream_frames_tell_what_they_carry(id: JsonV, task_id: Option<Seq<char>>, data: Seq<char>, result: JsonV)
    ensures
        has_value(chunk_frame(id, data), "id"@, id),
        has_value(done_frame(id, result), "id"@, id),
        has_value(sample_frame(id, result), "id"@, id),
        chunk_frame(id, data) matches JsonV::Obj(m) && m.contains_key("result"@) && has_value(m["result"@], "type"@, JsonV::Str("chunk"@)) && has_value(m["result"@], "data"@, JsonV::Str(data)),
        done_frame(id, result) matches JsonV::Obj(m) && m.contains_key("result"@) && has_value(m["result"@], "type"@, JsonV::Str("done"@)) && has_value(m["result"@], "result"@, result),
        sample_frame(id, result) matches JsonV::Obj(m) && m.contains_key("result"@) && has_value(m["result"@], "type"@, JsonV::Str("sample"@)) && has_value(m["result"@], "sample"@, result),
        has_value(chunk_event(task_id, data), "event"@, JsonV::Str("chunk"@)),
        has_value(chunk_event(task_id, data), "data"@, JsonV::Str(data)),
        has_value(done_event(task_id, result), "event"@, JsonV::Str("done"@)),
        has_value(done_event(task_id, result), "result"@, result),
        task_id matches Some(t) ==> has_value(chunk_event(task_id, data), "task_id"@, JsonV::Str(t)) && has_value(done_event(task_id, result), "task_id"@, JsonV::Str(t)),
        task_id is None ==> has_value(chunk_event(task_id, data), "task_id"@, JsonV::Null) && has_value(done_event(task_id, result), "task_id"@, JsonV::Null),
{
    reveal_strlit("id");
    reveal_strlit("jsonrpc");
    reveal_strlit("result");
    reveal_strlit("type");
    reveal_strlit("data");
    reveal_strlit("sample");
    reveal_strlit("event");
    reveal_strlit("task_id");
    assert("id"@.len() == 2);
    assert("jsonrpc"@.len() == 7);
    assert("result"@.len() == 6);
    assert("type"@.len() == 4);
    assert("data"@.len() == 4);
    assert("sample"@.len() == 6);
    assert("event"@.len() == 5);
    assert("task_id"@.len() == 7);
    assert("result"@[0] != "sample"@[0]);
    assert("type"@[0] != "data"@[0]);
    assert("jsonrpc"@[0] != "task_id"@[0]);
}

/// Samples are taken as the parameters say: ten in a second without end, and of this process, where
/// they say nothing.
pub proof fn law_samples_are_taken_as_asked(p: JsonV)
    ensures
        carries_number(p, "interval_ms"@, telemetry_in(p).interval_ms as int, u64::MAX as int, 100),
        carries_number(p, "max_samples"@, telemetry_in(p).max_samples as int, u64::MAX as int, 0),
        telemetry_in(p).pid is None <==> forall|n: u64| !(#[trigger] has_value(p, "pid"@, JsonV::UInt(n))),
        forall|n: u64| #[trigger] has_value(p, "pid"@, JsonV::UInt(n)) && n <= u32::MAX ==> telemetry_in(p).pid == Some(n as u32),
{
    lemma_number_is_held(p, "pid"@);
    lemma_number_is_held(p, "interval_ms"@);
    lemma_number_is_held(p, "max_samples"@);
}

/// A rollback that was done is answered with yes, and one that was not is an error of its own kind.
pub proof fn law_rollback_is_answered(figures: Option<Seq<char>>)
    ensures
        rollback_said(true) matches Ok(j) && has_value(j, "ok"@, JsonV::Bool(true)),
        rollback_said(false) matches Err(e) && e.0 == -32012,
        figures matches Some(t) ==> (prometheus_said(figures) matches Ok(j) && has_value(j, "text"@, JsonV::Str(t))),
        figures is None ==> (prometheus_said(figures) matches Err(e) && e.0 == -32603),
{
}

/// The snapshots of a listing are told one by one, in their order.
pub proof fn law_snapshots_are_told_in_order(v: Seq<SnapshotV>)
    ensures
        snapshots_json(v).len() == v.len(),
        forall|i: int| 0 <= i < v.len() ==> #[trigger] snapshots_json(v)[i] == entry_json(v[i]),
    decreases v.len(),
{
    if v.len() > 0 {
        law_snapshots_are_told_in_order(v.drop_last());
    }
}

/// A verdict names the stage that gave it, and none where no stage did.
pub proof fn law_stages_have_their_words(s: Option<SecurityStage>)
    ensures
        s is None <==> stage_word(s) is Null,
        s == Some(SecurityStage::Regex) ==> stage_word(s) == JsonV::Str("regex"@),
        s == Some(SecurityStage::Tokenizer) ==> stage_word(s) == JsonV::Str("tokenizer"@),
{
}

/// A call that cannot be read is told by the parameter that it could not be read for.
pub proof fn law_unreadable_parameter_is_named(c: CallV)
    ensures
        c is GuiAction ==> unreadable(c) == "action 反序列化失败: "@,
        c is GrepWithOpts ==> unreadable(c) == "opts 解析失败: "@,
        c is MultiEdit ==> unreadable(c) == "edits 解析失败: "@,
        c is NotebookEdit ==> unreadable(c) == "edit_mode 解析失败: "@,
        c is ShellStart ==> unreadable(c) == "env_vars 解析失败: "@,
{
}

} // verus!
