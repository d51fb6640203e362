//! Bindings: what callers from another language hand in and get back.

use vstd::prelude::*;
use crate::execution::{pairs_said, ExecutionRequest, RequestV, RollbackPolicy, DEFAULT_TIMEOUT_BITS};
use crate::json::{as_items, as_text, as_truth, json_read, member, parse, texts_in, JsonV, Reading};
use crate::text::{behind, opt_text, texts};

verus! {

/// How many seconds the next frame of a stream is waited for.
pub const STREAM_RECV_TIMEOUT_SECS: u64 = 130;

/// How many seconds the end of a task is waited for.
pub const JOIN_TIMEOUT_SECS: u64 = 5;

/// How many seconds the next sample is waited for.
pub const TELEMETRY_IDLE_TIMEOUT_SECS: u64 = 30;

/// What a caller says of a command beside the command.
pub struct RequestOptions {
    pub task_id: Option<String>,
    pub cwd: Option<String>,
    pub timeout_bits: Option<u64>,
    pub env_vars: Option<Vec<(String, String)>>,
    pub enable_rollback_snapshot: Option<bool>,
    pub auto_rollback_policy: Option<RollbackPolicy>,
    pub seatbelt: Option<bool>,
    pub inherit_env: Option<bool>,
    pub use_pty: Option<bool>,
    pub max_nproc: Option<u32>,
    pub max_cpu_sec: Option<u32>,
    pub trace_id: Option<String>,
}

/// A truth value, or another where there is none.
pub open spec fn or_truth(b: Option<bool>, otherwise: bool) -> bool {
    match b {
        Some(b) => b,
        None => otherwise,
    }
}

/// A number, or another where there is none.
pub open spec fn or_nat(n: Option<u32>, otherwise: u32) -> u32 {
    match n {
        Some(n) => n,
        None => otherwise,
    }
}

/// The request for a command with what a caller says of it. It is sandboxed only where the caller
/// says so.
pub open spec fn request_said(command: Seq<char>, o: RequestOptions) -> RequestV {
    RequestV {
        command,
        task_id: opt_text(o.task_id),
        cwd: opt_text(o.cwd),
        timeout_bits: match o.timeout_bits {
            Some(t) => t,
            None => DEFAULT_TIMEOUT_BITS,
        },
        env_vars: match o.env_vars {
            Some(v) => pairs_said(v@),
            None => Seq::empty(),
        },
        enable_rollback_snapshot: or_truth(o.enable_rollback_snapshot, true),
        auto_rollback_policy: o.auto_rollback_policy,
        seatbelt: or_truth(o.seatbelt, false),
        inherit_env: or_truth(o.inherit_env, false),
        use_pty: or_truth(o.use_pty, true),
        max_nproc: or_nat(o.max_nproc, 1024),
        max_cpu_sec: or_nat(o.max_cpu_sec, 0),
        max_nofile: 1024,
        trace_id: opt_text(o.trace_id),
    }
}

/// A truth value, or another where there is none.
fn bool_or(b: Option<bool>, otherwise: bool) -> (r: bool)
    ensures
        r == or_truth(b, otherwise),
{
    match b {
        Some(b) => b,
        None => otherwise,
    }
}

/// A number, or another where there is none.
fn u32_or(n: Option<u32>, otherwise: u32) -> (r: u32)
    ensures
        r == or_nat(n, otherwise),
{
    match n {
        Some(n) => n,
        None => otherwise,
    }
}

/// The request for a command with what a caller says of it.
pub fn request_with(command: String, o: RequestOptions) -> (r: ExecutionRequest)
    ensures
        r@ == request_said(command@, o),
{
    ExecutionRequest {
        command,
        task_id: o.task_id,
        cwd: o.cwd,
        timeout_bits: match o.timeout_bits {
            Some(t) => t,
            None => DEFAULT_TIMEOUT_BITS,
        },
        env_vars: o.env_vars,
        enable_rollback_snapshot: bool_or(o.enable_rollback_snapshot, true),
        auto_rollback_policy: o.auto_rollback_policy,
        seatbelt: bool_or(o.seatbelt, false),
        inherit_env: bool_or(o.inherit_env, false),
        use_pty: bool_or(o.use_pty, true),
        max_nproc: u32_or(o.max_nproc, 1024),
        max_cpu_sec: u32_or(o.max_cpu_sec, 0),
        max_nofile: 1024,
        trace_id: o.trace_id,
    }
}

/// What came of waiting for the next frame of a stream.
#[derive(Debug, Clone, Copy, PartialEq, Eq, Structural)]
pub enum Received {
    /// A frame, which is the last where it holds the result.
    Frame { last: bool },
    /// The other side has closed the stream.
    Closed,
    /// Nothing came in time.
    TimedOut,
}

/// What the caller of a stream gets.
#[derive(Debug, Clone, Copy, PartialEq, Eq, Structural)]
pub enum Given {
    /// The frame.
    Frame,
    /// The end, since there was one already.
    Exhausted,
    /// The end, behind the result.
    Done,
    /// An error: the stream ended without a result.
    NoResult,
    /// An error: nothing came in time.
    TimedOut,
}

/// How far a stream is read: whether more may come, and whether the result has.
#[derive(Debug, Clone, Copy, PartialEq, Eq, Structural)]
pub struct StreamCursor {
    pub open: bool,
    pub saw_done: bool,
}

/// What the caller of a stream gets.
pub open spec fn given_said(c: StreamCursor, r: Received) -> Given {
    if !c.open {
        Given::Exhausted
    } else {
        match r {
            Received::Frame { last } => Given::Frame,
            Received::Closed => if c.saw_done {
                Given::Done
            } else {
                Given::NoResult
            },
            Received::TimedOut => Given::TimedOut,
        }
    }
}

/// How far a stream is read then: it is over behind the result, and wherever no frame came.
pub open spec fn cursor_next(c: StreamCursor, r: Received) -> StreamCursor {
    if !c.open {
        c
    } else {
        match r {
            Received::Frame { last } => StreamCursor { open: !last, saw_done: c.saw_done || last },
            _ => StreamCursor { open: false, saw_done: c.saw_done },
        }
    }
}

impl StreamCursor {
    /// A stream of which nothing is read.
    pub fn new() -> (r: Self)
        ensures
            r == (StreamCursor { open: true, saw_done: false }),
    {
        StreamCursor { open: true, saw_done: false }
    }

    /// What the caller gets of what came.
    pub fn next(&mut self, got: Received) -> (r: Given)
        ensures
            r == given_said(*old(self), got),
            *final(self) == cursor_next(*old(self), got),
    {
        if !self.open {
            return Given::Exhausted;
        }
        match got {
            Received::Frame { last } => {
                if last {
                    self.saw_done = true;
                    self.open = false;
                }
                Given::Frame
            },
            Received::Closed => {
                self.open = false;
                if self.saw_done {
                    Given::Done
                } else {
                    Given::NoResult
                }
            },
            Received::TimedOut => {
                self.open = false;
                Given::TimedOut
            },
        }
    }
}

/// A stream that ends without its result is never taken for one that ended well.
pub proof fn law_lost_result_is_an_error(c: StreamCursor, r: Received)
    requires
        c.open,
        !c.saw_done,
        !(r is Frame),
    ensures
        given_said(c, r) is NoResult || given_said(c, r) is TimedOut,
{
}

/// Behind the result, and behind an error, a stream gives nothing more.
pub proof fn law_ended_stream_stays_ended(c: StreamCursor, r: Received, s: Received)
    requires
        r == (Received::Frame { last: true }) || !(r is Frame),
    ensures
        given_said(cursor_next(c, r), s) is Exhausted,
        cursor_next(cursor_next(c, r), s) == cursor_next(c, r),
{
}

/// What the caller of samples gets: their end is no error.
pub fn next_sample(open: bool, got: Received) -> (r: Given)
    ensures
        r == (if !open {
            Given::Exhausted
        } else {
            match got {
                Received::Frame { last } => Given::Frame,
                Received::Closed => Given::Done,
                Received::TimedOut => Given::TimedOut,
            }
        }),
{
    if !open {
        return Given::Exhausted;
    }
    match got {
        Received::Frame { .. } => Given::Frame,
        Received::Closed => Given::Done,
        Received::TimedOut => Given::TimedOut,
    }
}

/// What is read from a text of JSON, or why it is none.
pub open spec fn read_or_why(raw: Seq<char>) -> Result<JsonV, Seq<char>> {
    match json_read(raw) {
        Reading::Value(j) => Ok(j),
        Reading::Fault(e) => Err("序列化错误: "@ + e),
    }
}

/// The mark under a name in a text of JSON, off where there is none; or why the text is no JSON.
pub fn read_flag(raw: &str, key: &str) -> (r: Result<bool, String>)
    ensures
        match read_or_why(raw@) {
            Ok(j) => r matches Ok(b) && b == (as_truth(member(j, key@)) == Some(true)),
            Err(e) => r matches Err(why) && why@ == e,
        },
{
    match parse(raw) {
        Ok(j) => match j.get_bool(key) {
            Some(b) => Ok(b),
            None => Ok(false),
        },
        Err(e) => Err(behind("序列化错误: ", e.as_str())),
    }
}

/// The text under a name in a text of JSON, where there is one; or why the text is no JSON.
pub fn read_text(raw: &str, key: &str) -> (r: Result<Option<String>, String>)
    ensures
        match read_or_why(raw@) {
            Ok(j) => r matches Ok(t) && opt_text(t) == as_text(member(j, key@)),
            Err(e) => r matches Err(why) && why@ == e,
        },
{
    match parse(raw) {
        Ok(j) => Ok(j.get_str(key)),
        Err(e) => Err(behind("序列化错误: ", e.as_str())),
    }
}

/// How the matches of a search are shown, as a text of JSON says: line by line where it does not say.
pub fn output_mode(raw: &str) -> (r: Result<String, String>)
    ensures
        match read_or_why(raw@) {
            Ok(j) => r matches Ok(m) && m@ == (match as_text(member(j, "output_mode"@)) {
                Some(s) => s,
                None => "content"@,
            }),
            Err(e) => r matches Err(why) && why@ == e,
        },
{
    match read_text(raw, "output_mode") {
        Ok(Some(m)) => Ok(m),
        Ok(None) => Ok("content".to_owned()),
        Err(e) => Err(e),
    }
}

/// The texts under a name in a text of JSON, none where there are none; or why the text is no JSON.
pub fn read_texts(raw: &str, key: &str) -> (r: Result<Vec<String>, String>)
    ensures
        match read_or_why(raw@) {
            Ok(j) => r matches Ok(v) && texts(v@) == (match as_items(member(j, key@)) {
                Some(items) => texts_in(items),
                None => Seq::empty(),
            }),
            Err(e) => r matches Err(why) && why@ == e,
        },
{
    match parse(raw) {
        Ok(j) => match j.get_texts(key) {
            Some(v) => Ok(v),
            None => {
                let none: Vec<String> = Vec::new();
                proof {
                    assert(texts(none@) =~= Seq::empty());
                }
                Ok(none)
            },
        },
        Err(e) => Err(behind("序列化错误: ", e.as_str())),
    }
}

/// Whatever a caller says of a command is asked for as it was said, and what is left out has its
/// own usual value.
pub proof fn law_request_is_what_was_asked_for(command: Seq<char>, o: RequestOptions)
    ensures
        ({
            let r = request_said(command, o);
            &&& r.command == command
            &&& o.task_id matches Some(s) ==> r.task_id == Some(s@)
            &&& o.task_id is None ==> r.task_id is None
            &&& o.cwd matches Some(s) ==> r.cwd == Some(s@)
            &&& o.cwd is None ==> r.cwd is None
            &&& o.timeout_bits matches Some(t) ==> r.timeout_bits == t
            &&& o.timeout_bits is None ==> r.timeout_bits == DEFAULT_TIMEOUT_BITS
            &&& o.env_vars matches Some(v) ==> {
                &&& r.env_vars.len() == v@.len()
                &&& forall|i: int| 0 <= i < v@.len() ==> #[trigger] r.env_vars[i] == (v@[i].0@, v@[i].1@)
            }
            &&& o.env_vars is None ==> r.env_vars.len() == 0
            &&& o.enable_rollback_snapshot matches Some(b) ==> r.enable_rollback_snapshot == b
            &&& o.enable_rollback_snapshot is None ==> r.enable_rollback_snapshot
            &&& r.auto_rollback_policy == o.auto_rollback_policy
            &&& r.seatbelt == (o.seatbelt == Some(true))
            &&& r.inherit_env == (o.inherit_env == Some(true))
            &&& r.use_pty == !(o.use_pty == Some(false))
            &&& o.max_nproc matches Some(n) ==> r.max_nproc == n
            &&& o.max_nproc is None ==> r.max_nproc == 1024
            &&& o.max_cpu_sec matches Some(n) ==> r.max_cpu_sec == n
            &&& o.max_cpu_sec is None ==> r.max_cpu_sec == 0
            &&& r.max_nofile == 1024
            &&& o.trace_id matches Some(s) ==> r.trace_id == Some(s@)
            &&& o.trace_id is None ==> r.trace_id is None
        }),
{
}

/// A stream gives every frame that comes, ends behind the one that holds the result, and tells
/// silence from an end.
pub proof fn law_stream_gives_its_frames(c: StreamCursor, r: Received)
    ensures
        given_said(c, r) is Exhausted <==> !c.open,
        given_said(c, r) is Frame <==> c.open && r is Frame,
        given_said(c, r) is TimedOut <==> c.open && r is TimedOut,
        c.open && r is Closed ==> (given_said(c, r) is Done <==> c.saw_done),
        c.open && r is Closed ==> (given_said(c, r) is NoResult <==> !c.saw_done),
        cursor_next(c, r).open <==> c.open && r == (Received::Frame { last: false }),
        cursor_next(c, r).saw_done <==> c.saw_done || (c.open && r == (Received::Frame { last: true })),
{
}

/// What is read is the value of the text, and what cannot be read says why.
pub proof fn law_text_is_read_or_told(raw: Seq<char>)
    ensures
        json_read(raw) matches Reading::Value(j) ==> read_or_why(raw) == Ok::<JsonV, Seq<char>>(j),
        json_read(raw) matches Reading::Fault(e) ==> (read_or_why(raw) matches Err(w) && e.is_suffix_of(w)),
{
    if let Reading::Fault(e) = json_read(raw) {
        let w = "序列化错误: "@ + e;
        assert(w.subrange(w.len() - e.len(), w.len() as int) =~= e);
    }
}

} // verus!
