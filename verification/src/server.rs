//! The server: where it listens, whom it lets in, how well it is, and how it stops.

use vstd::prelude::*;
use crate::json::{as_truth, empty_object, items_said, member, no_members, text, with_member, Json, JsonV};
use crate::paths::{below, join_path, parent_of, path_parent};
use crate::text::{behind, dec, law_decimal_reads_back, opt_str, opt_text, parse_u64, parsed, parsed_upto, pieces, split, texts, trim, trimmed};

verus! {

/// The directory below the home directory that the socket is in.
pub const DEFAULT_SOCK_DIR: &'static str = ".fusion-executor";

/// The name of the socket.
pub const DEFAULT_SOCK_NAME: &'static str = "fe.sock";

/// The socket where there is no home directory.
pub const FALLBACK_SOCK: &'static str = "/tmp/fusion-executor.sock";

/// How many connections there may be at a time.
pub const MAX_CONNECTIONS: usize = 64;

/// How many commands may run at a time.
pub const MAX_CONCURRENT_EXECS: usize = 16;

/// How many commands may have their output passed on at a time.
pub const MAX_CONCURRENT_STREAMS: usize = 64;

/// How many seconds connections get to end in.
pub const SHUTDOWN_DEADLINE: u64 = 10;

/// What is logged where nothing says otherwise.
pub const DEFAULT_FILTER_DIRECTIVE: &'static str = "info";

/// The socket below a home directory.
pub open spec fn sock_said(home: Option<Seq<char>>) -> Seq<char> {
    match home {
        Some(h) if h.len() > 0 => below(below(h, DEFAULT_SOCK_DIR@), DEFAULT_SOCK_NAME@),
        _ => FALLBACK_SOCK@,
    }
}

/// The socket below a home directory.
pub fn default_sock_path(home: Option<&str>) -> (r: String)
    ensures
        r@ == sock_said(opt_str(home)),
{
    match home {
        Some(h) => if h.is_empty() {
            FALLBACK_SOCK.to_owned()
        } else {
            join_path(join_path(h, DEFAULT_SOCK_DIR).as_str(), DEFAULT_SOCK_NAME)
        },
        None => FALLBACK_SOCK.to_owned(),
    }
}

/// The socket: the one that is given, or else the one that the environment names, or else the one
/// below the home directory.
pub fn resolve_sock(given: Option<&str>, named: Option<&str>, home: Option<&str>) -> (r: String)
    ensures
        r@ == (match opt_str(given) {
            Some(p) if p.len() > 0 => p,
            _ => match opt_str(named) {
                Some(n) => n,
                None => sock_said(opt_str(home)),
            },
        }),
{
    if let Some(p) = given {
        if !p.is_empty() {
            return p.to_owned();
        }
    }
    match named {
        Some(n) => n.to_owned(),
        None => default_sock_path(home),
    }
}

/// How many seconds connections get to end in, as some text says.
pub open spec fn timeout_said(raw: Option<Seq<char>>) -> u64 {
    match raw {
        Some(v) => match parsed_upto(trimmed(v), u64::MAX as nat) {
            Some(n) => if 1 <= n <= 300 {
                n as u64
            } else {
                SHUTDOWN_DEADLINE
            },
            None => SHUTDOWN_DEADLINE,
        },
        None => SHUTDOWN_DEADLINE,
    }
}

/// How many seconds connections get to end in, as some text says: from one to three hundred, or else
/// as many as where nothing is said.
pub fn parse_shutdown_timeout(raw: Option<String>) -> (r: u64)
    ensures
        r == timeout_said(opt_text(raw)),
        1 <= r <= 300,
{
    match raw {
        Some(v) => match parse_u64(trim(v.as_str()).as_str()) {
            Some(n) => if 1 <= n && n <= 300 {
                n
            } else {
                SHUTDOWN_DEADLINE
            },
            None => SHUTDOWN_DEADLINE,
        },
        None => SHUTDOWN_DEADLINE,
    }
}

/// The parts of a text between commas, without the white space around them and without empty ones.
pub open spec fn named_in(parts: Seq<Seq<char>>) -> Seq<Seq<char>>
    decreases parts.len(),
{
    if parts.len() == 0 {
        Seq::empty()
    } else if trimmed(parts.last()).len() == 0 {
        named_in(parts.drop_last())
    } else {
        named_in(parts.drop_last()).push(trimmed(parts.last()))
    }
}

/// The programs that some text allows beyond the usual ones.
pub open spec fn extras_said(raw: Option<Seq<char>>) -> Seq<Seq<char>> {
    match raw {
        Some(s) => named_in(pieces(s, ',')),
        None => Seq::empty(),
    }
}

/// The programs that some text allows beyond the usual ones: the list is made anew each time.
pub fn reload_extra_whitelist(raw: Option<&str>) -> (r: Vec<String>)
    ensures
        texts(r@) == extras_said(opt_str(raw)),
{
    let mut out: Vec<String> = Vec::new();
    proof {
        assert(texts(out@) =~= Seq::empty());
    }
    let s = match raw {
        Some(s) => s,
        None => return out,
    };
    let parts = split(s, ',');
    let mut i: usize = 0;
    proof {
        assert(texts(parts@).take(0) =~= Seq::empty());
    }
    while i < parts.len()
        invariant
            i <= parts@.len(),
            texts(out@) == named_in(texts(parts@).take(i as int)),
        decreases parts@.len() - i,
    {
        let ghost before = texts(out@);
        proof {
            assert(texts(parts@).take(i + 1).drop_last() =~= texts(parts@).take(i as int));
            assert(texts(parts@).take(i + 1).last() == parts@[i as int]@);
        }
        let name = trim(parts[i].as_str());
        if !name.as_str().is_empty() {
            out.push(name);
            proof {
                assert(texts(out@) =~= before.push(trimmed(parts@[i as int]@)));
            }
        }
        i = i + 1;
    }
    proof {
        assert(texts(parts@).take(i as int) =~= texts(parts@));
    }
    out
}

/// What is to be logged, as the environment says.
pub fn reload_log_level(raw: Option<&str>) -> (r: String)
    ensures
        r@ == (match opt_str(raw) {
            Some(s) if s.len() > 0 => s,
            _ => DEFAULT_FILTER_DIRECTIVE@,
        }),
{
    match raw {
        Some(s) => if s.is_empty() {
            DEFAULT_FILTER_DIRECTIVE.to_owned()
        } else {
            s.to_owned()
        },
        None => DEFAULT_FILTER_DIRECTIVE.to_owned(),
    }
}

/// The directory that logs are written to: the one that the environment names, or else one below the
/// home directory, where there is one.
pub fn resolve_log_dir(named: Option<&str>, home: Option<&str>) -> (r: Option<String>)
    ensures
        opt_text(r) == (match (opt_str(named), opt_str(home)) {
            (Some(d), _) if d.len() > 0 => Some(d),
            (_, Some(h)) if h.len() > 0 => Some(below(below(h, ".fusion-executor"@), "logs"@)),
            _ => None,
        }),
{
    if let Some(d) = named {
        if !d.is_empty() {
            return Some(d.to_owned());
        }
    }
    match home {
        Some(h) => if h.is_empty() {
            None
        } else {
            Some(join_path(join_path(h, ".fusion-executor").as_str(), "logs"))
        },
        None => None,
    }
}

/// The directories that programs are trusted in beyond the usual ones: that of the virtual
/// environment, and that of the running program.
pub open spec fn trusted_said(venv: Option<Seq<char>>, exe: Option<Seq<char>>) -> Seq<Seq<char>> {
    let first = match venv {
        Some(v) => seq![below(v, "bin"@)],
        None => Seq::<Seq<char>>::empty(),
    };
    match exe {
        Some(e) => match path_parent(e) {
            Some(p) => first.push(p),
            None => first,
        },
        None => first,
    }
}

/// The directories that programs are trusted in beyond the usual ones.
pub fn trusted_dirs(venv: Option<&str>, exe: Option<&str>) -> (r: Vec<String>)
    ensures
        texts(r@) == trusted_said(opt_str(venv), opt_str(exe)),
{
    let mut out: Vec<String> = Vec::new();
    proof {
        assert(texts(out@) =~= Seq::empty());
    }
    if let Some(v) = venv {
        out.push(join_path(v, "bin"));
        proof {
            assert(texts(out@) =~= seq![below(v@, "bin"@)]);
        }
    }
    if let Some(e) = exe {
        if let Some(p) = parent_of(e) {
            let ghost before = texts(out@);
            out.push(p);
            proof {
                assert(texts(out@) =~= before.push(p@));
            }
        }
    }
    out
}

/// How a directory for the socket came to be closed to others.
pub enum DirOutcome {
    /// It could not be made, for this reason.
    NotMade(String),
    /// It is closed.
    Closed,
    /// It could not be closed, with this number of the error and for this reason.
    NotClosed { pre_existing: bool, errno: Option<i32>, why: String },
}

/// The directory that must be closed to others for a socket, where it has one.
pub open spec fn sock_dir_said(path: Seq<char>) -> Option<Seq<char>> {
    match path_parent(path) {
        Some(p) if p.len() > 0 => Some(p),
        _ => None,
    }
}

/// The directory that must be closed to others for a socket, where it has one.
pub fn sock_dir(path: &str) -> (r: Option<String>)
    ensures
        opt_text(r) == sock_dir_said(path@),
{
    match parent_of(path) {
        Some(p) => if p.as_str().is_empty() {
            None
        } else {
            Some(p)
        },
        None => None,
    }
}

/// Whether an error says that something is not permitted.
pub open spec fn is_denied(errno: Option<i32>) -> bool {
    errno == Some(1i32) || errno == Some(13i32)
}

/// Why the server may not listen in a directory, where it may not: one that it could not make or
/// could not close, unless somebody else's was there before and denies it.
pub open spec fn dir_refused(dir: Seq<char>, o: DirOutcome) -> Option<Seq<char>> {
    match o {
        DirOutcome::NotMade(why) => Some("建 socket 私有目录失败 (D3-8 M-SEC-01): "@ + dir + ": "@ + why@),
        DirOutcome::Closed => None,
        DirOutcome::NotClosed { pre_existing, errno, why } => if pre_existing && is_denied(errno) {
            None
        } else {
            Some("chmod 0o700 私有目录失败 (D3-8 M-SEC-01): "@ + dir + ": "@ + why@)
        },
    }
}

/// Why the server may not listen in a directory, where it may not.
pub fn ensure_sock_dir(dir: &str, o: &DirOutcome) -> (r: Option<String>)
    ensures
        opt_text(r) == dir_refused(dir@, *o),
{
    match o {
        DirOutcome::NotMade(why) => {
            let mut m = behind("建 socket 私有目录失败 (D3-8 M-SEC-01): ", dir);
            m.append(": ");
            m.append(why.as_str());
            Some(m)
        },
        DirOutcome::Closed => None,
        DirOutcome::NotClosed { pre_existing, errno, why } => {
            let denied = match errno {
                Some(n) => *n == 1 || *n == 13,
                None => false,
            };
            if *pre_existing && denied {
                None
            } else {
                let mut m = behind("chmod 0o700 私有目录失败 (D3-8 M-SEC-01): ", dir);
                m.append(": ");
                m.append(why.as_str());
                Some(m)
            }
        },
    }
}

/// Why the server may not listen on a socket that could not be closed to others.
pub fn chmod_refused(path: &str, why: &str) -> (r: String)
    ensures
        r@ == "chmod 0o600 socket 失败 (D3-8 企业硬化): "@ + path@ + ": "@ + why@,
{
    let mut m = behind("chmod 0o600 socket 失败 (D3-8 企业硬化): ", path);
    m.append(": ");
    m.append(why);
    m
}

/// A directory that the server has made itself is closed to others before it listens, or it does not
/// listen.
pub proof fn law_own_directory_is_closed(dir: Seq<char>, o: DirOutcome)
    requires
        dir_refused(dir, o) is None,
    ensures
        o is Closed || (o matches DirOutcome::NotClosed { pre_existing, errno, why } && pre_existing && is_denied(errno)),
{
}

/// Whether a connection is let in: only one of the same user, and none whose user is not known.
pub fn peer_uid_matches(self_uid: u32, peer_uid: Option<u32>) -> (r: bool)
    ensures
        r == (peer_uid == Some(self_uid)),
{
    match peer_uid {
        Some(u) => u == self_uid,
        None => false,
    }
}

/// How well the runtime is.
#[derive(Debug, Clone, Copy, PartialEq, Eq, Structural)]
pub enum RuntimeState {
    /// It answers.
    Alive,
    /// It does not answer in time, since all commands that may run do.
    Busy,
    /// It does not answer in time, though more commands might run.
    Dead,
}

/// How well the runtime is, and how many more commands might run.
#[derive(Debug, Clone, Copy, PartialEq, Eq, Structural)]
pub struct RuntimeHealth {
    pub state: RuntimeState,
    pub available_permits: usize,
}

/// The word for how well the runtime is.
pub open spec fn state_word(s: RuntimeState) -> Seq<char> {
    match s {
        RuntimeState::Alive => "alive"@,
        RuntimeState::Busy => "busy"@,
        RuntimeState::Dead => "dead"@,
    }
}

impl RuntimeHealth {
    /// Whether the runtime is well: a busy one is.
    pub fn healthy(&self) -> (r: bool)
        ensures
            r == !(self.state is Dead),
    {
        match self.state {
            RuntimeState::Dead => false,
            _ => true,
        }
    }

    /// The word for how well the runtime is.
    pub fn state(&self) -> (r: &'static str)
        ensures
            r@ == state_word(self.state),
    {
        match self.state {
            RuntimeState::Alive => "alive",
            RuntimeState::Busy => "busy",
            RuntimeState::Dead => "dead",
        }
    }
}

/// How well the runtime is, from whether it answered in time.
pub fn probe_runtime(answered: bool, available_permits: usize) -> (r: RuntimeHealth)
    ensures
        r.available_permits == available_permits,
        r.state == (if answered {
            RuntimeState::Alive
        } else if available_permits == 0 {
            RuntimeState::Busy
        } else {
            RuntimeState::Dead
        }),
{
    let state = if answered {
        RuntimeState::Alive
    } else if available_permits == 0 {
        RuntimeState::Busy
    } else {
        RuntimeState::Dead
    };
    RuntimeHealth { state, available_permits }
}

/// What a program that the server needs is told of: whether it runs, and what version it writes.
pub open spec fn dependency_said(ran: Option<(bool, Seq<char>)>) -> JsonV {
    let named = with_member(no_members(), "name"@, JsonV::Str("git"@));
    match ran {
        Some((true, out)) => if trimmed(out).len() > 0 {
            with_member(with_member(named, "ok"@, JsonV::Bool(true)), "version"@, JsonV::Str(trimmed(out)))
        } else {
            with_member(named, "ok"@, JsonV::Bool(true))
        },
        _ => with_member(named, "ok"@, JsonV::Bool(false)),
    }
}

/// What was run of a program: whether it ended well, and what it wrote.
pub open spec fn ran_said(ran: Option<(bool, String)>) -> Option<(bool, Seq<char>)> {
    match ran {
        Some((ok, out)) => Some((ok, out@)),
        None => None,
    }
}

/// What is told of the programs that the server needs, from what `git --version` gave.
pub fn probe_dependencies(ran: &Option<(bool, String)>) -> (r: Json)
    ensures
        r@ == dependency_said(ran_said(*ran)),
{
    let named = empty_object().with("name", text("git"));
    match ran {
        Some((ok, out)) => if *ok {
            let version = trim(out.as_str());
            let d = named.with("ok", Json::Bool(true));
            if version.as_str().is_empty() {
                d
            } else {
                d.with("version", text(version.as_str()))
            }
        } else {
            named.with("ok", Json::Bool(false))
        },
        None => named.with("ok", Json::Bool(false)),
    }
}

/// Whether so many shells are near the limit: at four fifths of it.
pub fn shells_near_limit(active: usize, max: usize) -> (r: bool)
    ensures
        r == (max > 0 && active * 5 >= max * 4),
{
    let a: u128 = active as u128;
    let m: u128 = max as u128;
    max > 0 && a * 5 >= m * 4
}

/// How many workers the runtime has on a machine that runs so many things at a time.
pub fn worker_count(parallelism: Option<usize>) -> (r: usize)
    ensures
        r == (match parallelism {
            Some(n) if n > 2 => n,
            _ => 2,
        }),
{
    match parallelism {
        Some(n) => if n > 2 {
            n
        } else {
            2
        },
        None => 2,
    }
}

/// What is told of the server at work.
pub struct Depth {
    pub connections: u64,
    pub workers: usize,
    pub active_shells: usize,
    pub max_shells: usize,
    pub mem_mb: Json,
}

/// What is told of the server at work.
pub open spec fn depth_said(d: Depth) -> JsonV {
    with_member(
        with_member(
            with_member(
                with_member(
                    with_member(no_members(), "connections"@, JsonV::UInt(d.connections)),
                    "workers"@,
                    JsonV::UInt(d.workers as u64),
                ),
                "active_shells"@,
                JsonV::UInt(d.active_shells as u64),
            ),
            "max_shells"@,
            JsonV::UInt(d.max_shells as u64),
        ),
        "mem_mb"@,
        d.mem_mb@,
    )
}

/// What is told of the server at work.
pub fn probe_health_depth(d: &Depth) -> (r: Json)
    ensures
        r@ == depth_said(*d),
{
    empty_object()
        .with("connections", Json::UInt(d.connections))
        .with("workers", Json::UInt(d.workers as u64))
        .with("active_shells", Json::UInt(d.active_shells as u64))
        .with("max_shells", Json::UInt(d.max_shells as u64))
        .with("mem_mb", d.mem_mb.copy())
}

/// What the program is: its version, the commit and the time that it was built from and at.
pub struct Build {
    pub version: String,
    pub git_sha: String,
    pub build_time: String,
}

/// What is told of the runtime.
pub open spec fn runtime_said(rt: RuntimeHealth) -> JsonV {
    with_member(
        with_member(
            with_member(no_members(), "ok"@, JsonV::Bool(!(rt.state is Dead))),
            "state"@,
            JsonV::Str(state_word(rt.state)),
        ),
        "available_permits"@,
        JsonV::UInt(rt.available_permits as u64),
    )
}

/// What is told of the server's health: it is well where the runtime is and the programs that it
/// needs run.
pub open spec fn health_said(build: Build, ax_trusted: bool, rt: RuntimeHealth, ran: Option<(bool, Seq<char>)>, depth: Depth) -> JsonV {
    let ok = !(rt.state is Dead) && (ran matches Some((done, _)) && done);
    let a = with_member(no_members(), "ok"@, JsonV::Bool(ok));
    let b = with_member(a, "version"@, JsonV::Str(build.version@));
    let c = with_member(b, "git_sha"@, JsonV::Str(build.git_sha@));
    let d = with_member(c, "build_time"@, JsonV::Str(build.build_time@));
    let e = with_member(d, "ax_trusted"@, JsonV::Bool(ax_trusted));
    let f = with_member(e, "seatbelt_default_on"@, JsonV::Bool(true));
    let g = with_member(f, "runtime"@, runtime_said(rt));
    let h = with_member(g, "dependencies"@, JsonV::Arr(seq![dependency_said(ran)]));
    with_member(h, "depth"@, depth_said(depth))
}

/// What is told of the server's health.
pub fn health_result(build: &Build, ax_trusted: bool, rt: &RuntimeHealth, ran: &Option<(bool, String)>, depth: &Depth) -> (r: Json)
    ensures
        r@ == health_said(*build, ax_trusted, *rt, ran_said(*ran), *depth),
{
    let dep = probe_dependencies(ran);
    let runs = match ran {
        Some((done, _)) => *done,
        None => false,
    };
    let mut deps: Vec<Json> = Vec::new();
    deps.push(dep);
    proof {
        reveal_with_fuel(items_said, 2);
        assert(deps@.drop_last() =~= Seq::empty());
        assert(items_said(deps@) =~= seq![dependency_said(ran_said(*ran))]);
    }
    let runtime = empty_object()
        .with("ok", Json::Bool(rt.healthy()))
        .with("state", text(rt.state()))
        .with("available_permits", Json::UInt(rt.available_permits as u64));
    empty_object()
        .with("ok", Json::Bool(rt.healthy() && runs))
        .with("version", text(build.version.as_str()))
        .with("git_sha", text(build.git_sha.as_str()))
        .with("build_time", text(build.build_time.as_str()))
        .with("ax_trusted", Json::Bool(ax_trusted))
        .with("seatbelt_default_on", Json::Bool(true))
        .with("runtime", runtime)
        .with("dependencies", Json::Arr(deps))
        .with("depth", probe_health_depth(depth))
}

/// A busy server is well: only one that does not answer though more commands might run, or lacks a
/// program that it needs, is not.
pub proof fn law_busy_server_is_well(build: Build, ax_trusted: bool, permits: usize, out: Seq<char>, depth: Depth)
    ensures
        as_truth(member(health_said(build, ax_trusted, RuntimeHealth { state: RuntimeState::Busy, available_permits: permits }, Some((true, out)), depth), "ok"@)) == Some(true),
        as_truth(member(health_said(build, ax_trusted, RuntimeHealth { state: RuntimeState::Dead, available_permits: permits }, Some((true, out)), depth), "ok"@)) == Some(false),
        as_truth(member(health_said(build, ax_trusted, RuntimeHealth { state: RuntimeState::Alive, available_permits: permits }, None, depth), "ok"@)) == Some(false),
{
    reveal_strlit("ok");
    reveal_strlit("version");
    reveal_strlit("git_sha");
    reveal_strlit("build_time");
    reveal_strlit("ax_trusted");
    reveal_strlit("seatbelt_default_on");
    reveal_strlit("runtime");
    reveal_strlit("dependencies");
    reveal_strlit("depth");
    assert("ok"@.len() == 2);
    assert("version"@.len() == 7);
    assert("git_sha"@.len() == 7);
    assert("build_time"@.len() == 10);
    assert("ax_trusted"@.len() == 10);
    assert("seatbelt_default_on"@.len() == 19);
    assert("runtime"@.len() == 7);
    assert("dependencies"@.len() == 12);
    assert("depth"@.len() == 5);
}

/// What is done with the next connection when the server stops.
#[derive(Debug, Clone, Copy, PartialEq, Eq, Structural)]
pub enum DrainStep {
    /// It gets so many nanoseconds to end in.
    Wait { remain_ns: u64 },
    /// It is ended.
    Abort,
}

/// What is done with the next connection, so long after the server began to stop.
pub open spec fn drain_said(deadline_ns: u64, elapsed_ns: u64) -> DrainStep {
    if elapsed_ns >= deadline_ns {
        DrainStep::Abort
    } else {
        DrainStep::Wait { remain_ns: (deadline_ns - elapsed_ns) as u64 }
    }
}

/// What is done with the next connection, so long after the server began to stop: all of them share
/// one deadline.
pub fn drain_connections(deadline_ns: u64, elapsed_ns: u64) -> (r: DrainStep)
    ensures
        r == drain_said(deadline_ns, elapsed_ns),
{
    if elapsed_ns >= deadline_ns {
        DrainStep::Abort
    } else {
        DrainStep::Wait { remain_ns: deadline_ns - elapsed_ns }
    }
}

/// How long after it began to stop the server is behind some connections, of which each takes at
/// most what it gets.
pub open spec fn drained_by(deadline_ns: u64, took: Seq<u64>) -> nat
    decreases took.len(),
{
    if took.len() == 0 {
        0
    } else {
        let before = drained_by(deadline_ns, took.drop_last());
        match drain_said(deadline_ns, before as u64) {
            DrainStep::Wait { remain_ns } => if took.last() <= remain_ns {
                before + took.last() as nat
            } else {
                before + remain_ns as nat
            },
            DrainStep::Abort => before,
        }
    }
}

/// However many connections there are, and however long each would take, the server has stopped by
/// its deadline.
pub proof fn law_drain_keeps_one_deadline(deadline_ns: u64, took: Seq<u64>)
    ensures
        drained_by(deadline_ns, took) <= deadline_ns,
    decreases took.len(),
{
    if took.len() > 0 {
        law_drain_keeps_one_deadline(deadline_ns, took.drop_last());
    }
}

/// The socket is below the home directory, and without one where everyone finds it.
pub proof fn law_socket_is_below_the_home_directory(home: Option<Seq<char>>)
    ensures
        home matches Some(h) && h.len() > 0 ==> sock_said(home) == below(below(home->Some_0, ".fusion-executor"@), "fe.sock"@),
        (home is None || home->Some_0.len() == 0) ==> sock_said(home) == "/tmp/fusion-executor.sock"@,
{
}

/// The time that a stop may take is what was asked for, from one second to three hundred, and ten
/// seconds where it is anything else.
pub proof fn law_stop_takes_the_time_that_was_asked_for(raw: Option<Seq<char>>, v: Seq<char>, n: nat)
    requires
        trimmed(v) == dec(n),
    ensures
        1 <= timeout_said(raw) <= 300,
        raw is None ==> timeout_said(raw) == 10,
        1 <= n <= 300 ==> timeout_said(Some(v)) == n,
        (n == 0 || n > 300) ==> timeout_said(Some(v)) == 10,
        raw is Some && parsed(trimmed(raw->Some_0)) is None ==> timeout_said(raw) == 10,
{
    law_decimal_reads_back(n);
}

/// The names in a list are its pieces, trimmed, but for those with nothing in them.
pub proof fn law_named_are_the_trimmed_pieces(parts: Seq<Seq<char>>)
    ensures
        named_in(parts) == parts.map_values(|p: Seq<char>| trimmed(p)).filter(|p: Seq<char>| p.len() > 0),
    decreases parts.len(),
{
    reveal(Seq::filter);
    let trims = parts.map_values(|p: Seq<char>| trimmed(p));
    if parts.len() > 0 {
        law_named_are_the_trimmed_pieces(parts.drop_last());
        assert(trims.drop_last() =~= parts.drop_last().map_values(|p: Seq<char>| trimmed(p)));
    }
}

/// The commands that are let in beside the usual ones are those between the commas.
pub proof fn law_extras_stand_between_commas(raw: Option<Seq<char>>)
    ensures
        raw is None ==> extras_said(raw).len() == 0,
        raw matches Some(s) ==> extras_said(raw) == pieces(s, ',').map_values(|p: Seq<char>| trimmed(p)).filter(|p: Seq<char>| p.len() > 0),
{
    if let Some(s) = raw {
        law_named_are_the_trimmed_pieces(pieces(s, ','));
    }
}

/// Trusted are the programs of the virtual environment, first, and those beside the server itself;
/// no others are.
pub proof fn law_own_directories_are_trusted(venv: Option<Seq<char>>, exe: Option<Seq<char>>)
    ensures
        ({
            let beside: Option<Seq<char>> = match exe {
                Some(e) => path_parent(e),
                None => None,
            };
            let t = trusted_said(venv, exe);
            &&& venv matches Some(v) ==> t.len() > 0 && t[0] == below(v, "bin"@)
            &&& beside matches Some(p) ==> t.len() > 0 && t.last() == p
            &&& venv is Some && beside is Some ==> t.len() == 2
            &&& venv is Some && beside is None ==> t.len() == 1
            &&& venv is None && beside is Some ==> t.len() == 1
            &&& venv is None && beside is None ==> t.len() == 0
        }),
{
}

/// The directory of the socket is the one that it is in, where its path names one.
pub proof fn law_socket_directory_is_its_parent(path: Seq<char>)
    ensures
        sock_dir_said(path) matches Some(d) ==> d.len() > 0 && path_parent(path) == Some(d),
        sock_dir_said(path) is None ==> (path_parent(path) is None || path_parent(path)->Some_0.len() == 0),
{
}

/// A directory that could not be made is refused, one that is closed is not, and one that could not
/// be closed is refused unless it is another's: there before, and not for this user to change. Every
/// refusal names the directory and ends in the reason.
pub proof fn law_open_directory_is_refused(dir: Seq<char>, o: DirOutcome)
    ensures
        o is NotMade ==> dir_refused(dir, o) is Some,
        o is Closed ==> dir_refused(dir, o) is None,
        o matches DirOutcome::NotClosed { pre_existing, errno, why } ==> (dir_refused(dir, o) is None <==> pre_existing && (errno == Some(1i32) || errno == Some(13i32))),
        dir_refused(dir, o) matches Some(m) ==> crate::text::has_text(m, dir) && match o {
            DirOutcome::NotMade(why) => why@.is_suffix_of(m),
            DirOutcome::NotClosed { pre_existing, errno, why } => why@.is_suffix_of(m),
            DirOutcome::Closed => false,
        },
{
    if let Some(m) = dir_refused(dir, o) {
        let (head, why) = match o {
            DirOutcome::NotMade(why) => ("建 socket 私有目录失败 (D3-8 M-SEC-01): "@, why@),
            DirOutcome::NotClosed { pre_existing, errno, why } => ("chmod 0o700 私有目录失败 (D3-8 M-SEC-01): "@, why@),
            DirOutcome::Closed => (Seq::empty(), Seq::empty()),
        };
        assert(m == head + dir + ": "@ + why);
        assert(m.subrange(head.len() as int, (head.len() + dir.len()) as int) =~= dir);
        assert(crate::text::has_at(m, dir, head.len() as int));
        assert(m.subrange(m.len() - why.len(), m.len() as int) =~= why);
    }
}

/// Every state of the runtime has a word of its own.
pub proof fn law_states_have_their_words(a: RuntimeState, b: RuntimeState)
    ensures
        state_word(a) == state_word(b) ==> a == b,
        state_word(a) == "alive"@ <==> a is Alive,
        state_word(a) == "busy"@ <==> a is Busy,
        state_word(a) == "dead"@ <==> a is Dead,
{
    reveal_strlit("alive");
    reveal_strlit("busy");
    reveal_strlit("dead");
    assert("alive"@.len() == 5);
    assert("busy"@.len() == 4);
    assert("dead"@.len() == 4);
    assert("busy"@[0] != "dead"@[0]);
}

/// The names in what is told of the server's health are all different.
proof fn lemma_health_names_differ()
    ensures
        seq!["ok"@, "version"@, "git_sha"@, "build_time"@, "ax_trusted"@, "seatbelt_default_on"@, "runtime"@, "dependencies"@, "depth"@].no_duplicates(),
        seq!["connections"@, "workers"@, "active_shells"@, "max_shells"@, "mem_mb"@].no_duplicates(),
        seq!["ok"@, "state"@, "available_permits"@].no_duplicates(),
        seq!["name"@, "ok"@, "version"@].no_duplicates(),
{
    reveal_strlit("ok");
    reveal_strlit("version");
    reveal_strlit("git_sha");
    reveal_strlit("build_time");
    reveal_strlit("ax_trusted");
    reveal_strlit("seatbelt_default_on");
    reveal_strlit("runtime");
    reveal_strlit("dependencies");
    reveal_strlit("depth");
    reveal_strlit("connections");
    reveal_strlit("workers");
    reveal_strlit("active_shells");
    reveal_strlit("max_shells");
    reveal_strlit("mem_mb");
    reveal_strlit("state");
    reveal_strlit("available_permits");
    reveal_strlit("name");
    assert("ok"@.len() == 2);
    assert("version"@.len() == 7);
    assert("git_sha"@.len() == 7);
    assert("build_time"@.len() == 10);
    assert("ax_trusted"@.len() == 10);
    assert("seatbelt_default_on"@.len() == 19);
    assert("runtime"@.len() == 7);
    assert("dependencies"@.len() == 12);
    assert("depth"@.len() == 5);
    assert("connections"@.len() == 11);
    assert("workers"@.len() == 7);
    assert("active_shells"@.len() == 13);
    assert("max_shells"@.len() == 10);
    assert("mem_mb"@.len() == 6);
    assert("state"@.len() == 5);
    assert("available_permits"@.len() == 17);
    assert("name"@.len() == 4);
    assert("version"@[0] == 'v');
    assert("git_sha"@[0] == 'g');
    assert("runtime"@[0] == 'r');
    assert("build_time"@[0] == 'b');
    assert("ax_trusted"@[0] == 'a');
}

/// The load of the server is told, each number under its name.
pub proof fn law_depth_is_told(d: Depth)
    ensures
        member(depth_said(d), "connections"@) == Some(JsonV::UInt(d.connections)),
        member(depth_said(d), "workers"@) == Some(JsonV::UInt(d.workers as u64)),
        member(depth_said(d), "active_shells"@) == Some(JsonV::UInt(d.active_shells as u64)),
        member(depth_said(d), "max_shells"@) == Some(JsonV::UInt(d.max_shells as u64)),
        member(depth_said(d), "mem_mb"@) == Some(d.mem_mb@),
{
    lemma_health_names_differ();
    let s = seq!["connections"@, "workers"@, "active_shells"@, "max_shells"@, "mem_mb"@];
    assert(s[0] != s[1] && s[0] != s[2] && s[0] != s[3] && s[0] != s[4]);
    assert(s[1] != s[2] && s[1] != s[3] && s[1] != s[4]);
    assert(s[2] != s[3] && s[2] != s[4] && s[3] != s[4]);
}

/// The runtime is well unless it is dead, and its state and its free places are told.
pub proof fn law_runtime_is_told(rt: RuntimeHealth)
    ensures
        member(runtime_said(rt), "ok"@) == Some(JsonV::Bool(!(rt.state is Dead))),
        member(runtime_said(rt), "state"@) == Some(JsonV::Str(state_word(rt.state))),
        member(runtime_said(rt), "available_permits"@) == Some(JsonV::UInt(rt.available_permits as u64)),
{
    lemma_health_names_differ();
    let s = seq!["ok"@, "state"@, "available_permits"@];
    assert(s[0] != s[1] && s[0] != s[2] && s[1] != s[2]);
}

/// Git is there where it ran and succeeded, and then the version is told that it printed.
pub proof fn law_dependency_is_told(ran: Option<(bool, Seq<char>)>)
    ensures
        member(dependency_said(ran), "name"@) == Some(JsonV::Str("git"@)),
        member(dependency_said(ran), "ok"@) == Some(JsonV::Bool(ran is Some && ran->Some_0.0)),
        ran is Some && ran->Some_0.0 && trimmed(ran->Some_0.1).len() > 0 ==> member(dependency_said(ran), "version"@) == Some(JsonV::Str(trimmed(ran->Some_0.1))),
        !(ran is Some && ran->Some_0.0 && trimmed(ran->Some_0.1).len() > 0) ==> member(dependency_said(ran), "version"@) is None,
{
    lemma_health_names_differ();
    let s = seq!["name"@, "ok"@, "version"@];
    assert(s[0] != s[1] && s[0] != s[2] && s[1] != s[2]);
}

/// The server is well where its runtime is not dead and git is there; and what it is built of, what
/// it may do and how loaded it is are told, each under its name.
pub proof fn law_health_is_told(build: Build, ax_trusted: bool, rt: RuntimeHealth, ran: Option<(bool, Seq<char>)>, depth: Depth)
    ensures
        ({
            let h = health_said(build, ax_trusted, rt, ran, depth);
            &&& member(h, "ok"@) == Some(JsonV::Bool(!(rt.state is Dead) && ran is Some && ran->Some_0.0))
            &&& member(h, "version"@) == Some(JsonV::Str(build.version@))
            &&& member(h, "git_sha"@) == Some(JsonV::Str(build.git_sha@))
            &&& member(h, "build_time"@) == Some(JsonV::Str(build.build_time@))
            &&& member(h, "ax_trusted"@) == Some(JsonV::Bool(ax_trusted))
            &&& member(h, "seatbelt_default_on"@) == Some(JsonV::Bool(true))
            &&& member(h, "runtime"@) == Some(runtime_said(rt))
            &&& member(h, "dependencies"@) == Some(JsonV::Arr(seq![dependency_said(ran)]))
            &&& member(h, "depth"@) == Some(depth_said(depth))
        }),
{
    lemma_health_names_differ();
    let s = seq!["ok"@, "version"@, "git_sha"@, "build_time"@, "ax_trusted"@, "seatbelt_default_on"@, "runtime"@, "dependencies"@, "depth"@];
    assert(s[0] == "ok"@ && s[1] == "version"@ && s[2] == "git_sha"@ && s[3] == "build_time"@ && s[4] == "ax_trusted"@);
    assert(s[5] == "seatbelt_default_on"@ && s[6] == "runtime"@ && s[7] == "dependencies"@ && s[8] == "depth"@);
}

/// A connection is waited for as long as the deadline leaves, and given up from then on.
pub proof fn law_drain_waits_up_to_the_deadline(deadline_ns: u64, elapsed_ns: u64)
    ensures
        drain_said(deadline_ns, elapsed_ns) is Abort <==> elapsed_ns >= deadline_ns,
        drain_said(deadline_ns, elapsed_ns) matches DrainStep::Wait { remain_ns } ==> elapsed_ns + remain_ns == deadline_ns,
{
}

} // verus!
