//! The hub: who has subscribed to what, and which events are pushed to whom.

use vstd::prelude::*;
use crate::frames::{err_resp, err_said, event_said, notification, ok_resp, ok_said, ERR_INVALID_REQ};
use crate::json::{as_items, as_nat, as_text, as_truth, empty_object, member, no_members, text, texts_in, with_member, without_member, Json, JsonV};
use crate::text::{behind, copy_texts, dec, dec_u64, each_once, holds, join, joined, law_decimal_is_injective, lowercase, lowercase_of, once, opt_text, str_eq, texts};

verus! {

/// The channel of samples.
pub const CH_TELEMETRY: &'static str = "telemetry";

/// The channel of what commands write.
pub const CH_STDIO: &'static str = "stdio";

/// The channel of screenshots.
pub const CH_SCREENSHOT: &'static str = "screenshot";

/// How many milliseconds lie between two samples where a subscription does not say.
pub const DEFAULT_INTERVAL_MS: u64 = 100;

/// How many milliseconds lie between two screenshots where a subscription does not say.
pub const DEFAULT_SCREENSHOT_INTERVAL_MS: u64 = 1000;

/// The most bytes that the picture in an event may have.
pub const MAX_SCREENSHOT_B64_BYTES: usize = 4_194_304;

/// Of which commands a subscription sees what they write.
#[derive(Debug, Clone)]
pub enum StdioScope {
    /// Of all.
    All,
    /// Of those that came in over this connection.
    OwnConn(u64),
    /// Of those with one of these task identifiers.
    Tasks(Vec<String>),
}

/// What a scope says.
pub enum ScopeV {
    All,
    OwnConn(u64),
    Tasks(Seq<Seq<char>>),
}

impl View for StdioScope {
    type V = ScopeV;

    open spec fn view(&self) -> ScopeV {
        match self {
            StdioScope::All => ScopeV::All,
            StdioScope::OwnConn(c) => ScopeV::OwnConn(*c),
            StdioScope::Tasks(v) => ScopeV::Tasks(texts(v@)),
        }
    }
}

/// Whether a scope holds a command of a task with this identifier that came in over this connection.
pub open spec fn allowed(s: ScopeV, task_id: Option<Seq<char>>, source_conn: u64) -> bool {
    match s {
        ScopeV::All => true,
        ScopeV::OwnConn(c) => c == source_conn,
        ScopeV::Tasks(ts) => match task_id {
            Some(t) => ts.contains(t),
            None => false,
        },
    }
}

impl StdioScope {
    /// Whether the scope holds a command of a task with this identifier that came in over this connection.
    pub fn allows(&self, task_id: &Option<String>, source_conn: u64) -> (r: bool)
        ensures
            r == allowed(self@, opt_text(*task_id), source_conn),
    {
        match self {
            StdioScope::All => true,
            StdioScope::OwnConn(c) => *c == source_conn,
            StdioScope::Tasks(v) => match task_id {
                Some(t) => holds(v, t.as_str()),
                None => false,
            },
        }
    }
}

/// A subscription: who it belongs to, which channels it is for, and of which commands it sees what
/// they write.
#[derive(Debug, Clone)]
pub struct Subscriber {
    pub sub_id: String,
    pub conn_id: u64,
    pub channels: Vec<String>,
    pub scope: StdioScope,
}

/// What a subscription says.
pub struct SubV {
    pub sub_id: Seq<char>,
    pub conn_id: u64,
    pub channels: Seq<Seq<char>>,
    pub scope: ScopeV,
}

impl View for Subscriber {
    type V = SubV;

    open spec fn view(&self) -> SubV {
        SubV { sub_id: self.sub_id@, conn_id: self.conn_id, channels: texts(self.channels@), scope: self.scope@ }
    }
}

/// What some subscriptions say.
pub open spec fn subs_said(v: Seq<Subscriber>) -> Seq<SubV> {
    v.map_values(|s: Subscriber| s@)
}

/// The subscriptions but the one with this identifier.
pub open spec fn without_sub(subs: Seq<SubV>, sub_id: Seq<char>) -> Seq<SubV>
    decreases subs.len(),
{
    if subs.len() == 0 {
        Seq::empty()
    } else if subs.last().sub_id == sub_id {
        without_sub(subs.drop_last(), sub_id)
    } else {
        without_sub(subs.drop_last(), sub_id).push(subs.last())
    }
}

/// The subscriptions but those of this connection.
pub open spec fn without_conn(subs: Seq<SubV>, conn_id: u64) -> Seq<SubV>
    decreases subs.len(),
{
    if subs.len() == 0 {
        Seq::empty()
    } else if subs.last().conn_id == conn_id {
        without_conn(subs.drop_last(), conn_id)
    } else {
        without_conn(subs.drop_last(), conn_id).push(subs.last())
    }
}

/// Whether there is a subscription with this identifier.
pub open spec fn has_sub(subs: Seq<SubV>, sub_id: Seq<char>) -> bool {
    exists|k: int| 0 <= k < subs.len() && (#[trigger] subs[k]).sub_id == sub_id
}

/// The subscriptions to a channel.
pub open spec fn subs_to(subs: Seq<SubV>, channel: Seq<char>) -> Seq<SubV>
    decreases subs.len(),
{
    if subs.len() == 0 {
        Seq::empty()
    } else if subs.last().channels.contains(channel) {
        subs_to(subs.drop_last(), channel).push(subs.last())
    } else {
        subs_to(subs.drop_last(), channel)
    }
}

/// The subscriptions that see what a command writes.
pub open spec fn subs_allowed(subs: Seq<SubV>, task_id: Option<Seq<char>>, source_conn: u64) -> Seq<SubV>
    decreases subs.len(),
{
    if subs.len() == 0 {
        Seq::empty()
    } else if allowed(subs.last().scope, task_id, source_conn) {
        subs_allowed(subs.drop_last(), task_id, source_conn).push(subs.last())
    } else {
        subs_allowed(subs.drop_last(), task_id, source_conn)
    }
}

/// A frame on its way to a connection.
pub struct Push {
    pub conn_id: u64,
    pub frame: Json,
}

/// What a push says.
pub struct PushV {
    pub conn_id: u64,
    pub frame: JsonV,
}

impl View for Push {
    type V = PushV;

    open spec fn view(&self) -> PushV {
        PushV { conn_id: self.conn_id, frame: self.frame@ }
    }
}

/// What some pushes say.
pub open spec fn pushes_said(v: Seq<Push>) -> Seq<PushV> {
    v.map_values(|p: Push| p@)
}

/// The push of some data to a subscription.
pub open spec fn push_to(s: SubV, channel: Seq<char>, data: JsonV) -> PushV {
    PushV { conn_id: s.conn_id, frame: event_said(s.sub_id, channel, data) }
}

/// The pushes of some data to some subscriptions.
pub open spec fn fanned(subs: Seq<SubV>, channel: Seq<char>, data: JsonV) -> Seq<PushV> {
    subs.map_values(|s: SubV| push_to(s, channel, data))
}

/// Pushes some data to some subscriptions.
pub fn fan_out(targets: &Vec<Subscriber>, channel: &str, data: &Json) -> (r: Vec<Push>)
    ensures
        pushes_said(r@) == fanned(subs_said(targets@), channel@, data@),
{
    let mut out: Vec<Push> = Vec::new();
    let mut i: usize = 0;
    while i < targets.len()
        invariant
            i <= targets@.len(),
            out@.len() == i,
            forall|k: int| 0 <= k < i ==> (#[trigger] out@[k])@ == push_to(targets@[k]@, channel@, data@),
        decreases targets@.len() - i,
    {
        let s = &targets[i];
        out.push(Push { conn_id: s.conn_id, frame: notification(s.sub_id.as_str(), channel, data.copy()) });
        i = i + 1;
    }
    proof {
        assert(pushes_said(out@) =~= fanned(subs_said(targets@), channel@, data@));
    }
    out
}

impl Subscriber {
    /// A copy of a subscription.
    pub fn copy(&self) -> (r: Subscriber)
        ensures
            r@ == self@,
    {
        let scope = match &self.scope {
            StdioScope::All => StdioScope::All,
            StdioScope::OwnConn(c) => StdioScope::OwnConn(*c),
            StdioScope::Tasks(v) => StdioScope::Tasks(copy_texts(v)),
        };
        Subscriber { sub_id: self.sub_id.clone(), conn_id: self.conn_id, channels: copy_texts(&self.channels), scope }
    }
}

/// The identifier of the subscription with this number.
pub open spec fn sub_name(n: u64) -> Seq<char> {
    "sub-"@ + dec(n as nat)
}

/// The hub.
pub struct BroadcastHub {
    subs: Vec<Subscriber>,
    conn_counter: u64,
    active_conns: u64,
    sub_counter: u64,
    telemetry_gen: u64,
    screenshot_gen: u64,
}

/// What the hub knows: the subscriptions; the numbers that the next connection and the next
/// subscription get; how many connections there are; and how often a channel was subscribed to.
pub struct HubV {
    pub subs: Seq<SubV>,
    pub conn_counter: u64,
    pub active_conns: u64,
    pub sub_counter: u64,
    pub telemetry_gen: u64,
    pub screenshot_gen: u64,
}

impl View for BroadcastHub {
    type V = HubV;

    closed spec fn view(&self) -> HubV {
        HubV {
            subs: subs_said(self.subs@),
            conn_counter: self.conn_counter,
            active_conns: self.active_conns,
            sub_counter: self.sub_counter,
            telemetry_gen: self.telemetry_gen,
            screenshot_gen: self.screenshot_gen,
        }
    }
}

/// The hub before the first connection.
pub open spec fn hub_start() -> HubV {
    HubV { subs: Seq::empty(), conn_counter: 1, active_conns: 0, sub_counter: 1, telemetry_gen: 0, screenshot_gen: 0 }
}

/// The hub behind a new connection, which has the number that was next.
pub open spec fn conn_opened(h: HubV) -> HubV {
    HubV { conn_counter: h.conn_counter.wrapping_add(1), active_conns: h.active_conns.wrapping_add(1), ..h }
}

/// The hub behind the end of a connection.
pub open spec fn conn_dropped(h: HubV, conn_id: u64) -> HubV {
    HubV { subs: without_conn(h.subs, conn_id), active_conns: h.active_conns.wrapping_sub(1), ..h }
}

/// The hub behind a new subscription, which has the identifier that was next.
pub open spec fn subscribed(h: HubV, conn_id: u64, channels: Seq<Seq<char>>, scope: ScopeV) -> HubV {
    HubV {
        subs: without_sub(h.subs, sub_name(h.sub_counter)).push(SubV { sub_id: sub_name(h.sub_counter), conn_id, channels, scope }),
        sub_counter: h.sub_counter.wrapping_add(1),
        telemetry_gen: if channels.contains(CH_TELEMETRY@) {
            h.telemetry_gen.wrapping_add(1)
        } else {
            h.telemetry_gen
        },
        screenshot_gen: if channels.contains(CH_SCREENSHOT@) {
            h.screenshot_gen.wrapping_add(1)
        } else {
            h.screenshot_gen
        },
        ..h
    }
}

/// The hub behind the end of a subscription.
pub open spec fn unsubscribed(h: HubV, sub_id: Seq<char>) -> HubV {
    HubV { subs: without_sub(h.subs, sub_id), ..h }
}

/// What a source does when its time has come.
pub enum SourceStep {
    /// It takes a sample, and pushes it to these subscriptions.
    Sample { targets: Vec<Subscriber> },
    /// It waits for the next time: nobody is subscribed, but somebody was since it started.
    Again,
    /// It ends: nobody is subscribed, and nobody was since it started.
    Exit,
}

/// What a source that was started in one generation does in another.
pub open spec fn source_said(r: SourceStep, subs: Seq<SubV>, channel: Seq<char>, start_gen: u64, gen: u64) -> bool {
    if subs_to(subs, channel).len() > 0 {
        r matches SourceStep::Sample { targets } && subs_said(targets@) == subs_to(subs, channel)
    } else if gen != start_gen {
        r is Again
    } else {
        r is Exit
    }
}

/// How a source is started: how many milliseconds lie between two samples, and in which generation.
#[derive(Debug, Clone, Copy, PartialEq, Eq, Structural)]
pub struct SourceRun {
    pub interval_ms: u64,
    pub start_gen: u64,
}

/// How a source is started where none runs.
pub open spec fn source_run(running: bool, interval_ms: u64, otherwise: u64, gen: u64) -> Option<SourceRun> {
    if running {
        None
    } else {
        Some(SourceRun {
            interval_ms: if interval_ms == 0 {
                otherwise
            } else {
                interval_ms
            },
            start_gen: gen,
        })
    }
}

/// How a source is started where none runs.
fn ensure_source(running: bool, interval_ms: u64, otherwise: u64, gen: u64) -> (r: Option<SourceRun>)
    ensures
        r == source_run(running, interval_ms, otherwise, gen),
{
    if running {
        return None;
    }
    let interval_ms: u64 = if interval_ms == 0 {
        otherwise
    } else {
        interval_ms
    };
    Some(SourceRun { interval_ms, start_gen: gen })
}

impl BroadcastHub {
    /// The hub before the first connection.
    pub fn new() -> (r: Self)
        ensures
            r@ == hub_start(),
    {
        let r = BroadcastHub {
            subs: Vec::new(),
            conn_counter: 1,
            active_conns: 0,
            sub_counter: 1,
            telemetry_gen: 0,
            screenshot_gen: 0,
        };
        proof {
            assert(r@.subs =~= Seq::empty());
        }
        r
    }

    /// Takes in a new connection, and gives its number.
    pub fn next_conn_id(&mut self) -> (r: u64)
        ensures
            r == old(self)@.conn_counter,
            final(self)@ == conn_opened(old(self)@),
    {
        let n: u64 = self.conn_counter;
        self.conn_counter = n.wrapping_add(1);
        self.active_conns = self.active_conns.wrapping_add(1);
        n
    }

    /// How many connections there are.
    pub fn connections(&self) -> (r: u64)
        ensures
            r == self@.active_conns,
    {
        self.active_conns
    }

    /// The identifier that the next subscription gets.
    pub fn next_sub_id(&self) -> (r: String)
        ensures
            r@ == sub_name(self@.sub_counter),
    {
        behind("sub-", dec_u64(self.sub_counter).as_str())
    }

    /// Drops the subscription with this identifier, and tells whether there was one.
    pub fn unsubscribe(&mut self, sub_id: &str) -> (r: bool)
        ensures
            r == has_sub(old(self)@.subs, sub_id@),
            final(self)@ == unsubscribed(old(self)@, sub_id@),
    {
        let mut kept: Vec<Subscriber> = Vec::new();
        let mut found = false;
        let mut i: usize = 0;
        proof {
            assert(subs_said(self.subs@).take(0) =~= Seq::empty());
            assert(subs_said(kept@) =~= Seq::empty());
        }
        while i < self.subs.len()
            invariant
                i <= self.subs@.len(),
                *self == *old(self),
                subs_said(kept@) == without_sub(subs_said(self.subs@).take(i as int), sub_id@),
                found == has_sub(subs_said(self.subs@).take(i as int), sub_id@),
            decreases self.subs@.len() - i,
        {
            let ghost before = subs_said(kept@);
            let ghost all = subs_said(self.subs@);
            proof {
                assert(all.take(i + 1).drop_last() =~= all.take(i as int));
                assert(all.take(i + 1).last() == self.subs@[i as int]@);
            }
            if str_eq(self.subs[i].sub_id.as_str(), sub_id) {
                found = true;
                proof {
                    assert(all.take(i + 1)[i as int].sub_id == sub_id@);
                }
            } else {
                kept.push(self.subs[i].copy());
                proof {
                    assert(subs_said(kept@) =~= before.push(self.subs@[i as int]@));
                    lemma_has_sub_front(all.take(i + 1), sub_id@);
                }
            }
            i = i + 1;
        }
        proof {
            assert(subs_said(self.subs@).take(i as int) =~= subs_said(self.subs@));
        }
        self.subs = kept;
        found
    }

    /// Registers a subscription, and gives its identifier.
    pub fn subscribe(&mut self, conn_id: u64, channels: Vec<String>, scope: StdioScope) -> (r: String)
        ensures
            r@ == sub_name(old(self)@.sub_counter),
            final(self)@ == subscribed(old(self)@, conn_id, texts(channels@), scope@),
    {
        let sub_id = self.next_sub_id();
        let telemetry = holds(&channels, CH_TELEMETRY);
        let screenshot = holds(&channels, CH_SCREENSHOT);
        let _ = self.unsubscribe(sub_id.as_str());
        let ghost kept = subs_said(self.subs@);
        self.subs.push(Subscriber { sub_id: sub_id.clone(), conn_id, channels, scope });
        proof {
            assert(subs_said(self.subs@) =~= kept.push(SubV { sub_id: sub_id@, conn_id, channels: texts(channels@), scope: scope@ }));
        }
        self.sub_counter = self.sub_counter.wrapping_add(1);
        if telemetry {
            self.telemetry_gen = self.telemetry_gen.wrapping_add(1);
        }
        if screenshot {
            self.screenshot_gen = self.screenshot_gen.wrapping_add(1);
        }
        sub_id
    }

    /// Drops all subscriptions of a connection that has ended.
    pub fn drop_conn(&mut self, conn_id: u64)
        ensures
            final(self)@ == conn_dropped(old(self)@, conn_id),
    {
        let mut kept: Vec<Subscriber> = Vec::new();
        let mut i: usize = 0;
        proof {
            assert(subs_said(self.subs@).take(0) =~= Seq::empty());
            assert(subs_said(kept@) =~= Seq::empty());
        }
        while i < self.subs.len()
            invariant
                i <= self.subs@.len(),
                *self == *old(self),
                subs_said(kept@) == without_conn(subs_said(self.subs@).take(i as int), conn_id),
            decreases self.subs@.len() - i,
        {
            let ghost before = subs_said(kept@);
            let ghost all = subs_said(self.subs@);
            proof {
                assert(all.take(i + 1).drop_last() =~= all.take(i as int));
                assert(all.take(i + 1).last() == self.subs@[i as int]@);
            }
            if self.subs[i].conn_id != conn_id {
                kept.push(self.subs[i].copy());
                proof {
                    assert(subs_said(kept@) =~= before.push(self.subs@[i as int]@));
                }
            }
            i = i + 1;
        }
        proof {
            assert(subs_said(self.subs@).take(i as int) =~= subs_said(self.subs@));
        }
        self.subs = kept;
        self.active_conns = self.active_conns.wrapping_sub(1);
    }

    /// The subscriptions to a channel.
    pub fn collect_targets(&self, channel: &str) -> (r: Vec<Subscriber>)
        ensures
            subs_said(r@) == subs_to(self@.subs, channel@),
    {
        let mut out: Vec<Subscriber> = Vec::new();
        let mut i: usize = 0;
        proof {
            assert(subs_said(self.subs@).take(0) =~= Seq::empty());
            assert(subs_said(out@) =~= Seq::empty());
        }
        while i < self.subs.len()
            invariant
                i <= self.subs@.len(),
                subs_said(out@) == subs_to(subs_said(self.subs@).take(i as int), channel@),
            decreases self.subs@.len() - i,
        {
            let ghost before = subs_said(out@);
            let ghost all = subs_said(self.subs@);
            proof {
                assert(all.take(i + 1).drop_last() =~= all.take(i as int));
                assert(all.take(i + 1).last() == self.subs@[i as int]@);
            }
            if holds(&self.subs[i].channels, channel) {
                out.push(self.subs[i].copy());
                proof {
                    assert(subs_said(out@) =~= before.push(self.subs@[i as int]@));
                }
            }
            i = i + 1;
        }
        proof {
            assert(subs_said(self.subs@).take(i as int) =~= subs_said(self.subs@));
        }
        out
    }

    /// How the source of samples is started, where none runs.
    pub fn ensure_telemetry_source(&self, running: bool, interval_ms: u64) -> (r: Option<SourceRun>)
        ensures
            r == source_run(running, interval_ms, DEFAULT_INTERVAL_MS, self@.telemetry_gen),
    {
        ensure_source(running, interval_ms, DEFAULT_INTERVAL_MS, self.telemetry_gen)
    }

    /// How the source of screenshots is started, where none runs.
    pub fn ensure_screenshot_source(&self, running: bool, interval_ms: u64) -> (r: Option<SourceRun>)
        ensures
            r == source_run(running, interval_ms, DEFAULT_SCREENSHOT_INTERVAL_MS, self@.screenshot_gen),
    {
        ensure_source(running, interval_ms, DEFAULT_SCREENSHOT_INTERVAL_MS, self.screenshot_gen)
    }

    /// What a source does when its time has come.
    fn run_source(&self, channel: &str, start_gen: u64, gen: u64) -> (r: SourceStep)
        ensures
            source_said(r, self@.subs, channel@, start_gen, gen),
    {
        let targets = self.collect_targets(channel);
        if targets.len() > 0 {
            proof {
                assert(subs_said(targets@).len() == targets@.len());
            }
            SourceStep::Sample { targets }
        } else {
            proof {
                assert(subs_said(targets@).len() == 0);
            }
            if gen != start_gen {
                SourceStep::Again
            } else {
                SourceStep::Exit
            }
        }
    }

    /// What the source of samples does when a sample has come in.
    pub fn run_telemetry_source(&self, start_gen: u64) -> (r: SourceStep)
        ensures
            source_said(r, self@.subs, CH_TELEMETRY@, start_gen, self@.telemetry_gen),
    {
        self.run_source(CH_TELEMETRY, start_gen, self.telemetry_gen)
    }

    /// What the source of screenshots does when its time has come.
    pub fn run_screenshot_source(&self, start_gen: u64) -> (r: SourceStep)
        ensures
            source_said(r, self@.subs, CH_SCREENSHOT@, start_gen, self@.screenshot_gen),
    {
        self.run_source(CH_SCREENSHOT, start_gen, self.screenshot_gen)
    }

    /// Pushes what a command writes to the subscriptions that see it.
    pub fn broadcast_stdio(&self, data: &Json, source_conn: u64) -> (r: Vec<Push>)
        ensures
            pushes_said(r@) == stdio_pushes(self@.subs, data@, source_conn),
    {
        let targets = self.collect_targets(CH_STDIO);
        let task_id = data.get_str("task_id");
        let mut seen: Vec<Subscriber> = Vec::new();
        let mut i: usize = 0;
        proof {
            assert(subs_said(targets@).take(0) =~= Seq::empty());
            assert(subs_said(seen@) =~= Seq::empty());
        }
        while i < targets.len()
            invariant
                i <= targets@.len(),
                subs_said(seen@) == subs_allowed(subs_said(targets@).take(i as int), opt_text(task_id), source_conn),
            decreases targets@.len() - i,
        {
            let ghost before = subs_said(seen@);
            let ghost all = subs_said(targets@);
            proof {
                assert(all.take(i + 1).drop_last() =~= all.take(i as int));
                assert(all.take(i + 1).last() == targets@[i as int]@);
            }
            if targets[i].scope.allows(&task_id, source_conn) {
                seen.push(targets[i].copy());
                proof {
                    assert(subs_said(seen@) =~= before.push(targets@[i as int]@));
                }
            }
            i = i + 1;
        }
        proof {
            assert(subs_said(targets@).take(i as int) =~= subs_said(targets@));
        }
        fan_out(&seen, CH_STDIO, data)
    }
}

impl Default for BroadcastHub {
    fn default() -> (r: Self)
        ensures
            r@ == hub_start(),
    {
        Self::new()
    }
}

/// The task that some data is about.
pub open spec fn task_of(data: JsonV) -> Option<Seq<char>> {
    as_text(member(data, "task_id"@))
}

/// The pushes of what a command writes.
pub open spec fn stdio_pushes(subs: Seq<SubV>, data: JsonV, source_conn: u64) -> Seq<PushV> {
    fanned(subs_allowed(subs_to(subs, CH_STDIO@), task_of(data), source_conn), CH_STDIO@, data)
}

/// Where a subscription is looked for among all but the last of some that does not have the
/// identifier, nothing is missed.
proof fn lemma_has_sub_front(subs: Seq<SubV>, sub_id: Seq<char>)
    requires
        subs.len() > 0,
        subs.last().sub_id != sub_id,
    ensures
        has_sub(subs, sub_id) == has_sub(subs.drop_last(), sub_id),
{
    if has_sub(subs, sub_id) {
        let k = choose|k: int| 0 <= k < subs.len() && (#[trigger] subs[k]).sub_id == sub_id;
        assert(subs.drop_last()[k].sub_id == sub_id);
    }
    if has_sub(subs.drop_last(), sub_id) {
        let k = choose|k: int| 0 <= k < subs.drop_last().len() && (#[trigger] subs.drop_last()[k]).sub_id == sub_id;
        assert(subs[k].sub_id == sub_id);
    }
}

/// What came of taking a screenshot.
pub enum Shot<T, J> {
    /// The result of the action.
    Taken(J),
    /// The action failed, for this reason.
    Failed(T),
    /// The action was lost, for this reason.
    Lost(T),
}

impl View for Shot<String, Json> {
    type V = Shot<Seq<char>, JsonV>;

    open spec fn view(&self) -> Shot<Seq<char>, JsonV> {
        match self {
            Shot::Taken(j) => Shot::Taken(j@),
            Shot::Failed(e) => Shot::Failed(e@),
            Shot::Lost(e) => Shot::Lost(e@),
        }
    }
}

/// Whether a result holds a picture that is too large to push.
pub open spec fn is_heavy(j: JsonV) -> bool {
    match as_text(member(j, "screenshot_png_b64"@)) {
        Some(s) => vstd::utf8::encode_utf8(s).len() as usize > MAX_SCREENSHOT_B64_BYTES,
        None => false,
    }
}

/// The data of a failed screenshot.
pub open spec fn shot_failed(message: Seq<char>) -> JsonV {
    with_member(with_member(no_members(), "ok"@, JsonV::Bool(false)), "error"@, JsonV::Str(message))
}

/// The data that is pushed of a screenshot: a picture that is too large is left out, with a mark.
pub open spec fn shot_said(s: Shot<Seq<char>, JsonV>) -> JsonV {
    match s {
        Shot::Taken(j) => if is_heavy(j) {
            with_member(without_member(j, "screenshot_png_b64"@), "screenshot_dropped"@, JsonV::Bool(true))
        } else {
            j
        },
        Shot::Failed(e) => shot_failed("screenshot 失败: "@ + e),
        Shot::Lost(e) => shot_failed("screenshot 任务失败: "@ + e),
    }
}

/// The data that is pushed of a screenshot.
pub fn shot_data(s: Shot<String, Json>) -> (r: Json)
    ensures
        r@ == shot_said(s@),
{
    match s {
        Shot::Taken(j) => {
            let heavy = match j.get_str("screenshot_png_b64") {
                Some(b) => b.as_str().len() > MAX_SCREENSHOT_B64_BYTES,
                None => false,
            };
            if heavy {
                j.without("screenshot_png_b64").with("screenshot_dropped", Json::Bool(true))
            } else {
                j
            }
        },
        Shot::Failed(e) => empty_object().with("ok", Json::Bool(false)).with("error", text(behind("screenshot 失败: ", e.as_str()).as_str())),
        Shot::Lost(e) => empty_object().with("ok", Json::Bool(false)).with("error", text(behind("screenshot 任务失败: ", e.as_str()).as_str())),
    }
}

/// A subscription that is asked for.
pub struct Wanted {
    pub channels: Vec<String>,
    pub scope: StdioScope,
    pub interval_ms: u64,
    pub screenshot_interval_ms: u64,
}

/// What a subscription that is asked for says.
pub struct WantedV {
    pub channels: Seq<Seq<char>>,
    pub scope: ScopeV,
    pub interval_ms: u64,
    pub screenshot_interval_ms: u64,
}

impl View for Wanted {
    type V = WantedV;

    open spec fn view(&self) -> WantedV {
        WantedV {
            channels: texts(self.channels@),
            scope: self.scope@,
            interval_ms: self.interval_ms,
            screenshot_interval_ms: self.screenshot_interval_ms,
        }
    }
}

/// The texts in the array under a name, or none.
pub open spec fn texts_under(params: JsonV, key: Seq<char>) -> Seq<Seq<char>> {
    match as_items(member(params, key)) {
        Some(items) => texts_in(items),
        None => Seq::empty(),
    }
}

/// Some texts in lower case.
pub open spec fn all_lower(ts: Seq<Seq<char>>) -> Seq<Seq<char>> {
    ts.map_values(|t: Seq<char>| lowercase_of(t))
}

/// The channels that a request names, in lower case, each once.
pub open spec fn channels_in(params: JsonV) -> Seq<Seq<char>> {
    once(all_lower(texts_under(params, "channels"@)))
}

/// Whether there is a channel of this name.
pub open spec fn is_channel(name: Seq<char>) -> bool {
    name == CH_TELEMETRY@ || name == CH_STDIO@ || name == CH_SCREENSHOT@
}

/// The names for which there is no channel.
pub open spec fn unknown_in(names: Seq<Seq<char>>) -> Seq<Seq<char>>
    decreases names.len(),
{
    if names.len() == 0 {
        Seq::empty()
    } else if is_channel(names.last()) {
        unknown_in(names.drop_last())
    } else {
        unknown_in(names.drop_last()).push(names.last())
    }
}

/// The scope that a request of a connection asks for, or why it cannot be had.
pub open spec fn scope_in(params: JsonV, conn_id: u64) -> Result<ScopeV, Seq<char>> {
    if as_truth(member(params, "all"@)) == Some(true) {
        Ok(ScopeV::All)
    } else {
        match as_items(member(params, "task_ids"@)) {
            Some(items) => if texts_in(items).len() == 0 {
                Err("task_ids 非空数组 (空集永不匹配, 用 all=true 或省略 task_ids)"@)
            } else {
                Ok(ScopeV::Tasks(texts_in(items)))
            },
            None => Ok(ScopeV::OwnConn(conn_id)),
        }
    }
}

/// A number under a name, or another where there is none.
pub open spec fn nat_or(params: JsonV, key: Seq<char>, otherwise: u64) -> u64 {
    match as_nat(member(params, key)) {
        Some(n) => n,
        None => otherwise,
    }
}

/// The subscription that a request of a connection asks for, or why it cannot be had.
pub open spec fn wanted(params: JsonV, conn_id: u64) -> Result<WantedV, Seq<char>> {
    let channels = channels_in(params);
    if channels.len() == 0 {
        Err("缺少 channels"@)
    } else if unknown_in(channels).len() > 0 {
        Err("未知通道: "@ + joined(unknown_in(channels), ","@) + " (合法: telemetry/stdio/screenshot)"@)
    } else {
        match scope_in(params, conn_id) {
            Ok(scope) => Ok(WantedV {
                channels,
                scope,
                interval_ms: nat_or(params, "interval_ms"@, DEFAULT_INTERVAL_MS),
                screenshot_interval_ms: nat_or(params, "screenshot_interval_ms"@, DEFAULT_SCREENSHOT_INTERVAL_MS),
            }),
            Err(e) => Err(e),
        }
    }
}

/// What a wish says.
pub open spec fn wish_said(r: Result<Wanted, String>) -> Result<WantedV, Seq<char>> {
    match r {
        Ok(w) => Ok(w@),
        Err(e) => Err(e@),
    }
}

/// The channels that a request names.
fn read_channels(params: &Json) -> (r: Vec<String>)
    ensures
        texts(r@) == channels_in(params@),
{
    let named = match params.get_texts("channels") {
        Some(v) => v,
        None => {
            let none: Vec<String> = Vec::new();
            proof {
                assert(texts(none@) =~= Seq::empty());
            }
            none
        },
    };
    let mut low: Vec<String> = Vec::new();
    let mut i: usize = 0;
    while i < named.len()
        invariant
            i <= named@.len(),
            low@.len() == i,
            forall|k: int| 0 <= k < i ==> (#[trigger] low@[k])@ == lowercase_of(named@[k]@),
        decreases named@.len() - i,
    {
        low.push(lowercase(named[i].as_str()));
        i = i + 1;
    }
    proof {
        assert(texts(low@) =~= all_lower(texts(named@)));
    }
    each_once(&low)
}

/// The names for which there is no channel.
fn unknown_channels(names: &Vec<String>) -> (r: Vec<String>)
    ensures
        texts(r@) == unknown_in(texts(names@)),
{
    let mut out: Vec<String> = Vec::new();
    let mut i: usize = 0;
    proof {
        assert(texts(names@).take(0) =~= Seq::empty());
        assert(texts(out@) =~= Seq::empty());
    }
    while i < names.len()
        invariant
            i <= names@.len(),
            texts(out@) == unknown_in(texts(names@).take(i as int)),
        decreases names@.len() - i,
    {
        let ghost before = texts(out@);
        proof {
            assert(texts(names@).take(i + 1).drop_last() =~= texts(names@).take(i as int));
            assert(texts(names@).take(i + 1).last() == names@[i as int]@);
        }
        let name = names[i].as_str();
        if !str_eq(name, CH_TELEMETRY) && !str_eq(name, CH_STDIO) && !str_eq(name, CH_SCREENSHOT) {
            out.push(names[i].clone());
            proof {
                assert(texts(out@) =~= before.push(names@[i as int]@));
            }
        }
        i = i + 1;
    }
    proof {
        assert(texts(names@).take(i as int) =~= texts(names@));
    }
    out
}

/// The scope that a request of a connection asks for, or why it cannot be had.
fn read_scope(params: &Json, conn_id: u64) -> (r: Result<StdioScope, String>)
    ensures
        match r {
            Ok(s) => scope_in(params@, conn_id) == Ok::<ScopeV, Seq<char>>(s@),
            Err(e) => scope_in(params@, conn_id) == Err::<ScopeV, Seq<char>>(e@),
        },
{
    if let Some(true) = params.get_bool("all") {
        return Ok(StdioScope::All);
    }
    match params.get_texts("task_ids") {
        Some(ts) => {
            proof {
                assert(texts(ts@).len() == ts@.len());
            }
            if ts.len() == 0 {
                Err("task_ids 非空数组 (空集永不匹配, 用 all=true 或省略 task_ids)".to_owned())
            } else {
                Ok(StdioScope::Tasks(ts))
            }
        },
        None => Ok(StdioScope::OwnConn(conn_id)),
    }
}

/// A number under a name, or another where there is none.
pub fn u64_or(params: &Json, key: &str, otherwise: u64) -> (r: u64)
    ensures
        r == nat_or(params@, key@, otherwise),
{
    match params.get_u64(key) {
        Some(n) => n,
        None => otherwise,
    }
}

/// The subscription that a request of a connection asks for, or why it cannot be had.
pub fn subscription_wanted(params: &Json, conn_id: u64) -> (r: Result<Wanted, String>)
    ensures
        wish_said(r) == wanted(params@, conn_id),
{
    let channels = read_channels(params);
    proof {
        assert(texts(channels@).len() == channels@.len());
    }
    if channels.len() == 0 {
        return Err("缺少 channels".to_owned());
    }
    let unknown = unknown_channels(&channels);
    proof {
        assert(texts(unknown@).len() == unknown@.len());
    }
    if unknown.len() > 0 {
        let mut why = behind("未知通道: ", join(&unknown, ",").as_str());
        why.append(" (合法: telemetry/stdio/screenshot)");
        return Err(why);
    }
    match read_scope(params, conn_id) {
        Ok(scope) => Ok(Wanted {
            channels,
            scope,
            interval_ms: u64_or(params, "interval_ms", DEFAULT_INTERVAL_MS),
            screenshot_interval_ms: u64_or(params, "screenshot_interval_ms", DEFAULT_SCREENSHOT_INTERVAL_MS),
        }),
        Err(e) => Err(e),
    }
}

/// What comes of a request for a subscription: the reply, and the intervals of the sources that must
/// run for it.
pub struct Subscribing {
    pub reply: Json,
    pub telemetry_ms: Option<u64>,
    pub screenshot_ms: Option<u64>,
}

/// The reply to a request for a subscription.
pub open spec fn subscribe_reply(h: HubV, id: JsonV, params: JsonV, conn_id: u64) -> JsonV {
    match wanted(params, conn_id) {
        Ok(w) => ok_said(id, with_member(with_member(no_members(), "ok"@, JsonV::Bool(true)), "subscription_id"@, JsonV::Str(sub_name(h.sub_counter)))),
        Err(e) => err_said(id, ERR_INVALID_REQ, e),
    }
}

/// The hub behind a request for a subscription.
pub open spec fn subscribe_next(h: HubV, params: JsonV, conn_id: u64) -> HubV {
    match wanted(params, conn_id) {
        Ok(w) => subscribed(h, conn_id, w.channels, w.scope),
        Err(e) => h,
    }
}

/// The interval of a source that must run for a request for a subscription.
pub open spec fn source_wanted(params: JsonV, conn_id: u64, channel: Seq<char>) -> Option<u64> {
    match wanted(params, conn_id) {
        Ok(w) => if w.channels.contains(channel) {
            Some(
                if channel == CH_TELEMETRY@ {
                    w.interval_ms
                } else {
                    w.screenshot_interval_ms
                },
            )
        } else {
            None
        },
        Err(e) => None,
    }
}

/// The reply to a request for the end of a subscription.
pub open spec fn unsubscribe_reply(h: HubV, id: JsonV, params: JsonV) -> JsonV {
    match as_text(member(params, "subscription_id"@)) {
        Some(s) => ok_said(id, with_member(no_members(), "ok"@, JsonV::Bool(has_sub(h.subs, s)))),
        None => err_said(id, ERR_INVALID_REQ, "缺少 subscription_id"@),
    }
}

/// The hub behind a request for the end of a subscription.
pub open spec fn unsubscribe_next(h: HubV, params: JsonV) -> HubV {
    match as_text(member(params, "subscription_id"@)) {
        Some(s) => unsubscribed(h, s),
        None => h,
    }
}

impl BroadcastHub {
    /// Answers a request for a subscription.
    pub fn handle_subscribe(&mut self, id: Json, params: &Json, conn_id: u64) -> (r: Subscribing)
        ensures
            r.reply@ == subscribe_reply(old(self)@, id@, params@, conn_id),
            r.telemetry_ms == source_wanted(params@, conn_id, CH_TELEMETRY@),
            r.screenshot_ms == source_wanted(params@, conn_id, CH_SCREENSHOT@),
            final(self)@ == subscribe_next(old(self)@, params@, conn_id),
    {
        proof {
            reveal_strlit("telemetry");
            reveal_strlit("screenshot");
            assert(CH_TELEMETRY@.len() != CH_SCREENSHOT@.len());
        }
        match subscription_wanted(params, conn_id) {
            Ok(w) => {
                let telemetry_ms = if holds(&w.channels, CH_TELEMETRY) {
                    Some(w.interval_ms)
                } else {
                    None
                };
                let screenshot_ms = if holds(&w.channels, CH_SCREENSHOT) {
                    Some(w.screenshot_interval_ms)
                } else {
                    None
                };
                let sub_id = self.subscribe(conn_id, w.channels, w.scope);
                let result = empty_object().with("ok", Json::Bool(true)).with("subscription_id", text(sub_id.as_str()));
                Subscribing { reply: ok_resp(id, result), telemetry_ms, screenshot_ms }
            },
            Err(e) => Subscribing { reply: err_resp(id, ERR_INVALID_REQ, e.as_str()), telemetry_ms: None, screenshot_ms: None },
        }
    }

    /// Answers a request for the end of a subscription.
    pub fn handle_unsubscribe(&mut self, id: Json, params: &Json) -> (r: Json)
        ensures
            r@ == unsubscribe_reply(old(self)@, id@, params@),
            final(self)@ == unsubscribe_next(old(self)@, params@),
    {
        match params.get_str("subscription_id") {
            Some(s) => {
                let ok = self.unsubscribe(s.as_str());
                ok_resp(id, empty_object().with("ok", Json::Bool(ok)))
            },
            None => err_resp(id, ERR_INVALID_REQ, "缺少 subscription_id"),
        }
    }
}

/// Whether the hub may stand as it does: each subscription has a number that was given out, no two
/// have the same identifier, and one that sees only the commands of a connection sees those of its
/// own.
pub open spec fn hub_is_sound(h: HubV) -> bool {
    &&& forall|k: int| 0 <= k < h.subs.len() ==> is_numbered(#[trigger] h.subs[k], h.sub_counter)
    &&& forall|i: int, j: int| 0 <= i < j < h.subs.len() ==> (#[trigger] h.subs[i]).sub_id != (#[trigger] h.subs[j]).sub_id
    &&& forall|k: int| 0 <= k < h.subs.len() ==> sees_its_own(#[trigger] h.subs[k])
}

/// Whether a subscription has a number that was given out.
pub open spec fn is_numbered(s: SubV, next: u64) -> bool {
    exists|n: u64| n < next && s.sub_id == #[trigger] sub_name(n)
}

/// Whether a subscription that sees only the commands of a connection sees those of its own.
pub open spec fn sees_its_own(s: SubV) -> bool {
    s.scope matches ScopeV::OwnConn(c) ==> c == s.conn_id
}

/// What is left without one identifier was there before, in the same order, and has another one.
proof fn lemma_without_sub(subs: Seq<SubV>, sub_id: Seq<char>)
    ensures
        forall|k: int| 0 <= k < without_sub(subs, sub_id).len() ==> {
            &&& (#[trigger] without_sub(subs, sub_id)[k]).sub_id != sub_id
            &&& subs.contains(without_sub(subs, sub_id)[k])
        },
        (forall|i: int, j: int| 0 <= i < j < subs.len() ==> (#[trigger] subs[i]).sub_id != (#[trigger] subs[j]).sub_id) ==> (
        forall|i: int, j: int| 0 <= i < j < without_sub(subs, sub_id).len() ==> (#[trigger] without_sub(subs, sub_id)[i]).sub_id != (#[trigger] without_sub(subs, sub_id)[j]).sub_id),
        !has_sub(subs, sub_id) ==> without_sub(subs, sub_id) == subs,
    decreases subs.len(),
{
    if subs.len() > 0 {
        let front = subs.drop_last();
        lemma_without_sub(front, sub_id);
        let out = without_sub(subs, sub_id);
        let before = without_sub(front, sub_id);
        assert forall|k: int| 0 <= k < out.len() implies (#[trigger] out[k]).sub_id != sub_id && subs.contains(out[k]) by {
            if k < before.len() {
                assert(out[k] == before[k]);
                let j = choose|j: int| 0 <= j < front.len() && front[j] == before[k];
                assert(subs[j] == out[k]);
            } else {
                assert(subs[subs.len() - 1] == out[k]);
            }
        }
        if forall|i: int, j: int| 0 <= i < j < subs.len() ==> (#[trigger] subs[i]).sub_id != (#[trigger] subs[j]).sub_id {
            assert forall|i: int, j: int| 0 <= i < j < front.len() implies (#[trigger] front[i]).sub_id != (#[trigger] front[j]).sub_id by {
                assert(subs[i].sub_id != subs[j].sub_id);
            }
            assert forall|i: int, j: int| 0 <= i < j < out.len() implies (#[trigger] out[i]).sub_id != (#[trigger] out[j]).sub_id by {
                assert(out[i] == before[i]);
                if j < before.len() {
                    assert(out[j] == before[j]);
                } else {
                    let a = choose|a: int| 0 <= a < front.len() && front[a] == before[i];
                    assert(subs[a].sub_id != subs[subs.len() - 1].sub_id);
                }
            }
        }
        if !has_sub(subs, sub_id) {
            assert(subs[subs.len() - 1].sub_id != sub_id);
            lemma_has_sub_front(subs, sub_id);
            assert(out =~= subs);
        }
    }
}

/// What is left without one connection was there before, in the same order, and belongs to another.
proof fn lemma_without_conn(subs: Seq<SubV>, conn_id: u64)
    ensures
        forall|k: int| 0 <= k < without_conn(subs, conn_id).len() ==> {
            &&& (#[trigger] without_conn(subs, conn_id)[k]).conn_id != conn_id
            &&& subs.contains(without_conn(subs, conn_id)[k])
        },
        (forall|i: int, j: int| 0 <= i < j < subs.len() ==> (#[trigger] subs[i]).sub_id != (#[trigger] subs[j]).sub_id) ==> (
        forall|i: int, j: int| 0 <= i < j < without_conn(subs, conn_id).len() ==> (#[trigger] without_conn(subs, conn_id)[i]).sub_id != (#[trigger] without_conn(subs, conn_id)[j]).sub_id),
    decreases subs.len(),
{
    if subs.len() > 0 {
        let front = subs.drop_last();
        lemma_without_conn(front, conn_id);
        let out = without_conn(subs, conn_id);
        let before = without_conn(front, conn_id);
        assert forall|k: int| 0 <= k < out.len() implies (#[trigger] out[k]).conn_id != conn_id && subs.contains(out[k]) by {
            if k < before.len() {
                assert(out[k] == before[k]);
                let j = choose|j: int| 0 <= j < front.len() && front[j] == before[k];
                assert(subs[j] == out[k]);
            } else {
                assert(subs[subs.len() - 1] == out[k]);
            }
        }
        if forall|i: int, j: int| 0 <= i < j < subs.len() ==> (#[trigger] subs[i]).sub_id != (#[trigger] subs[j]).sub_id {
            assert forall|i: int, j: int| 0 <= i < j < front.len() implies (#[trigger] front[i]).sub_id != (#[trigger] front[j]).sub_id by {
                assert(subs[i].sub_id != subs[j].sub_id);
            }
            assert forall|i: int, j: int| 0 <= i < j < out.len() implies (#[trigger] out[i]).sub_id != (#[trigger] out[j]).sub_id by {
                assert(out[i] == before[i]);
                if j < before.len() {
                    assert(out[j] == before[j]);
                } else {
                    let a = choose|a: int| 0 <= a < front.len() && front[a] == before[i];
                    assert(subs[a].sub_id != subs[subs.len() - 1].sub_id);
                }
            }
        }
    }
}

/// Two numbers give two identifiers.
proof fn lemma_names_differ(a: u64, b: u64)
    requires
        a != b,
    ensures
        sub_name(a) != sub_name(b),
{
    reveal_strlit("sub-");
    if sub_name(a) == sub_name(b) {
        assert(sub_name(a).skip(4) =~= dec(a as nat));
        assert(sub_name(b).skip(4) =~= dec(b as nat));
        law_decimal_is_injective(a as nat, b as nat);
    }
}

/// A new subscription has an identifier that no other has, and the hub stays sound; numbers are
/// given out again only after two to the power of 64 of them.
pub proof fn law_new_subscription_is_fresh(h: HubV, params: JsonV, conn_id: u64)
    requires
        hub_is_sound(h),
        h.sub_counter < u64::MAX,
    ensures
        !has_sub(h.subs, sub_name(h.sub_counter)),
        hub_is_sound(subscribe_next(h, params, conn_id)),
        wanted(params, conn_id) matches Ok(w) ==> subscribe_next(h, params, conn_id).subs == h.subs.push(SubV {
            sub_id: sub_name(h.sub_counter),
            conn_id,
            channels: w.channels,
            scope: w.scope,
        }),
{
    let name = sub_name(h.sub_counter);
    assert forall|k: int| 0 <= k < h.subs.len() implies (#[trigger] h.subs[k]).sub_id != name by {
        assert(is_numbered(h.subs[k], h.sub_counter));
        let n = choose|n: u64| n < h.sub_counter && h.subs[k].sub_id == #[trigger] sub_name(n);
        lemma_names_differ(n, h.sub_counter);
    }
    lemma_without_sub(h.subs, name);
    let next = subscribe_next(h, params, conn_id);
    if wanted(params, conn_id) is Ok {
        assert forall|k: int| 0 <= k < next.subs.len() implies is_numbered(#[trigger] next.subs[k], next.sub_counter) by {
            if k < h.subs.len() {
                assert(next.subs[k] == h.subs[k]);
                let n = choose|n: u64| n < h.sub_counter && h.subs[k].sub_id == #[trigger] sub_name(n);
                assert(n < next.sub_counter && next.subs[k].sub_id == sub_name(n));
            } else {
                assert(h.sub_counter < next.sub_counter && next.subs[k].sub_id == sub_name(h.sub_counter));
            }
        }
    }
}

/// The hub stays sound when a subscription or a connection ends, or a connection is made.
pub proof fn law_hub_stays_sound(h: HubV, sub_id: Seq<char>, conn_id: u64)
    requires
        hub_is_sound(h),
    ensures
        hub_is_sound(unsubscribed(h, sub_id)),
        hub_is_sound(conn_dropped(h, conn_id)),
        hub_is_sound(conn_opened(h)),
        hub_is_sound(hub_start()),
{
    lemma_without_sub(h.subs, sub_id);
    lemma_without_conn(h.subs, conn_id);
    let a = unsubscribed(h, sub_id);
    assert forall|k: int| 0 <= k < a.subs.len() implies is_numbered(#[trigger] a.subs[k], a.sub_counter) && sees_its_own(a.subs[k]) by {
        let j = choose|j: int| 0 <= j < h.subs.len() && h.subs[j] == a.subs[k];
        assert(is_numbered(h.subs[j], h.sub_counter) && sees_its_own(h.subs[j]));
    }
    let b = conn_dropped(h, conn_id);
    assert forall|k: int| 0 <= k < b.subs.len() implies is_numbered(#[trigger] b.subs[k], b.sub_counter) && sees_its_own(b.subs[k]) by {
        let j = choose|j: int| 0 <= j < h.subs.len() && h.subs[j] == b.subs[k];
        assert(is_numbered(h.subs[j], h.sub_counter) && sees_its_own(h.subs[j]));
    }
}

/// What is pushed of a channel is pushed to somebody who has subscribed to it.
proof fn lemma_subs_to(subs: Seq<SubV>, channel: Seq<char>, k: int)
    requires
        0 <= k < subs_to(subs, channel).len(),
    ensures
        subs.contains(subs_to(subs, channel)[k]),
        subs_to(subs, channel)[k].channels.contains(channel),
    decreases subs.len(),
{
    let front = subs.drop_last();
    let out = subs_to(subs, channel);
    if k < subs_to(front, channel).len() {
        lemma_subs_to(front, channel, k);
        let j = choose|j: int| 0 <= j < front.len() && front[j] == subs_to(front, channel)[k];
        assert(subs[j] == out[k]);
    } else {
        assert(subs[subs.len() - 1] == out[k]);
    }
}

/// What a command writes is pushed to somebody who sees it.
proof fn lemma_subs_allowed(subs: Seq<SubV>, task_id: Option<Seq<char>>, source_conn: u64, k: int)
    requires
        0 <= k < subs_allowed(subs, task_id, source_conn).len(),
    ensures
        subs.contains(subs_allowed(subs, task_id, source_conn)[k]),
        allowed(subs_allowed(subs, task_id, source_conn)[k].scope, task_id, source_conn),
    decreases subs.len(),
{
    let front = subs.drop_last();
    let out = subs_allowed(subs, task_id, source_conn);
    if k < subs_allowed(front, task_id, source_conn).len() {
        lemma_subs_allowed(front, task_id, source_conn, k);
        let j = choose|j: int| 0 <= j < front.len() && front[j] == subs_allowed(front, task_id, source_conn)[k];
        assert(subs[j] == out[k]);
    } else {
        assert(subs[subs.len() - 1] == out[k]);
    }
}

/// Whether a push of what a command writes is owed to a subscription that sees the command.
pub open spec fn is_owed(s: SubV, p: PushV, data: JsonV, source_conn: u64) -> bool {
    &&& s.channels.contains(CH_STDIO@)
    &&& allowed(s.scope, task_of(data), source_conn)
    &&& p == push_to(s, CH_STDIO@, data)
}

/// What a command writes is pushed only to subscriptions to that channel which see the command.
pub proof fn law_stdio_goes_to_those_who_see_it(subs: Seq<SubV>, data: JsonV, source_conn: u64, k: int)
    requires
        0 <= k < stdio_pushes(subs, data, source_conn).len(),
    ensures
        exists|j: int| 0 <= j < subs.len() && is_owed(#[trigger] subs[j], stdio_pushes(subs, data, source_conn)[k], data, source_conn),
{
    let to = subs_to(subs, CH_STDIO@);
    let seen = subs_allowed(to, task_of(data), source_conn);
    lemma_subs_allowed(to, task_of(data), source_conn, k);
    let i = choose|i: int| 0 <= i < to.len() && to[i] == seen[k];
    lemma_subs_to(subs, CH_STDIO@, i);
    let j = choose|j: int| 0 <= j < subs.len() && subs[j] == to[i];
    assert(is_owed(subs[j], stdio_pushes(subs, data, source_conn)[k], data, source_conn));
}

/// What a command writes reaches another connection than its own only where a subscription of that
/// connection asks for all commands, or names the task.
pub proof fn law_stdio_is_kept_apart(h: HubV, data: JsonV, source_conn: u64, k: int)
    requires
        hub_is_sound(h),
        0 <= k < stdio_pushes(h.subs, data, source_conn).len(),
        stdio_pushes(h.subs, data, source_conn)[k].conn_id != source_conn,
    ensures
        exists|j: int| {
            &&& 0 <= j < h.subs.len()
            &&& (#[trigger] h.subs[j]).conn_id == stdio_pushes(h.subs, data, source_conn)[k].conn_id
            &&& h.subs[j].scope is All || h.subs[j].scope is Tasks
            &&& allowed(h.subs[j].scope, task_of(data), source_conn)
        },
{
    law_stdio_goes_to_those_who_see_it(h.subs, data, source_conn, k);
    let p = stdio_pushes(h.subs, data, source_conn)[k];
    let j = choose|j: int| 0 <= j < h.subs.len() && is_owed(#[trigger] h.subs[j], p, data, source_conn);
    assert(sees_its_own(h.subs[j]));
    assert(h.subs[j].conn_id == p.conn_id);
}

/// A subscription that has ended is gone.
pub proof fn law_ended_subscription_is_gone(h: HubV, sub_id: Seq<char>)
    ensures
        !has_sub(unsubscribed(h, sub_id).subs, sub_id),
{
    lemma_without_sub(h.subs, sub_id);
}

/// Nothing is pushed to a connection that has ended.
pub proof fn law_ended_connection_gets_nothing(h: HubV, conn_id: u64, data: JsonV, source_conn: u64, k: int)
    requires
        0 <= k < stdio_pushes(conn_dropped(h, conn_id).subs, data, source_conn).len(),
    ensures
        stdio_pushes(conn_dropped(h, conn_id).subs, data, source_conn)[k].conn_id != conn_id,
{
    let subs = conn_dropped(h, conn_id).subs;
    lemma_without_conn(h.subs, conn_id);
    law_stdio_goes_to_those_who_see_it(subs, data, source_conn, k);
    let j = choose|j: int| 0 <= j < subs.len() && is_owed(#[trigger] subs[j], stdio_pushes(subs, data, source_conn)[k], data, source_conn);
    assert(subs[j].conn_id != conn_id);
}

/// The generation of the source behind a channel: that of the pictures, or that of the samples.
pub open spec fn source_gen(h: HubV, channel: Seq<char>) -> u64 {
    if channel == CH_SCREENSHOT@ {
        h.screenshot_gen
    } else {
        h.telemetry_gen
    }
}

/// A source, of samples or of pictures, does not end while somebody has subscribed since it started:
/// a subscription changes the generation, and so keeps the source running.
pub proof fn law_subscription_keeps_the_source(h: HubV, conn_id: u64, channels: Seq<Seq<char>>, scope: ScopeV, sub_id: Seq<char>, channel: Seq<char>, r: SourceStep)
    requires
        channel == CH_TELEMETRY@ || channel == CH_SCREENSHOT@,
        channels.contains(channel),
        ({
            let after = unsubscribed(subscribed(h, conn_id, channels, scope), sub_id);
            source_said(r, after.subs, channel, source_gen(h, channel), source_gen(after, channel))
        }),
    ensures
        !(r is Exit),
{
}

/// A picture that is pushed is never too large.
pub proof fn law_pushed_picture_is_light(s: Shot<Seq<char>, JsonV>)
    ensures
        !is_heavy(shot_said(s)),
{
    reveal_strlit("screenshot_png_b64");
    reveal_strlit("screenshot_dropped");
    reveal_strlit("ok");
    reveal_strlit("error");
    assert("screenshot_png_b64"@.len() == 18);
    assert("screenshot_dropped"@.len() == 18);
    assert("screenshot_png_b64"@[11] == 'p');
    assert("screenshot_dropped"@[11] == 'd');
    assert("ok"@.len() == 2);
    assert("error"@.len() == 5);
}

/// When a subscription ends, all others stay, in their order.
pub proof fn law_ended_subscription_leaves_the_others(subs: Seq<SubV>, sub_id: Seq<char>)
    ensures
        without_sub(subs, sub_id) == subs.filter(|s: SubV| s.sub_id != sub_id),
    decreases subs.len(),
{
    reveal(Seq::filter);
    if subs.len() > 0 {
        law_ended_subscription_leaves_the_others(subs.drop_last(), sub_id);
    }
}

/// When a connection ends, the subscriptions of all others stay, in their order.
pub proof fn law_ended_connection_leaves_the_others(subs: Seq<SubV>, conn_id: u64)
    ensures
        without_conn(subs, conn_id) == subs.filter(|s: SubV| s.conn_id != conn_id),
    decreases subs.len(),
{
    reveal(Seq::filter);
    if subs.len() > 0 {
        law_ended_connection_leaves_the_others(subs.drop_last(), conn_id);
    }
}

/// A channel reaches all who have subscribed to it, in their order, and no others.
pub proof fn law_channel_reaches_its_subscribers(subs: Seq<SubV>, channel: Seq<char>)
    ensures
        subs_to(subs, channel) == subs.filter(|s: SubV| s.channels.contains(channel)),
    decreases subs.len(),
{
    reveal(Seq::filter);
    if subs.len() > 0 {
        law_channel_reaches_its_subscribers(subs.drop_last(), channel);
    }
}

/// The output of a command reaches all whose scope lets them see it, in their order, and no others.
pub proof fn law_output_reaches_those_who_may_see_it(subs: Seq<SubV>, task_id: Option<Seq<char>>, source_conn: u64)
    ensures
        subs_allowed(subs, task_id, source_conn) == subs.filter(|s: SubV| sees(s.scope, task_id, source_conn)),
    decreases subs.len(),
{
    reveal(Seq::filter);
    if subs.len() > 0 {
        law_output_reaches_those_who_may_see_it(subs.drop_last(), task_id, source_conn);
    }
}

/// The names of no channel are all told, in their order.
pub proof fn law_unknown_channels_are_told(names: Seq<Seq<char>>)
    ensures
        unknown_in(names) == names.filter(|n: Seq<char>| n != "telemetry"@ && n != "stdio"@ && n != "screenshot"@),
    decreases names.len(),
{
    reveal(Seq::filter);
    if names.len() > 0 {
        law_unknown_channels_are_told(names.drop_last());
    }
}

/// Whether a scope lets a subscription see a command: all commands, those of its own connection, or
/// those of the tasks that it names.
pub open spec fn sees(s: ScopeV, task_id: Option<Seq<char>>, source_conn: u64) -> bool {
    ||| s is All
    ||| s is OwnConn && s->OwnConn_0 == source_conn
    ||| s is Tasks && task_id is Some && s->Tasks_0.contains(task_id->0)
}

/// Each who is reached gets one push, in their order: to the connection of the subscription, with its
/// name, the channel and what there is to tell.
pub proof fn law_each_target_gets_one_push(subs: Seq<SubV>, channel: Seq<char>, data: JsonV, i: int)
    requires
        0 <= i < subs.len(),
    ensures
        fanned(subs, channel, data).len() == subs.len(),
        fanned(subs, channel, data)[i].conn_id == subs[i].conn_id,
        fanned(subs, channel, data)[i].frame == event_said(subs[i].sub_id, channel, data),
{
}

/// What a command writes is pushed to each subscription to output that may see the command.
pub proof fn law_output_is_pushed_to_all_who_see_it(subs: Seq<SubV>, data: JsonV, source_conn: u64, j: int)
    requires
        0 <= j < subs.len(),
        subs[j].channels.contains("stdio"@),
        sees(subs[j].scope, task_of(data), source_conn),
    ensures
        exists|k: int| 0 <= k < stdio_pushes(subs, data, source_conn).len() && (#[trigger] stdio_pushes(subs, data, source_conn)[k]).conn_id == subs[j].conn_id && stdio_pushes(subs, data, source_conn)[k].frame == event_said(subs[j].sub_id, "stdio"@, data),
{
    let to = subs_to(subs, "stdio"@);
    let seen = subs_allowed(to, task_of(data), source_conn);
    law_channel_reaches_its_subscribers(subs, "stdio"@);
    law_output_reaches_those_who_may_see_it(to, task_of(data), source_conn);
    let on = |s: SubV| s.channels.contains("stdio"@);
    let may = |s: SubV| sees(s.scope, task_of(data), source_conn);
    subs.lemma_filter_contains(on, j);
    let i = choose|i: int| 0 <= i < to.len() && to[i] == subs[j];
    to.lemma_filter_contains(may, i);
    let k = choose|k: int| 0 <= k < seen.len() && seen[k] == subs[j];
    assert(stdio_pushes(subs, data, source_conn)[k] == push_to(seen[k], "stdio"@, data));
}

/// The task of an event is the text under that name in it.
pub proof fn law_task_is_named_in_the_event(data: JsonV)
    ensures
        task_of(data) matches Some(t) ==> (data matches JsonV::Obj(m) && m.contains_key("task_id"@) && m["task_id"@] == JsonV::Str(t)),
        task_of(data) is None ==> !(data matches JsonV::Obj(m) && m.contains_key("task_id"@) && m["task_id"@] is Str),
{
}

/// A new subscription comes behind the others, and is what was asked for; it wakes just the sources
/// of the channels that it asks for.
pub proof fn law_new_subscription_is_what_was_asked_for(h: HubV, conn_id: u64, channels: Seq<Seq<char>>, scope: ScopeV)
    requires
        hub_is_sound(h),
        h.sub_counter < u64::MAX,
    ensures
        ({
            let after = subscribed(h, conn_id, channels, scope);
            &&& after.subs.len() > 0
            &&& after.subs.last().conn_id == conn_id && after.subs.last().channels == channels && after.subs.last().scope == scope
            &&& after.subs.last().sub_id == "sub-"@ + dec(h.sub_counter as nat)
            &&& after.subs.drop_last() == h.subs
            &&& after.sub_counter == h.sub_counter + 1
            &&& channels.contains("telemetry"@) <==> after.telemetry_gen != h.telemetry_gen
            &&& channels.contains("screenshot"@) <==> after.screenshot_gen != h.screenshot_gen
            &&& after.conn_counter == h.conn_counter && after.active_conns == h.active_conns
        }),
{
    law_new_subscription_is_fresh(h, JsonV::Null, conn_id);
    lemma_without_sub(h.subs, sub_name(h.sub_counter));
    assert(subscribed(h, conn_id, channels, scope).subs.drop_last() =~= without_sub(h.subs, sub_name(h.sub_counter)));
}

/// Connections are numbered and counted as they come and go.
pub proof fn law_connections_are_counted(h: HubV, conn_id: u64)
    ensures
        h.conn_counter < u64::MAX ==> conn_opened(h).conn_counter == h.conn_counter + 1,
        h.active_conns < u64::MAX ==> conn_opened(h).active_conns == h.active_conns + 1,
        conn_opened(h).subs == h.subs,
        h.active_conns > 0 ==> conn_dropped(h, conn_id).active_conns == h.active_conns - 1,
        conn_dropped(h, conn_id).conn_counter == h.conn_counter,
        conn_dropped(conn_opened(h), conn_id).active_conns == h.active_conns,
        hub_start().subs.len() == 0 && hub_start().active_conns == 0,
{
}

/// A source that runs is not started again; one that does not is started at the pace asked for, or
/// at its own where none was, and knows from which generation on.
pub proof fn law_source_is_started_once(running: bool, interval_ms: u64, otherwise: u64, gen: u64)
    ensures
        running <==> source_run(running, interval_ms, otherwise, gen) is None,
        !running ==> (source_run(running, interval_ms, otherwise, gen) matches Some(r) && r.start_gen == gen && (interval_ms > 0 ==> r.interval_ms == interval_ms) && (interval_ms == 0 ==> r.interval_ms == otherwise)),
{
}

/// A source samples for all who have subscribed to its channel. With none it ends, unless somebody
/// has subscribed since it started.
pub proof fn law_source_samples_for_its_subscribers(r: SourceStep, subs: Seq<SubV>, channel: Seq<char>, start_gen: u64, gen: u64)
    requires
        source_said(r, subs, channel, start_gen, gen),
    ensures
        ({
            let to = subs.filter(|s: SubV| s.channels.contains(channel));
            &&& r is Sample <==> to.len() > 0
            &&& r matches SourceStep::Sample { targets } ==> subs_said(targets@) == to
            &&& r is Exit <==> to.len() == 0 && gen == start_gen
            &&& r is Again <==> to.len() == 0 && gen != start_gen
        }),
{
    law_channel_reaches_its_subscribers(subs, channel);
}

/// A picture that is small enough is told as it is; one that is too large is told without its pixels
/// and with a mark for that, and with all else that it says. One that could not be taken is told as
/// an error with its reason.
pub proof fn law_picture_is_told(s: Shot<Seq<char>, JsonV>)
    ensures
        s matches Shot::Taken(j) ==> {
            let told = shot_said(s);
            &&& !is_heavy(j) ==> told == j
            &&& is_heavy(j) && j is Obj ==> {
                &&& told is Obj
                &&& !told->Obj_0.contains_key("screenshot_png_b64"@)
                &&& told->Obj_0.contains_key("screenshot_dropped"@) && told->Obj_0["screenshot_dropped"@] == JsonV::Bool(true)
                &&& forall|k: Seq<char>| k != "screenshot_png_b64"@ && k != "screenshot_dropped"@ && #[trigger] j->Obj_0.contains_key(k) ==> told->Obj_0.contains_key(k) && told->Obj_0[k] == j->Obj_0[k]
            }
        },
        s matches Shot::Failed(e) ==> (shot_said(s) matches JsonV::Obj(m) && m["ok"@] == JsonV::Bool(false) && m["error"@] == JsonV::Str("screenshot 失败: "@ + e)),
        s matches Shot::Lost(e) ==> (shot_said(s) matches JsonV::Obj(m) && m["ok"@] == JsonV::Bool(false) && m["error"@] == JsonV::Str("screenshot 任务失败: "@ + e)),
{
    reveal_strlit("screenshot_png_b64");
    reveal_strlit("screenshot_dropped");
    reveal_strlit("ok");
    reveal_strlit("error");
    assert("screenshot_png_b64"@[11] == 'p' && "screenshot_dropped"@[11] == 'd');
    assert("ok"@.len() == 2 && "error"@.len() == 5);
}

/// A subscription that asks for all commands gets all; one that names tasks gets these, and must name
/// one; and any other gets those of its own connection.
pub proof fn law_scope_is_what_was_asked_for(params: JsonV, conn_id: u64)
    ensures
        ({
            let all = params matches JsonV::Obj(m) && m.contains_key("all"@) && m["all"@] == JsonV::Bool(true);
            let tasks = params is Obj && params->Obj_0.contains_key("task_ids"@) && params->Obj_0["task_ids"@] is Arr;
            &&& all ==> scope_in(params, conn_id) == Ok::<ScopeV, Seq<char>>(ScopeV::All)
            &&& !all && !tasks ==> scope_in(params, conn_id) == Ok::<ScopeV, Seq<char>>(ScopeV::OwnConn(conn_id))
            &&& !all && tasks ==> {
                let ts = texts_in(params->Obj_0["task_ids"@]->Arr_0);
                &&& ts.len() > 0 ==> scope_in(params, conn_id) == Ok::<ScopeV, Seq<char>>(ScopeV::Tasks(ts))
                &&& ts.len() == 0 ==> scope_in(params, conn_id) is Err
            }
        }),
{
}

/// A subscription is accepted where it names channels, and only such as there are; it is for these,
/// at the pace asked for, or ten samples and one picture in a second.
pub proof fn law_subscription_is_accepted_for_its_channels(params: JsonV, conn_id: u64)
    ensures
        ({
            let names = channels_in(params);
            let known = forall|i: int| 0 <= i < names.len() ==> (#[trigger] names[i] == "telemetry"@ || names[i] == "stdio"@ || names[i] == "screenshot"@);
            &&& wanted(params, conn_id) is Ok <==> names.len() > 0 && known && scope_in(params, conn_id) is Ok
            &&& wanted(params, conn_id) matches Ok(w) ==> {
                &&& w.channels == names && Ok::<ScopeV, Seq<char>>(w.scope) == scope_in(params, conn_id)
                &&& w.interval_ms == nat_or(params, "interval_ms"@, 100)
                &&& w.screenshot_interval_ms == nat_or(params, "screenshot_interval_ms"@, 1000)
            }
        }),
{
    let names = channels_in(params);
    law_unknown_channels_are_told(names);
    let odd = |n: Seq<char>| n != "telemetry"@ && n != "stdio"@ && n != "screenshot"@;
    if unknown_in(names).len() > 0 {
        let x = unknown_in(names)[0];
        names.lemma_filter_pred(odd, 0);
        names.lemma_filter_contains_rev(odd, x);
        let i = choose|i: int| 0 <= i < names.len() && names[i] == x;
        assert(odd(names[i]));
    } else {
        assert forall|i: int| 0 <= i < names.len() implies (#[trigger] names[i] == "telemetry"@ || names[i] == "stdio"@ || names[i] == "screenshot"@) by {
            if odd(names[i]) {
                names.lemma_filter_contains(odd, i);
            }
        }
    }
}

/// A number that a request gives is taken, and another where it gives none.
pub proof fn law_number_is_taken_or_the_other(params: JsonV, key: Seq<char>, otherwise: u64, n: u64)
    ensures
        (params matches JsonV::Obj(m) && m.contains_key(key) && m[key] == JsonV::UInt(n)) ==> nat_or(params, key, otherwise) == n,
        !(params matches JsonV::Obj(m) && m.contains_key(key) && m[key] is UInt) ==> nat_or(params, key, otherwise) == otherwise,
{
}

/// A request to subscribe that is accepted is answered with the name of the subscription that it
/// made, and starts the sources of its channels at its pace; one that is refused is answered with
/// the reason and changes nothing.
pub proof fn law_subscriber_is_answered(h: HubV, id: JsonV, params: JsonV, conn_id: u64)
    ensures
        wanted(params, conn_id) matches Ok(w) ==> {
            &&& subscribe_reply(h, id, params, conn_id) matches JsonV::Obj(m) && m["id"@] == id && m.contains_key("result"@) && (m["result"@] matches JsonV::Obj(r) && r["ok"@] == JsonV::Bool(true) && r["subscription_id"@] == JsonV::Str("sub-"@ + dec(h.sub_counter as nat)))
            &&& subscribe_next(h, params, conn_id) == subscribed(h, conn_id, w.channels, w.scope)
            &&& w.channels.contains("telemetry"@) ==> source_wanted(params, conn_id, "telemetry"@) == Some(w.interval_ms)
            &&& w.channels.contains("screenshot"@) ==> source_wanted(params, conn_id, "screenshot"@) == Some(w.screenshot_interval_ms)
            &&& forall|c: Seq<char>| !w.channels.contains(c) ==> #[trigger] source_wanted(params, conn_id, c) is None
        },
        wanted(params, conn_id) matches Err(e) ==> {
            &&& subscribe_reply(h, id, params, conn_id) == err_said(id, -32600i64, e)
            &&& subscribe_next(h, params, conn_id) == h
            &&& forall|c: Seq<char>| #[trigger] source_wanted(params, conn_id, c) is None
        },
{
    reveal_strlit("id");
    reveal_strlit("result");
    reveal_strlit("jsonrpc");
    reveal_strlit("ok");
    reveal_strlit("subscription_id");
    reveal_strlit("telemetry");
    reveal_strlit("screenshot");
    assert("id"@.len() == 2 && "result"@.len() == 6 && "jsonrpc"@.len() == 7 && "ok"@.len() == 2 && "subscription_id"@.len() == 15);
    assert("telemetry"@.len() == 9 && "screenshot"@.len() == 10);
}

/// A request to end a subscription says whether there was such a one, and ends it; without a name it
/// is refused and changes nothing.
pub proof fn law_end_of_a_subscription_is_answered(h: HubV, id: JsonV, params: JsonV, sub_id: Seq<char>)
    ensures
        (params matches JsonV::Obj(m) && m.contains_key("subscription_id"@) && m["subscription_id"@] == JsonV::Str(sub_id)) ==> {
            &&& unsubscribe_next(h, params).subs == h.subs.filter(|s: SubV| s.sub_id != sub_id)
            &&& unsubscribe_reply(h, id, params) matches JsonV::Obj(m) && m["id"@] == id && (m["result"@] matches JsonV::Obj(r) && r["ok"@] == JsonV::Bool(exists|k: int| 0 <= k < h.subs.len() && (#[trigger] h.subs[k]).sub_id == sub_id))
        },
        !(params matches JsonV::Obj(m) && m.contains_key("subscription_id"@) && m["subscription_id"@] is Str) ==> unsubscribe_next(h, params) == h && unsubscribe_reply(h, id, params) == err_said(id, -32600i64, "缺少 subscription_id"@),
{
    law_ended_subscription_leaves_the_others(h.subs, sub_id);
    reveal_strlit("id");
    reveal_strlit("result");
    reveal_strlit("jsonrpc");
    reveal_strlit("ok");
    assert("id"@.len() == 2 && "result"@.len() == 6 && "jsonrpc"@.len() == 7);
}

/// A picture is too large where its text has more than four mebibytes.
pub proof fn law_large_pictures_are_heavy(j: JsonV)
    ensures
        is_heavy(j) <==> (j matches JsonV::Obj(m) && m.contains_key("screenshot_png_b64"@) && (m["screenshot_png_b64"@] matches JsonV::Str(s) && vstd::utf8::encode_utf8(s).len() as usize > 4_194_304)),
{
}

/// Subscriptions, pushes and wishes are seen as they are.
pub proof fn law_subscriptions_are_seen_as_they_are(s: Subscriber, p: Push, w: Wanted, c: StdioScope)
    ensures
        s@.sub_id == s.sub_id@ && s@.conn_id == s.conn_id && s@.channels == texts(s.channels@) && s@.scope == s.scope@,
        p@.conn_id == p.conn_id && p@.frame == p.frame@,
        w@.channels == texts(w.channels@) && w@.scope == w.scope@,
        w@.interval_ms == w.interval_ms && w@.screenshot_interval_ms == w.screenshot_interval_ms,
        c is All <==> c@ is All,
        c matches StdioScope::OwnConn(n) ==> c@ == ScopeV::OwnConn(n),
        c matches StdioScope::Tasks(v) ==> c@ == ScopeV::Tasks(texts(v@)),
{
}

/// The channels that are asked for are the texts of the list, in lower case, each once where it first
/// stands.
pub proof fn law_channels_are_those_of_the_list(params: JsonV, name: Seq<char>)
    ensures
        ({
            let listed = params is Obj && params->Obj_0.contains_key("channels"@) && params->Obj_0["channels"@] is Arr;
            let items = params->Obj_0["channels"@]->Arr_0;
            &&& channels_in(params).no_duplicates()
            &&& !listed ==> channels_in(params).len() == 0
            &&& listed ==> (channels_in(params).contains(name) <==> exists|i: int| 0 <= i < items.len() && (#[trigger] items[i]) is Str && lowercase_of(items[i]->Str_0) == name)
        }),
{
    let lows = all_lower(texts_under(params, "channels"@));
    crate::text::law_first_of_equal_texts_stays(lows, Seq::empty());
    if params is Obj && params->Obj_0.contains_key("channels"@) && params->Obj_0["channels"@] is Arr {
        let items = params->Obj_0["channels"@]->Arr_0;
        let ts = texts_in(items);
        assert(lows == all_lower(ts));
        lemma_texts_are_items(items);
        if channels_in(params).contains(name) {
            assert(lows.contains(name));
            let k = choose|k: int| 0 <= k < lows.len() && lows[k] == name;
            assert(ts.contains(ts[k]));
            let i = choose|i: int| 0 <= i < items.len() && (#[trigger] items[i]) == JsonV::Str(ts[k]);
            assert(items[i] is Str && lowercase_of(items[i]->Str_0) == name);
        }
        if exists|i: int| 0 <= i < items.len() && (#[trigger] items[i]) is Str && lowercase_of(items[i]->Str_0) == name {
            let i = choose|i: int| 0 <= i < items.len() && (#[trigger] items[i]) is Str && lowercase_of(items[i]->Str_0) == name;
            assert(items[i] == JsonV::Str(items[i]->Str_0));
            assert(ts.contains(items[i]->Str_0));
            let k = choose|k: int| 0 <= k < ts.len() && ts[k] == items[i]->Str_0;
            assert(lows[k] == name);
            assert(lows.contains(name));
        }
    } else {
        assert(lows.len() == 0);
        assert(once(lows).len() == 0);
    }
}

/// A text is among the texts of a list where an item of it is that text.
proof fn lemma_texts_are_items(items: Seq<JsonV>)
    ensures
        forall|t: Seq<char>| #[trigger] texts_in(items).contains(t) <==> exists|i: int| 0 <= i < items.len() && (#[trigger] items[i]) == JsonV::Str(t),
    decreases items.len(),
{
    if items.len() > 0 {
        let less = items.drop_last();
        let top = items.len() - 1;
        lemma_texts_are_items(less);
        assert forall|t: Seq<char>| #[trigger] texts_in(items).contains(t) <==> exists|i: int| 0 <= i < items.len() && (#[trigger] items[i]) == JsonV::Str(t) by {
            if texts_in(items).contains(t) {
                let k = choose|k: int| 0 <= k < texts_in(items).len() && texts_in(items)[k] == t;
                if k < texts_in(less).len() {
                    assert(texts_in(less)[k] == t);
                    assert(texts_in(less).contains(t));
                    let i = choose|i: int| 0 <= i < less.len() && (#[trigger] less[i]) == JsonV::Str(t);
                    assert(items[i] == JsonV::Str(t));
                } else {
                    assert(items[top] == JsonV::Str(t));
                }
            }
            if exists|i: int| 0 <= i < items.len() && (#[trigger] items[i]) == JsonV::Str(t) {
                let i = choose|i: int| 0 <= i < items.len() && (#[trigger] items[i]) == JsonV::Str(t);
                if i < top {
                    assert(less[i] == JsonV::Str(t));
                    assert(texts_in(less).contains(t));
                    let k = choose|k: int| 0 <= k < texts_in(less).len() && texts_in(less)[k] == t;
                    assert(texts_in(items)[k] == t);
                } else {
                    assert(texts_in(items)[texts_in(less).len() as int] == t);
                }
            }
        }
    }
}

/// A subscription that is refused is told the reason: that it names no channel, which names are none,
/// or what is wrong with its scope.
pub proof fn law_refused_subscription_is_told_why(params: JsonV, conn_id: u64)
    ensures
        wanted(params, conn_id) matches Err(e) ==> {
            let names = channels_in(params);
            let odd = names.filter(|n: Seq<char>| n != "telemetry"@ && n != "stdio"@ && n != "screenshot"@);
            &&& names.len() == 0 ==> e == "缺少 channels"@
            &&& names.len() > 0 && odd.len() > 0 ==> e == "未知通道: "@ + joined(odd, ","@) + " (合法: telemetry/stdio/screenshot)"@
            &&& names.len() > 0 && odd.len() == 0 ==> scope_in(params, conn_id) == Err::<ScopeV, Seq<char>>(e)
        },
{
    law_unknown_channels_are_told(channels_in(params));
}

/// What ends leaves all else as it is.
pub proof fn law_what_ends_leaves_the_rest(h: HubV, conn_id: u64, sub_id: Seq<char>)
    ensures
        conn_dropped(h, conn_id).subs == h.subs.filter(|s: SubV| s.conn_id != conn_id),
        conn_dropped(h, conn_id) == (HubV { subs: conn_dropped(h, conn_id).subs, active_conns: conn_dropped(h, conn_id).active_conns, ..h }),
        unsubscribed(h, sub_id).subs == h.subs.filter(|s: SubV| s.sub_id != sub_id),
        unsubscribed(h, sub_id) == (HubV { subs: unsubscribed(h, sub_id).subs, ..h }),
        conn_opened(h) == (HubV { conn_counter: conn_opened(h).conn_counter, active_conns: conn_opened(h).active_conns, ..h }),
        hub_start().conn_counter == 1 && hub_start().sub_counter == 1,
{
    law_ended_connection_leaves_the_others(h.subs, conn_id);
    law_ended_subscription_leaves_the_others(h.subs, sub_id);
}

} // verus!
