//! The guard: the verdicts of the guard service, the requests to it, and the rules that stand in
//! for it while it cannot be reached.

use std::cmp::Ordering;
use vstd::prelude::*;
use crate::json::{field, items_said, object_text, pairs_said, render_members, text, Json, JsonV, Members};
use crate::patterns::{compiles, found, regex_compiles, regex_found};
use crate::text::{behind, dec, dec_i64, dec_int, dec_u64, opt_str, opt_text};

verus! {

/// How grave a finding is; the last level is always blocked.
#[derive(Debug, Clone, Copy, PartialEq, Eq, Ord, Hash, Structural)]
pub enum RiskLevel {
    L1,
    L2,
    L3,
    L4,
}

/// The place of a level in the order of levels.
pub open spec fn rank_said(l: RiskLevel) -> u8 {
    match l {
        RiskLevel::L1 => 0,
        RiskLevel::L2 => 1,
        RiskLevel::L3 => 2,
        RiskLevel::L4 => 3,
    }
}

impl RiskLevel {
    /// The place of the level in the order of levels.
    pub fn rank(self) -> (r: u8)
        ensures
            r == rank_said(self),
    {
        match self {
            RiskLevel::L1 => 0,
            RiskLevel::L2 => 1,
            RiskLevel::L3 => 2,
            RiskLevel::L4 => 3,
        }
    }
}

impl PartialOrd for RiskLevel {
    fn partial_cmp(&self, other: &Self) -> (r: Option<Ordering>) {
        let a: u8 = self.rank();
        let b: u8 = other.rank();
        if a < b {
            Some(Ordering::Less)
        } else if a == b {
            Some(Ordering::Equal)
        } else {
            Some(Ordering::Greater)
        }
    }
}

impl vstd::std_specs::cmp::PartialOrdSpecImpl for RiskLevel {
    open spec fn obeys_partial_cmp_spec() -> bool {
        true
    }

    open spec fn partial_cmp_spec(&self, other: &Self) -> Option<Ordering> {
        if rank_said(*self) < rank_said(*other) {
            Some(Ordering::Less)
        } else if rank_said(*self) == rank_said(*other) {
            Some(Ordering::Equal)
        } else {
            Some(Ordering::Greater)
        }
    }
}

/// What is to be done about a finding.
#[derive(Debug, Clone, Copy, PartialEq, Eq, Hash, Structural)]
pub enum GuardAction {
    Allow,
    Preview,
    Redact,
    Block,
}

impl GuardAction {
    /// How severe the action is.
    pub fn severity(self) -> (r: u8)
        ensures
            r == severity_said(self),
    {
        match self {
            GuardAction::Allow => 0,
            GuardAction::Preview => 1,
            GuardAction::Redact => 2,
            GuardAction::Block => 3,
        }
    }

    /// Whether the action is to block.
    pub fn is_block(self) -> (r: bool)
        ensures
            r == (self == GuardAction::Block),
    {
        matches!(self, GuardAction::Block)
    }
}

/// How severe an action is.
pub open spec fn severity_said(a: GuardAction) -> u8 {
    match a {
        GuardAction::Allow => 0,
        GuardAction::Preview => 1,
        GuardAction::Redact => 2,
        GuardAction::Block => 3,
    }
}

/// The stage of the check that gave a finding.
#[derive(Debug, Clone, Copy, PartialEq, Eq, Structural)]
pub enum CheckStage {
    Regex,
    Ast,
    Semantic,
}

/// What a rule is about.
#[derive(Debug, Clone, Copy, PartialEq, Eq, Structural)]
pub enum RuleScope {
    Command,
    Content,
    Network,
    Filesystem,
}

/// What the guard says of a command.
#[derive(Debug, Clone)]
pub struct GuardVerdict {
    pub action: GuardAction,
    pub risk_level: RiskLevel,
    pub reason: String,
    pub stage: CheckStage,
    pub requires_approval: bool,
    pub redacted_content: Option<String>,
    pub seatbelt_required: bool,
    /// The identifier under which the action is known, as a number of 128 bits.
    pub action_id: Option<u128>,
    pub verdict_epoch: u64,
    pub verdict_ttl_secs: u32,
    pub inferred_category: String,
    pub category_hint: Option<String>,
}

/// Whether a finding of this action and level is of high risk.
pub open spec fn is_high_risk(action: GuardAction, level: RiskLevel) -> bool {
    level == RiskLevel::L3 || level == RiskLevel::L4 || action == GuardAction::Block
}

/// Whether a finding of this action and level is of high risk.
fn high(action: GuardAction, level: RiskLevel) -> (r: bool)
    ensures
        r == is_high_risk(action, level),
{
    matches!(level, RiskLevel::L3 | RiskLevel::L4) || action.is_block()
}

impl GuardVerdict {
    /// Whether the verdict is of high risk.
    pub fn high_risk(&self) -> (r: bool)
        ensures
            r == is_high_risk(self.action, self.risk_level),
    {
        high(self.action, self.risk_level)
    }
}

/// A rule of the guard.
#[derive(Debug, Clone)]
pub struct GuardRule {
    pub name: String,
    pub pattern: String,
    pub stage: CheckStage,
    pub action: GuardAction,
    pub risk_level: RiskLevel,
    pub reason: String,
    pub scope: RuleScope,
}

/// The rules of the guard at one time.
#[derive(Debug, Clone)]
pub struct RuleSet {
    pub rules: Vec<GuardRule>,
    pub epoch: u64,
}

/// What the guard answers to a ping.
#[derive(Debug, Clone)]
pub struct GuardPing {
    pub pong: bool,
    pub version: String,
    pub rules_epoch: u64,
}

/// Why a request to the guard came to nothing.
#[derive(Debug)]
pub enum GuardError {
    Unavailable(String),
    Timeout,
    Unauthorized(String),
    RateLimited,
    StaleEpoch { caller: u64, guard: u64 },
    Engine(String),
    BadResponse(String),
    Io(String),
    Serde(String),
}

/// What an error says.
pub enum GuardErrorV {
    Unavailable(Seq<char>),
    Timeout,
    Unauthorized(Seq<char>),
    RateLimited,
    StaleEpoch { caller: u64, guard: u64 },
    Engine(Seq<char>),
    BadResponse(Seq<char>),
    Io(Seq<char>),
    Serde(Seq<char>),
}

impl View for GuardError {
    type V = GuardErrorV;

    open spec fn view(&self) -> GuardErrorV {
        match self {
            GuardError::Unavailable(s) => GuardErrorV::Unavailable(s@),
            GuardError::Timeout => GuardErrorV::Timeout,
            GuardError::Unauthorized(s) => GuardErrorV::Unauthorized(s@),
            GuardError::RateLimited => GuardErrorV::RateLimited,
            GuardError::StaleEpoch { caller, guard } => GuardErrorV::StaleEpoch { caller: *caller, guard: *guard },
            GuardError::Engine(s) => GuardErrorV::Engine(s@),
            GuardError::BadResponse(s) => GuardErrorV::BadResponse(s@),
            GuardError::Io(s) => GuardErrorV::Io(s@),
            GuardError::Serde(s) => GuardErrorV::Serde(s@),
        }
    }
}

/// The sentence that an error is shown as.
pub open spec fn error_sentence(e: GuardErrorV) -> Seq<char> {
    match e {
        GuardErrorV::Unavailable(s) => "guard unreachable: "@ + s,
        GuardErrorV::Timeout => "guard request timeout"@,
        GuardErrorV::Unauthorized(s) => "guard unauthorized: "@ + s,
        GuardErrorV::RateLimited => "guard rate limited"@,
        GuardErrorV::StaleEpoch { caller, guard } => "guard stale epoch: caller="@ + dec(caller as nat) + " guard="@ + dec(guard as nat),
        GuardErrorV::Engine(s) => "guard internal error: "@ + s,
        GuardErrorV::BadResponse(s) => "guard bad response: "@ + s,
        GuardErrorV::Io(s) => "io error: "@ + s,
        GuardErrorV::Serde(s) => "serde error: "@ + s,
    }
}

impl GuardError {
    /// The sentence that the error is shown as.
    pub fn sentence(&self) -> (r: String)
        ensures
            r@ == error_sentence(self@),
    {
        match self {
            GuardError::Unavailable(s) => behind("guard unreachable: ", s.as_str()),
            GuardError::Timeout => "guard request timeout".to_owned(),
            GuardError::Unauthorized(s) => behind("guard unauthorized: ", s.as_str()),
            GuardError::RateLimited => "guard rate limited".to_owned(),
            GuardError::StaleEpoch { caller, guard } => {
                let c = dec_u64(*caller);
                let g = dec_u64(*guard);
                let mut out = behind("guard stale epoch: caller=", c.as_str());
                out.append(" guard=");
                out.append(g.as_str());
                out
            },
            GuardError::Engine(s) => behind("guard internal error: ", s.as_str()),
            GuardError::BadResponse(s) => behind("guard bad response: ", s.as_str()),
            GuardError::Io(s) => behind("io error: ", s.as_str()),
            GuardError::Serde(s) => behind("serde error: ", s.as_str()),
        }
    }
}

/// The most bytes that a reply of the guard may have.
pub const MAX_LINE_BYTES: usize = 1_048_576;

/// An error that the guard reports in a reply.
#[derive(Debug, Clone)]
pub struct RpcError {
    pub code: i32,
    pub message: String,
}

/// A reply of the guard.
pub struct RpcReply {
    pub id: Option<u64>,
    pub result: Option<Json>,
    pub error: Option<RpcError>,
}

/// Talks to the guard service over its socket.
#[derive(Debug, Clone)]
pub struct GuardClient {
    sock: String,
    tenant: String,
    id_counter: u64,
}

/// What an error code of the guard means.
pub open spec fn mapped_error(code: i32, message: Seq<char>) -> GuardErrorV {
    if code == -32001 {
        GuardErrorV::Unauthorized(message)
    } else if code == -32002 {
        GuardErrorV::RateLimited
    } else if code == -32003 {
        GuardErrorV::StaleEpoch { caller: 0, guard: 0 }
    } else if code == -32010 {
        GuardErrorV::Engine(message)
    } else {
        GuardErrorV::BadResponse("code "@ + dec_int(code as int) + ": "@ + message)
    }
}

/// The members of the request for a method, in their order.
pub open spec fn request_members(id: u64, method: Seq<char>, params: JsonV) -> Members {
    seq![("jsonrpc"@, JsonV::Str("2.0"@)), ("id"@, JsonV::UInt(id)), ("method"@, JsonV::Str(method)), ("params"@, params)]
}

/// The line of the request for a method, with its line feed, where the parameters can be written.
pub open spec fn request_said(id: u64, method: Seq<char>, params: JsonV) -> Option<Seq<char>> {
    match object_text(request_members(id, method, params)) {
        Some(t) => Some(t.push('\n')),
        None => None,
    }
}

/// A line without the line feeds at its end.
pub open spec fn without_feeds(line: Seq<u8>) -> Seq<u8>
    decreases line.len(),
{
    if line.len() > 0 && line.last() == 10u8 {
        without_feeds(line.drop_last())
    } else {
        line
    }
}

/// What is read of a reply, up to and with its line feed.
pub open spec fn reply_said(line: Seq<u8>) -> Result<Seq<u8>, GuardErrorV> {
    if line.len() > MAX_LINE_BYTES {
        Err(GuardErrorV::BadResponse("response exceeded 1048576 bytes"@))
    } else if without_feeds(line).len() == 0 {
        Err(GuardErrorV::BadResponse("empty response"@))
    } else {
        Ok(without_feeds(line))
    }
}

/// What a reply to the request with the given id comes to.
pub open spec fn settled(id: u64, reply: RpcReply) -> Result<JsonV, GuardErrorV> {
    match reply.id {
        Some(rid) if rid != id => Err(
            GuardErrorV::BadResponse("id mismatch: sent "@ + dec(id as nat) + ", got "@ + dec(rid as nat)),
        ),
        _ => match reply.error {
            Some(e) => Err(mapped_error(e.code, e.message@)),
            None => match reply.result {
                Some(v) => Ok(v@),
                None => Err(GuardErrorV::BadResponse("missing result"@)),
            },
        },
    }
}

impl GuardClient {
    /// The path of the guard's socket.
    pub closed spec fn sock_said(&self) -> Seq<char> {
        self.sock@
    }

    /// The tenant on whose behalf is asked.
    pub closed spec fn tenant_said(&self) -> Seq<char> {
        self.tenant@
    }

    /// The id of the next request.
    pub closed spec fn next_said(&self) -> u64 {
        self.id_counter
    }

    /// A client for the guard behind a socket.
    pub fn new(sock: String, tenant: String) -> (r: Self)
        ensures
            r.sock_said() == sock@,
            r.tenant_said() == tenant@,
            r.next_said() == 1,
    {
        GuardClient { sock, tenant, id_counter: 1 }
    }

    /// The path of the guard's socket.
    pub fn sock(&self) -> (r: &str)
        ensures
            r@ == self.sock_said(),
    {
        self.sock.as_str()
    }

    /// The tenant on whose behalf is asked.
    pub fn tenant(&self) -> (r: &str)
        ensures
            r@ == self.tenant_said(),
    {
        self.tenant.as_str()
    }

    /// The error of a call that broke at some step on the way to the guard or back, or was not answered
    /// in time: the guard counts as unreachable.
    pub fn unreachable(step: &str, why: &str) -> (r: GuardError)
        ensures
            r@ == GuardErrorV::Unavailable(step@ + ": "@ + why@),
    {
        let mut m = behind(step, ": ");
        m.append(why);
        GuardError::Unavailable(m)
    }

    /// Takes the id of the next request; the count starts again behind the last number.
    pub fn next_id(&mut self) -> (r: u64)
        ensures
            r == old(self).next_said(),
            final(self).next_said() == vstd::wrapping::u64_specs::wrapping_add(r, 1),
            final(self).sock_said() == old(self).sock_said(),
            final(self).tenant_said() == old(self).tenant_said(),
    {
        let id: u64 = self.id_counter;
        self.id_counter = id.wrapping_add(1);
        id
    }

    /// The line that asks for a method, and the id that its reply is to have.
    pub fn call(&mut self, method: &str, params: Json) -> (r: (u64, Option<String>))
        ensures
            r.0 == old(self).next_said(),
            opt_text(r.1) == request_said(r.0, method@, params@),
            final(self).next_said() == vstd::wrapping::u64_specs::wrapping_add(r.0, 1),
            final(self).sock_said() == old(self).sock_said(),
            final(self).tenant_said() == old(self).tenant_said(),
    {
        let id = self.next_id();
        let ghost params_said = params@;
        let mut m: Vec<(String, Json)> = Vec::new();
        m.push(field("jsonrpc", text("2.0")));
        m.push(field("id", Json::UInt(id)));
        m.push(field("method", text(method)));
        m.push(field("params", params));
        proof {
            assert(pairs_said(m@) =~= request_members(id, method@, params_said));
        }
        let line = match render_members(&m) {
            Some(mut t) => {
                t.push('\n');
                Some(t)
            },
            None => None,
        };
        (id, line)
    }

    /// Takes the line feeds off what was read of a reply, and refuses one that is too long or empty.
    pub fn reply_line(line: Vec<u8>) -> (r: Result<Vec<u8>, GuardError>)
        ensures
            match r {
                Ok(v) => reply_said(line@) == Ok::<Seq<u8>, GuardErrorV>(v@),
                Err(e) => reply_said(line@) == Err::<Seq<u8>, GuardErrorV>(e@),
            },
    {
        if line.len() > MAX_LINE_BYTES {
            return Err(GuardError::BadResponse("response exceeded 1048576 bytes".to_owned()));
        }
        let mut out = line;
        while out.len() > 0 && out[out.len() - 1] == 10
            invariant
                without_feeds(line@) == without_feeds(out@),
            decreases out@.len(),
        {
            let _ = out.pop();
        }
        if out.len() == 0 {
            return Err(GuardError::BadResponse("empty response".to_owned()));
        }
        Ok(out)
    }

    /// What an error that the guard reports means.
    pub fn map_error(e: RpcError) -> (r: GuardError)
        ensures
            r@ == mapped_error(e.code, e.message@),
    {
        if e.code == -32001 {
            GuardError::Unauthorized(e.message)
        } else if e.code == -32002 {
            GuardError::RateLimited
        } else if e.code == -32003 {
            GuardError::StaleEpoch { caller: 0, guard: 0 }
        } else if e.code == -32010 {
            GuardError::Engine(e.message)
        } else {
            let code = dec_i64(e.code as i64);
            let mut out = behind("code ", code.as_str());
            out.append(": ");
            out.append(e.message.as_str());
            GuardError::BadResponse(out)
        }
    }

    /// What a reply to the request with the given id comes to: a reply to another request is
    /// refused, a reported error stands before a result, and one of the two has to be there.
    pub fn settle(id: u64, reply: RpcReply) -> (r: Result<Json, GuardError>)
        ensures
            match r {
                Ok(v) => settled(id, reply) == Ok::<JsonV, GuardErrorV>(v@),
                Err(e) => settled(id, reply) == Err::<JsonV, GuardErrorV>(e@),
            },
    {
        if let Some(rid) = reply.id {
            if rid != id {
                let sent = dec_u64(id);
                let got = dec_u64(rid);
                let mut out = behind("id mismatch: sent ", sent.as_str());
                out.append(", got ");
                out.append(got.as_str());
                return Err(GuardError::BadResponse(out));
            }
        }
        if let Some(e) = reply.error {
            return Err(Self::map_error(e));
        }
        match reply.result {
            Some(v) => Ok(v),
            None => Err(GuardError::BadResponse("missing result".to_owned())),
        }
    }

    /// The request for a ping.
    pub fn ping(&mut self) -> (r: (u64, Option<String>))
        ensures
            r.0 == old(self).next_said(),
            opt_text(r.1) == request_said(r.0, "guard.ping"@, JsonV::Arr(Seq::empty())),
            final(self).next_said() == vstd::wrapping::u64_specs::wrapping_add(r.0, 1),
            final(self).sock_said() == old(self).sock_said(),
            final(self).tenant_said() == old(self).tenant_said(),
    {
        self.call("guard.ping", Json::Arr(Vec::new()))
    }

    /// Refuses a ping whose answer is no.
    pub fn ping_answer(ping: GuardPing) -> (r: Result<GuardPing, GuardError>)
        ensures
            match r {
                Ok(p) => ping.pong && p == ping,
                Err(e) => !ping.pong && e@ == GuardErrorV::BadResponse("ping pong=false"@),
            },
    {
        if !ping.pong {
            return Err(GuardError::BadResponse("ping pong=false".to_owned()));
        }
        Ok(ping)
    }

    /// The request for the rules.
    pub fn rules_dump(&mut self, caller_epoch: u64) -> (r: (u64, Option<String>))
        ensures
            r.0 == old(self).next_said(),
            opt_text(r.1) == request_said(r.0, "guard.rules.dump"@, JsonV::Arr(seq![JsonV::UInt(caller_epoch)])),
            final(self).next_said() == vstd::wrapping::u64_specs::wrapping_add(r.0, 1),
            final(self).sock_said() == old(self).sock_said(),
            final(self).tenant_said() == old(self).tenant_said(),
    {
        let mut params: Vec<Json> = Vec::new();
        params.push(Json::UInt(caller_epoch));
        proof {
            crate::json::lemma_items_said(params@);
            assert(items_said(params@) =~= seq![JsonV::UInt(caller_epoch)]);
        }
        self.call("guard.rules.dump", Json::Arr(params))
    }

    /// The request to judge a content; the parameters go by their place.
    pub fn evaluate(
        &mut self,
        content: &str,
        caller_epoch: u64,
        requester: &str,
        action: &str,
        content_type: &str,
        category_hint: Option<&str>,
    ) -> (r: (u64, Option<String>))
        ensures
            r.0 == old(self).next_said(),
            opt_text(r.1) == request_said(
                r.0,
                "guard.evaluate"@,
                JsonV::Arr(
                    evaluate_params(
                        content@,
                        caller_epoch,
                        old(self).tenant_said(),
                        requester@,
                        action@,
                        content_type@,
                        opt_str(category_hint),
                    ),
                ),
            ),
            final(self).next_said() == vstd::wrapping::u64_specs::wrapping_add(r.0, 1),
            final(self).sock_said() == old(self).sock_said(),
            final(self).tenant_said() == old(self).tenant_said(),
    {
        let mut params: Vec<Json> = Vec::new();
        params.push(text(content));
        params.push(Json::UInt(caller_epoch));
        params.push(text(self.tenant.as_str()));
        params.push(text(requester));
        params.push(text(action));
        params.push(text(content_type));
        if let Some(h) = category_hint {
            params.push(text(h));
        }
        proof {
            crate::json::lemma_items_said(params@);
            assert(items_said(params@) =~= evaluate_params(
                content@,
                caller_epoch,
                self.tenant_said(),
                requester@,
                action@,
                content_type@,
                opt_str(category_hint),
            ));
        }
        self.call("guard.evaluate", Json::Arr(params))
    }
}

/// The parameters of a request to judge a content, by their place.
pub open spec fn evaluate_params(
    content: Seq<char>,
    caller_epoch: u64,
    tenant: Seq<char>,
    requester: Seq<char>,
    action: Seq<char>,
    content_type: Seq<char>,
    hint: Option<Seq<char>>,
) -> Seq<JsonV> {
    let six = seq![
        JsonV::Str(content),
        JsonV::UInt(caller_epoch),
        JsonV::Str(tenant),
        JsonV::Str(requester),
        JsonV::Str(action),
        JsonV::Str(content_type)
    ];
    match hint {
        Some(h) => six.push(JsonV::Str(h)),
        None => six,
    }
}

/// A rule that can be applied without the guard.
#[derive(Debug, Clone)]
pub struct CompiledRule {
    pub pattern: String,
    pub action: GuardAction,
    pub risk_level: RiskLevel,
    pub reason: String,
}

/// The rules that stand in for the guard while it cannot be reached.
pub struct RulesCache {
    path: String,
    epoch: u64,
    compiled: Vec<Option<CompiledRule>>,
}

/// Whether a compiled rule is what becomes of a rule: one that goes by a regular expression that
/// compiles is kept, any other is passed over.
pub open spec fn compiled_from(c: Option<CompiledRule>, r: GuardRule) -> bool {
    if r.stage == CheckStage::Regex && regex_compiles(r.pattern@) {
        &&& c is Some
        &&& c->0.pattern@ == r.pattern@
        &&& c->0.action == r.action
        &&& c->0.risk_level == r.risk_level
        &&& c->0.reason@ == r.reason@
    } else {
        c is None
    }
}

/// Whether the compiled rules are what becomes of a set of rules.
pub open spec fn all_compiled_from(c: Seq<Option<CompiledRule>>, rs: Seq<GuardRule>) -> bool {
    &&& c.len() == rs.len()
    &&& forall|i: int| 0 <= i < rs.len() ==> compiled_from(#[trigger] c[i], rs[i])
}

/// Compiles a set of rules.
pub fn compile(rules: &Vec<GuardRule>) -> (r: Vec<Option<CompiledRule>>)
    ensures
        all_compiled_from(r@, rules@),
{
    let mut out: Vec<Option<CompiledRule>> = Vec::new();
    let mut i: usize = 0;
    while i < rules.len()
        invariant
            i <= rules@.len(),
            out@.len() == i,
            forall|k: int| 0 <= k < i ==> compiled_from(#[trigger] out@[k], rules@[k]),
        decreases rules@.len() - i,
    {
        let rule = &rules[i];
        if rule.stage == CheckStage::Regex && compiles(rule.pattern.as_str()) {
            out.push(
                Some(
                    CompiledRule {
                        pattern: rule.pattern.clone(),
                        action: rule.action,
                        risk_level: rule.risk_level,
                        reason: rule.reason.clone(),
                    },
                ),
            );
        } else {
            out.push(None);
        }
        i = i + 1;
    }
    out
}

/// The first rule from place `i` on that was hit and is of high risk.
pub open spec fn first_hit(c: Seq<Option<CompiledRule>>, hits: Seq<bool>, i: int) -> Option<CompiledRule>
    decreases c.len() - i,
{
    if i < 0 || i >= c.len() {
        None
    } else if c[i] is Some && i < hits.len() && hits[i] && is_high_risk(c[i]->0.action, c[i]->0.risk_level) {
        c[i]
    } else {
        first_hit(c, hits, i + 1)
    }
}

/// Which rules hit a content.
pub open spec fn hits_said(c: Seq<Option<CompiledRule>>, content: Seq<char>) -> Seq<bool> {
    c.map_values(
        |o: Option<CompiledRule>|
            match o {
                Some(rule) => regex_found(rule.pattern@, content),
                None => false,
            },
    )
}

/// Whether a verdict is the one that a hit rule gives: to block, at the level of the rule.
pub open spec fn verdict_for(v: GuardVerdict, rule: CompiledRule, epoch: u64) -> bool {
    &&& v.action == GuardAction::Block
    &&& v.risk_level == rule.risk_level
    &&& v.reason@ == "guard 不可达, 缓存规则命中: "@ + rule.reason@
    &&& v.stage == CheckStage::Regex
    &&& v.requires_approval == (rule.risk_level == RiskLevel::L3)
    &&& v.redacted_content is None
    &&& v.seatbelt_required
    &&& v.action_id is None
    &&& v.verdict_epoch == epoch
    &&& v.verdict_ttl_secs == 0
    &&& v.inferred_category@ == Seq::<char>::empty()
    &&& v.category_hint is None
}

/// Whether a verdict is what the cached rules give for the rules that were hit.
pub open spec fn verdict_from(v: Option<GuardVerdict>, c: Seq<Option<CompiledRule>>, hits: Seq<bool>, epoch: u64) -> bool {
    match first_hit(c, hits, 0) {
        Some(rule) => v is Some && verdict_for(v->0, rule, epoch),
        None => v is None,
    }
}

impl RulesCache {
    /// Where the rules are kept on disk.
    pub closed spec fn path_said(&self) -> Seq<char> {
        self.path@
    }

    /// The time of the rules.
    pub closed spec fn epoch_said(&self) -> u64 {
        self.epoch
    }

    /// The rules.
    pub closed spec fn rules_said(&self) -> Seq<Option<CompiledRule>> {
        self.compiled@
    }

    /// A cache with the rules that were found on disk, or with none.
    pub fn new(path: String, on_disk: Option<RuleSet>) -> (r: Self)
        ensures
            r.path_said() == path@,
            match on_disk {
                Some(rs) => r.epoch_said() == rs.epoch && all_compiled_from(r.rules_said(), rs.rules@),
                None => r.epoch_said() == 0 && r.rules_said() == Seq::<Option<CompiledRule>>::empty(),
            },
    {
        match on_disk {
            Some(rs) => {
                let compiled = compile(&rs.rules);
                RulesCache { path, epoch: rs.epoch, compiled }
            },
            None => RulesCache { path, epoch: 0, compiled: Vec::new() },
        }
    }

    /// Takes over the rules that the guard gave.
    pub fn refresh(&mut self, rs: &RuleSet)
        ensures
            final(self).path_said() == old(self).path_said(),
            final(self).epoch_said() == rs.epoch,
            all_compiled_from(final(self).rules_said(), rs.rules@),
    {
        self.compiled = compile(&rs.rules);
        self.epoch = rs.epoch;
    }

    /// Where the rules are kept on disk.
    pub fn path(&self) -> (r: &str)
        ensures
            r@ == self.path_said(),
    {
        self.path.as_str()
    }

    /// The time of the rules.
    pub fn epoch(&self) -> (r: u64)
        ensures
            r == self.epoch_said(),
    {
        self.epoch
    }

    /// The verdict for the rules that were hit: the first of them that is of high risk blocks.
    pub fn cached_verdict(&self, hits: &Vec<bool>) -> (r: Option<GuardVerdict>)
        ensures
            verdict_from(r, self.rules_said(), hits@, self.epoch_said()),
    {
        let mut i: usize = 0;
        while i < self.compiled.len()
            invariant
                i <= self.compiled@.len(),
                first_hit(self.compiled@, hits@, 0) == first_hit(self.compiled@, hits@, i as int),
            decreases self.compiled@.len() - i,
        {
            if let Some(rule) = &self.compiled[i] {
                if i < hits.len() && hits[i] && high(rule.action, rule.risk_level) {
                    return Some(
                        GuardVerdict {
                            action: GuardAction::Block,
                            risk_level: rule.risk_level,
                            reason: behind("guard 不可达, 缓存规则命中: ", rule.reason.as_str()),
                            stage: CheckStage::Regex,
                            requires_approval: matches!(rule.risk_level, RiskLevel::L3),
                            redacted_content: None,
                            seatbelt_required: true,
                            action_id: None,
                            verdict_epoch: self.epoch,
                            verdict_ttl_secs: 0,
                            inferred_category: String::new(),
                            category_hint: None,
                        },
                    );
                }
            }
            i = i + 1;
        }
        None
    }

    /// The verdict of the cached rules on a content.
    pub fn run_cached_rules(&self, content: &str) -> (r: Option<GuardVerdict>)
        ensures
            verdict_from(r, self.rules_said(), hits_said(self.rules_said(), content@), self.epoch_said()),
    {
        let mut hits: Vec<bool> = Vec::new();
        let mut i: usize = 0;
        while i < self.compiled.len()
            invariant
                i <= self.compiled@.len(),
                hits@.len() == i,
                forall|k: int| 0 <= k < i ==> #[trigger] hits@[k] == hits_said(self.compiled@, content@)[k],
            decreases self.compiled@.len() - i,
        {
            let hit = match &self.compiled[i] {
                Some(rule) => found(rule.pattern.as_str(), content),
                None => false,
            };
            hits.push(hit);
            i = i + 1;
        }
        proof {
            assert(hits@ =~= hits_said(self.compiled@, content@));
        }
        self.cached_verdict(&hits)
    }

    /// Whether there is no rule that could be applied.
    pub fn is_empty(&self) -> (r: bool)
        ensures
            r == (forall|i: int| 0 <= i < self.rules_said().len() ==> #[trigger] self.rules_said()[i] is None),
    {
        let mut i: usize = 0;
        while i < self.compiled.len()
            invariant
                i <= self.compiled@.len(),
                forall|k: int| 0 <= k < i ==> #[trigger] self.compiled@[k] is None,
            decreases self.compiled@.len() - i,
        {
            if self.compiled[i].is_some() {
                proof {
                    assert(self.rules_said()[i as int] is Some);
                }
                return false;
            }
            i = i + 1;
        }
        true
    }
}

/// A verdict of the cached rules always blocks, is of high risk and calls for isolation.
pub proof fn law_cached_verdict_blocks(v: GuardVerdict, c: Seq<Option<CompiledRule>>, hits: Seq<bool>, epoch: u64)
    requires
        verdict_from(Some(v), c, hits, epoch),
    ensures
        v.action == GuardAction::Block,
        is_high_risk(v.action, v.risk_level),
        v.seatbelt_required,
        v.verdict_epoch == epoch,
{
}

/// A cache without a rule that could be applied gives no verdict, whatever was hit.
pub proof fn law_empty_cache_gives_no_verdict(v: Option<GuardVerdict>, c: Seq<Option<CompiledRule>>, hits: Seq<bool>, epoch: u64)
    requires
        verdict_from(v, c, hits, epoch),
        forall|i: int| 0 <= i < c.len() ==> #[trigger] c[i] is None,
    ensures
        v is None,
{
    lemma_no_hit(c, hits, 0);
}

/// Without a rule there is no hit.
proof fn lemma_no_hit(c: Seq<Option<CompiledRule>>, hits: Seq<bool>, i: int)
    requires
        forall|k: int| 0 <= k < c.len() ==> #[trigger] c[k] is None,
    ensures
        first_hit(c, hits, i) is None,
    decreases c.len() - i,
{
    if 0 <= i < c.len() {
        lemma_no_hit(c, hits, i + 1);
    }
}

/// The order of the levels is that of their ranks, and different levels have different ranks.
pub proof fn law_levels_are_ordered_by_rank(a: RiskLevel, b: RiskLevel)
    ensures
        rank_said(a) == rank_said(b) <==> a == b,
        rank_said(a) <= 3,
{
}

/// The levels rise from the first to the fourth, and the actions from letting pass to blocking.
pub proof fn law_levels_and_actions_rise()
    ensures
        rank_said(RiskLevel::L1) < rank_said(RiskLevel::L2) < rank_said(RiskLevel::L3) < rank_said(RiskLevel::L4),
        severity_said(GuardAction::Allow) < severity_said(GuardAction::Preview) < severity_said(GuardAction::Redact) < severity_said(GuardAction::Block),
        severity_said(GuardAction::Allow) == 0 && severity_said(GuardAction::Block) == 3,
{
}

/// What is blocked is of high risk, and so is the third level and above; nothing else is.
pub proof fn law_high_risk_is_blocked_or_high(action: GuardAction, level: RiskLevel)
    ensures
        is_high_risk(action, level) <==> action is Block || rank_said(level) >= 2,
{
}

/// Each code of an error of the guard means its own kind of error, with the message of the guard
/// where that tells more.
pub proof fn law_codes_mean_their_errors(code: i32, message: Seq<char>)
    ensures
        mapped_error(-32001i32, message) == GuardErrorV::Unauthorized(message),
        mapped_error(-32002i32, message) is RateLimited,
        mapped_error(-32003i32, message) is StaleEpoch,
        mapped_error(-32010i32, message) == GuardErrorV::Engine(message),
        code != -32001 && code != -32002 && code != -32003 && code != -32010 ==> (mapped_error(code, message) matches GuardErrorV::BadResponse(s) && message.is_suffix_of(s)),
{
    let s = "code "@ + dec_int(code as int) + ": "@ + message;
    assert(s.subrange(s.len() - message.len(), s.len() as int) =~= message);
}

/// A reply settles the request of its own number alone: with an error it fails with that error, with
/// a result it gives the result, and with neither it is no reply.
pub proof fn law_reply_settles_its_request(id: u64, reply: RpcReply)
    ensures
        reply.id is Some && reply.id->0 != id ==> (settled(id, reply) matches Err(e) && e is BadResponse),
        (reply.id is None || reply.id->0 == id) && reply.error is Some ==> (settled(id, reply) matches Err(e) && e == mapped_error(reply.error->0.code, reply.error->0.message@)),
        (reply.id is None || reply.id->0 == id) && reply.error is None && reply.result is Some ==> settled(id, reply) == Ok::<JsonV, GuardErrorV>(reply.result->0@),
        (reply.id is None || reply.id->0 == id) && reply.error is None && reply.result is None ==> (settled(id, reply) matches Err(e) && e is BadResponse),
{
}

/// The line of a reply is what was read without the line feeds at its end; one that is empty, or has
/// more than a mebibyte, is refused.
pub proof fn law_reply_line_has_no_feeds(line: Seq<u8>)
    ensures
        without_feeds(line).len() <= line.len(),
        without_feeds(line) == line.take(without_feeds(line).len() as int),
        without_feeds(line).len() > 0 ==> without_feeds(line).last() != 10u8,
        forall|i: int| without_feeds(line).len() <= i < line.len() ==> #[trigger] line[i] == 10u8,
        line.len() > 1_048_576 ==> reply_said(line) is Err,
        line.len() <= 1_048_576 ==> (reply_said(line) is Ok <==> exists|i: int| 0 <= i < line.len() && #[trigger] line[i] != 10u8),
        reply_said(line) matches Ok(l) ==> l == without_feeds(line),
    decreases line.len(),
{
    if line.len() > 0 && line.last() == 10u8 {
        law_reply_line_has_no_feeds(line.drop_last());
        let n = without_feeds(line).len() as int;
        assert(line.drop_last().take(n) =~= line.take(n));
        assert forall|i: int| n <= i < line.len() implies #[trigger] line[i] == 10u8 by {
            if i < line.len() - 1 {
                assert(line.drop_last()[i] == line[i]);
            }
        }
    } else {
        assert(line.take(line.len() as int) =~= line);
    }
    if without_feeds(line).len() > 0 {
        assert(line[without_feeds(line).len() - 1] != 10u8);
    }
}

/// A request to the guard has its version, its number, its method and its parameters, in this order;
/// a content that is to be judged goes by its place, with what is known of it behind it.
pub proof fn law_request_has_its_parts(id: u64, method: Seq<char>, params: JsonV, content: Seq<char>, epoch: u64, tenant: Seq<char>, requester: Seq<char>, action: Seq<char>, content_type: Seq<char>, hint: Option<Seq<char>>)
    ensures
        request_members(id, method, params).len() == 4,
        request_members(id, method, params)[0] == ("jsonrpc"@, JsonV::Str("2.0"@)),
        request_members(id, method, params)[1] == ("id"@, JsonV::UInt(id)),
        request_members(id, method, params)[2] == ("method"@, JsonV::Str(method)),
        request_members(id, method, params)[3] == ("params"@, params),
        ({
            let p = evaluate_params(content, epoch, tenant, requester, action, content_type, hint);
            &&& p[0] == JsonV::Str(content) && p[1] == JsonV::UInt(epoch) && p[2] == JsonV::Str(tenant)
            &&& p[3] == JsonV::Str(requester) && p[4] == JsonV::Str(action) && p[5] == JsonV::Str(content_type)
            &&& hint is None ==> p.len() == 6
            &&& hint is Some ==> p.len() == 7 && p[6] == JsonV::Str(hint->0)
        }),
{
}

/// Whether a rule of the cache hits: it could be applied, its pattern was found, and it is of high
/// risk.
pub open spec fn hits_at(c: Seq<Option<CompiledRule>>, hits: Seq<bool>, i: int) -> bool {
    0 <= i < c.len() && i < hits.len() && c[i] is Some && hits[i] && (c[i]->0.action is Block || c[i]->0.risk_level is L3 || c[i]->0.risk_level is L4)
}

/// The cached rules block what the first of them that hits is for, with its reason and its level, and
/// give no verdict where none hits; the third level calls for approval.
pub proof fn law_first_hit_decides(v: Option<GuardVerdict>, c: Seq<Option<CompiledRule>>, hits: Seq<bool>, epoch: u64)
    requires
        verdict_from(v, c, hits, epoch),
    ensures
        v is Some <==> exists|i: int| #[trigger] hits_at(c, hits, i),
        v matches Some(v) ==> exists|i: int|
            #[trigger] hits_at(c, hits, i) && (forall|j: int| 0 <= j < i ==> !(#[trigger] hits_at(c, hits, j))) && v.risk_level == c[i]->0.risk_level && v.reason@ == "guard 不可达, 缓存规则命中: "@ + c[i]->0.reason@ && (v.requires_approval <==> v.risk_level is L3) && v.verdict_ttl_secs == 0 && v.redacted_content is None,
{
    lemma_first_hit(c, hits, 0);
}

/// The first rule that hits is found.
proof fn lemma_first_hit(c: Seq<Option<CompiledRule>>, hits: Seq<bool>, i: int)
    requires
        0 <= i <= c.len(),
    ensures
        first_hit(c, hits, i) is None ==> forall|j: int| i <= j ==> !(#[trigger] hits_at(c, hits, j)),
        first_hit(c, hits, i) is Some ==> exists|k: int| i <= k && #[trigger] hits_at(c, hits, k) && c[k] == first_hit(c, hits, i) && forall|j: int| i <= j < k ==> !(#[trigger] hits_at(c, hits, j)),
    decreases c.len() - i,
{
    if i < c.len() {
        if hits_at(c, hits, i) {
            assert(first_hit(c, hits, i) == c[i]);
        } else {
            lemma_first_hit(c, hits, i + 1);
            assert forall|j: int| i <= j && (first_hit(c, hits, i) is None) implies !(#[trigger] hits_at(c, hits, j)) by {
                if j > i {
                    assert(i + 1 <= j);
                }
            }
        }
    }
}

/// A rule is kept in the cache as it is, where its pattern is one that can be searched for and it is
/// of the stage that searches; any other is not kept.
pub proof fn law_rules_are_kept_as_they_are(c: Option<CompiledRule>, r: GuardRule)
    requires
        compiled_from(c, r),
    ensures
        c is Some <==> r.stage is Regex && regex_compiles(r.pattern@),
        c matches Some(k) ==> k.pattern@ == r.pattern@ && k.action == r.action && k.risk_level == r.risk_level && k.reason@ == r.reason@,
{
}

/// A rule hits a content where its pattern is found in it.
pub proof fn law_patterns_are_sought_in_the_content(c: Seq<Option<CompiledRule>>, content: Seq<char>, i: int)
    requires
        0 <= i < c.len(),
    ensures
        hits_said(c, content).len() == c.len(),
        hits_said(c, content)[i] <==> c[i] is Some && regex_found(c[i]->0.pattern@, content),
{
}

/// An error is told by its own sentence, with what it knows of itself.
pub proof fn law_errors_are_told_in_their_sentences(e: GuardErrorV)
    ensures
        e matches GuardErrorV::Unavailable(s) ==> error_sentence(e) == "guard unreachable: "@ + s,
        e is Timeout ==> error_sentence(e) == "guard request timeout"@,
        e matches GuardErrorV::Unauthorized(s) ==> error_sentence(e) == "guard unauthorized: "@ + s,
        e is RateLimited ==> error_sentence(e) == "guard rate limited"@,
        e matches GuardErrorV::StaleEpoch { caller, guard } ==> error_sentence(e) == "guard stale epoch: caller="@ + dec(caller as nat) + " guard="@ + dec(guard as nat),
        e matches GuardErrorV::Engine(s) ==> error_sentence(e) == "guard internal error: "@ + s,
        e matches GuardErrorV::BadResponse(s) ==> error_sentence(e) == "guard bad response: "@ + s,
        e matches GuardErrorV::Io(s) ==> error_sentence(e) == "io error: "@ + s,
        e matches GuardErrorV::Serde(s) ==> error_sentence(e) == "serde error: "@ + s,
{
}

/// A request is the text of its members and one line feed; a reply that is refused is told why; and
/// a reply of another number names both numbers.
pub proof fn law_exchange_is_line_by_line(id: u64, method: Seq<char>, params: JsonV, line: Seq<u8>, reply: RpcReply)
    ensures
        object_text(request_members(id, method, params)) matches Some(t) ==> request_said(id, method, params) == Some(t + seq!['\n']),
        object_text(request_members(id, method, params)) is None ==> request_said(id, method, params) is None,
        line.len() > 1_048_576 ==> reply_said(line) == Err::<Seq<u8>, GuardErrorV>(GuardErrorV::BadResponse("response exceeded 1048576 bytes"@)),
        line.len() <= 1_048_576 && reply_said(line) is Err ==> reply_said(line) == Err::<Seq<u8>, GuardErrorV>(GuardErrorV::BadResponse("empty response"@)),
        reply.id matches Some(other) && other != id ==> settled(id, reply) == Err::<JsonV, GuardErrorV>(GuardErrorV::BadResponse("id mismatch: sent "@ + dec(id as nat) + ", got "@ + dec(reply.id->0 as nat))),
        (reply.id is None || reply.id->0 == id) && reply.error is None && reply.result is None ==> settled(id, reply) == Err::<JsonV, GuardErrorV>(GuardErrorV::BadResponse("missing result"@)),
        mapped_error(-32003i32, Seq::empty()) == (GuardErrorV::StaleEpoch { caller: 0, guard: 0 }),
{
    if let Some(t) = object_text(request_members(id, method, params)) {
        assert(t + seq!['\n'] =~= t.push('\n'));
    }
}

/// A verdict of the cached rules names no action and no category, and is of the stage that searches.
pub proof fn law_cached_verdict_names_its_stage(v: GuardVerdict, c: Seq<Option<CompiledRule>>, hits: Seq<bool>, epoch: u64)
    requires
        verdict_from(Some(v), c, hits, epoch),
    ensures
        v.stage is Regex,
        v.action_id is None,
        v.inferred_category@.len() == 0,
        v.category_hint is None,
{
}

} // verus!
