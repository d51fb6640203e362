//! Frames: the lines that a connection carries, and the requests, replies and events in them.

use vstd::prelude::*;
use vstd::utf8::{decode_utf8, encode_scalar, encode_utf8, valid_utf8};
use crate::json::{as_text, empty_object, json_read, json_text, member, member_or_null, no_members, parse, render, text, with_member, Json, JsonV, Reading};
use crate::text::{behind, blank, chars_of, is_white, law_white_ends_are_trimmed, str_eq, string_from, trimmed};

verus! {

/// The code of a line that is no JSON, or is too long.
pub const ERR_PARSE: i64 = -32700;

/// The code of a request whose parameters do not fit.
pub const ERR_INVALID_REQ: i64 = -32600;

/// The code of a request for a method that there is not.
pub const ERR_METHOD_NOT_FOUND: i64 = -32601;

/// The code of a request that failed.
pub const ERR_INTERNAL: i64 = -32603;

/// The most bytes that a request line may have, its line feed among them.
pub const MAX_LINE_BYTES: usize = 1_048_576;

/// How many seconds a connection may stay silent.
pub const IDLE_READ_TIMEOUT_SECS: u64 = 30;

/// The reply to a request that was carried out.
pub open spec fn ok_said(id: JsonV, result: JsonV) -> JsonV {
    with_member(with_member(with_member(no_members(), "jsonrpc"@, JsonV::Str("2.0"@)), "id"@, id), "result"@, result)
}

/// What a refusal says.
pub open spec fn error_said(code: i64, message: Seq<char>) -> JsonV {
    with_member(with_member(no_members(), "code"@, int_said(code)), "message"@, JsonV::Str(message))
}

/// A signed integer as JSON.
pub open spec fn int_said(n: i64) -> JsonV {
    if n >= 0 {
        JsonV::UInt(n as u64)
    } else {
        JsonV::NInt(n)
    }
}

/// The reply to a request that was refused or failed.
pub open spec fn err_said(id: JsonV, code: i64, message: Seq<char>) -> JsonV {
    with_member(with_member(with_member(no_members(), "jsonrpc"@, JsonV::Str("2.0"@)), "id"@, id), "error"@, error_said(code, message))
}

/// An event that is pushed to a subscription.
pub open spec fn event_said(sub_id: Seq<char>, channel: Seq<char>, data: JsonV) -> JsonV {
    with_member(
        with_member(with_member(no_members(), "jsonrpc"@, JsonV::Str("2.0"@)), "method"@, JsonV::Str("executor.event"@)),
        "params"@,
        with_member(
            with_member(with_member(no_members(), "subscription_id"@, JsonV::Str(sub_id)), "channel"@, JsonV::Str(channel)),
            "data"@,
            data,
        ),
    )
}

/// The reply to a request that was carried out.
pub fn ok_resp(id: Json, result: Json) -> (r: Json)
    ensures
        r@ == ok_said(id@, result@),
{
    empty_object().with("jsonrpc", text("2.0")).with("id", id).with("result", result)
}

/// The reply to a request that was refused or failed.
pub fn err_resp(id: Json, code: i64, message: &str) -> (r: Json)
    ensures
        r@ == err_said(id@, code, message@),
{
    let error = empty_object().with("code", Json::NInt(code)).with("message", text(message));
    empty_object().with("jsonrpc", text("2.0")).with("id", id).with("error", error)
}

/// The text of the reply to a request that was refused or failed; empty where it cannot be written.
pub fn err_str(id: Json, code: i64, message: &str) -> (r: String)
    ensures
        r@ == written_or(err_said(id@, code, message@), Seq::empty()),
        !r@.contains('\n'),
{
    match render(&err_resp(id, code, message)) {
        Some(s) => s,
        None => String::new(),
    }
}

/// The text of a value, or another text where the value cannot be written.
pub open spec fn written_or(j: JsonV, otherwise: Seq<char>) -> Seq<char> {
    match json_text(j) {
        Some(s) => s,
        None => otherwise,
    }
}

/// An event that is pushed to a subscription.
pub fn notification(sub_id: &str, channel: &str, data: Json) -> (r: Json)
    ensures
        r@ == event_said(sub_id@, channel@, data@),
{
    let params = empty_object().with("subscription_id", text(sub_id)).with("channel", text(channel)).with("data", data);
    empty_object().with("jsonrpc", text("2.0")).with("method", text("executor.event")).with("params", params)
}

/// The frame that is written where a reply cannot be.
pub const FALLBACK_FRAME: &'static str = "{\"jsonrpc\":\"2.0\",\"id\":null,\"error\":{\"code\":-32603,\"message\":\"响应序列化失败\"}}";

/// The line of a frame, with its line feed.
pub open spec fn line_said(j: JsonV) -> Seq<char> {
    written_or(j, FALLBACK_FRAME@).push('\n')
}

/// The line of a frame, with its line feed: one line and no more.
pub fn write_line(j: &Json) -> (r: String)
    ensures
        r@ == line_said(j@),
        r@.len() > 0,
        r@.last() == '\n',
        !r@.drop_last().contains('\n'),
{
    let mut line = match render(j) {
        Some(s) => s,
        None => {
            proof {
                lemma_fallback_is_one_line();
            }
            FALLBACK_FRAME.to_owned()
        },
    };
    let ghost before = line@;
    line.push('\n');
    proof {
        assert(line@.drop_last() =~= before);
    }
    line
}

/// The line of the reply of a method, with its line feed: where it cannot be written, that of an
/// error in its place.
pub open spec fn reply_line_said(j: JsonV) -> Seq<char> {
    written_or(j, written_or(err_said(JsonV::Null, ERR_INTERNAL, "响应序列化失败"@), Seq::empty())).push('\n')
}

/// The line of the reply of a method, with its line feed: one line and no more.
pub fn reply_line(j: &Json) -> (r: String)
    ensures
        r@ == reply_line_said(j@),
        r@.last() == '\n',
        !r@.drop_last().contains('\n'),
{
    let mut line = match render(j) {
        Some(s) => s,
        None => err_str(Json::Null, ERR_INTERNAL, "响应序列化失败"),
    };
    let ghost before = line@;
    line.push('\n');
    proof {
        assert(line@.drop_last() =~= before);
    }
    line
}

/// The line of an event that is pushed, with its line feed: one line and no more, and none where it
/// cannot be written.
pub fn push_line(j: &Json) -> (r: Option<String>)
    ensures
        match json_text(j@) {
            Some(t) => r matches Some(line) && line@ == t.push('\n') && !t.contains('\n'),
            None => r is None,
        },
{
    match render(j) {
        Some(mut line) => {
            line.push('\n');
            Some(line)
        },
        None => None,
    }
}

/// The frame that is written where a reply cannot be is one line.
proof fn lemma_fallback_is_one_line()
    ensures
        !FALLBACK_FRAME@.contains('\n'),
{
    reveal_strlit("{\"jsonrpc\":\"2.0\",\"id\":null,\"error\":{\"code\":-32603,\"message\":\"响应序列化失败\"}}");
}

/// An event has no identifier, and a reply has the one of its request: by that a client tells them
/// apart.
pub proof fn law_events_have_no_identifier(sub_id: Seq<char>, channel: Seq<char>, data: JsonV, id: JsonV, result: JsonV, code: i64, message: Seq<char>)
    ensures
        member(event_said(sub_id, channel, data), "id"@) is None,
        member(ok_said(id, result), "id"@) == Some(id),
        member(err_said(id, code, message), "id"@) == Some(id),
{
    reveal_strlit("id");
    reveal_strlit("jsonrpc");
    reveal_strlit("method");
    reveal_strlit("params");
    reveal_strlit("result");
    reveal_strlit("error");
    assert("id"@.len() == 2);
    assert("jsonrpc"@.len() == 7);
    assert("method"@.len() == 6);
    assert("params"@.len() == 6);
    assert("result"@.len() == 6);
    assert("error"@.len() == 5);
}

/// A reply has either a result or an error, never both.
pub proof fn law_replies_succeed_or_fail(id: JsonV, result: JsonV, code: i64, message: Seq<char>)
    ensures
        member(ok_said(id, result), "result"@) == Some(result),
        member(ok_said(id, result), "error"@) is None,
        member(err_said(id, code, message), "result"@) is None,
        member(err_said(id, code, message), "error"@) == Some(error_said(code, message)),
{
    reveal_strlit("id");
    reveal_strlit("jsonrpc");
    reveal_strlit("result");
    reveal_strlit("error");
    assert("id"@.len() == 2);
    assert("jsonrpc"@.len() == 7);
    assert("result"@.len() == 6);
    assert("error"@.len() == 5);
}

/// What `String::from_utf8_lossy` reads from some bytes.
pub uninterp spec fn utf8_lossy(bytes: Seq<u8>) -> Seq<char>;

/// What is read from some bytes: what they stand for, or what `String::from_utf8_lossy` makes of
/// them where they are no UTF-8.
pub open spec fn decoded(bytes: Seq<u8>) -> Seq<char> {
    if valid_utf8(bytes) {
        decode_utf8(bytes)
    } else {
        utf8_lossy(bytes)
    }
}

/// `String::from_utf8_lossy`: bytes that are UTF-8 are read as what they stand for; of other bytes
/// it depends on them alone what is read.
#[verifier::external_body]
fn read_lossy(bytes: &Vec<u8>) -> (r: String)
    ensures
        r@ == utf8_lossy(bytes@),
        r@ == decoded(bytes@),
{
    String::from_utf8_lossy(bytes).into_owned()
}

/// A text without the carriage returns at its end.
pub open spec fn without_crs(s: Seq<char>) -> Seq<char>
    decreases s.len(),
{
    if s.len() > 0 && s.last() == '\r' {
        without_crs(s.drop_last())
    } else {
        s
    }
}

/// A text without the carriage returns at its end.
fn drop_crs(s: &str) -> (r: String)
    ensures
        r@ == without_crs(s@),
{
    let v = chars_of(s);
    let mut n: usize = v.len();
    proof {
        assert(v@.take(v@.len() as int) =~= v@);
    }
    while n > 0 && v[n - 1] == '\r'
        invariant
            n <= v@.len(),
            without_crs(v@) == without_crs(v@.take(n as int)),
        decreases n,
    {
        proof {
            assert(v@.take(n as int).drop_last() =~= v@.take(n - 1));
        }
        n = n - 1;
    }
    proof {
        if n > 0 {
            assert(v@.take(n as int).last() == v@[n - 1]);
        }
        assert(v@.subrange(0, n as int) =~= v@.take(n as int));
    }
    string_from(&v, 0, n)
}

/// What comes of the bytes that have come in.
pub enum LineStep<T> {
    /// No line has ended yet.
    More,
    /// A line has ended: its text without the line end, and how many of the bytes belong to it.
    Line { text: T, used: usize },
    /// The line is too long.
    TooLong,
    /// The other side has closed the connection; an unfinished line is given up.
    End,
}

impl View for LineStep<String> {
    type V = LineStep<Seq<char>>;

    open spec fn view(&self) -> LineStep<Seq<char>> {
        match self {
            LineStep::More => LineStep::More,
            LineStep::Line { text, used } => LineStep::Line { text: text@, used: *used },
            LineStep::TooLong => LineStep::TooLong,
            LineStep::End => LineStep::End,
        }
    }
}

/// The place of the first line feed in some bytes, or their number where there is none.
pub open spec fn line_feed(bytes: Seq<u8>) -> int
    decreases bytes.len(),
{
    if bytes.len() == 0 {
        0
    } else if bytes[0] == 10 {
        0
    } else {
        1 + line_feed(bytes.skip(1))
    }
}

/// Where the first line feed is.
pub proof fn lemma_line_feed(bytes: Seq<u8>)
    ensures
        0 <= line_feed(bytes) <= bytes.len(),
        line_feed(bytes) < bytes.len() ==> bytes[line_feed(bytes)] == 10,
        forall|k: int| 0 <= k < line_feed(bytes) ==> bytes[k] != 10,
    decreases bytes.len(),
{
    if bytes.len() > 0 && bytes[0] != 10 {
        lemma_line_feed(bytes.skip(1));
        assert forall|k: int| 0 <= k < line_feed(bytes) implies bytes[k] != 10 by {
            if k > 0 {
                assert(bytes[k] == bytes.skip(1)[k - 1]);
            }
        }
    }
}

/// A place before which there is no line feed, and at which there is one or the bytes end, is the
/// first.
proof fn lemma_first_line_feed(bytes: Seq<u8>, at: int)
    requires
        0 <= at <= bytes.len(),
        at < bytes.len() ==> bytes[at] == 10,
        forall|k: int| 0 <= k < at ==> bytes[k] != 10,
    ensures
        line_feed(bytes) == at,
{
    lemma_line_feed(bytes);
    let f = line_feed(bytes);
    if f < at {
        assert(bytes[f] == 10);
    }
}

/// What comes of some bytes that come in behind others of an unfinished line.
pub open spec fn fed(buf: Seq<u8>, chunk: Seq<u8>) -> LineStep<Seq<char>> {
    let nl = line_feed(chunk);
    let take = if nl < chunk.len() {
        nl + 1
    } else {
        chunk.len() as int
    };
    if chunk.len() == 0 {
        LineStep::End
    } else if buf.len() + take > MAX_LINE_BYTES {
        LineStep::TooLong
    } else if nl < chunk.len() {
        LineStep::Line { text: without_crs(decoded(buf + chunk.take(nl))), used: take as usize }
    } else {
        LineStep::More
    }
}

/// What is kept of an unfinished line.
pub open spec fn kept(buf: Seq<u8>, chunk: Seq<u8>) -> Seq<u8> {
    if fed(buf, chunk) is More {
        buf + chunk
    } else {
        Seq::empty()
    }
}

/// Reads lines from bytes as they come in, and never keeps more than a line may have.
pub struct LineReader {
    buf: Vec<u8>,
}

impl View for LineReader {
    type V = Seq<u8>;

    closed spec fn view(&self) -> Seq<u8> {
        self.buf@
    }
}

impl LineReader {
    /// Whether no more is kept than a line may have.
    pub open spec fn wf(&self) -> bool {
        self@.len() <= MAX_LINE_BYTES
    }

    /// A reader that has seen nothing.
    pub fn new() -> (r: Self)
        ensures
            r.wf(),
            r@ == Seq::<u8>::empty(),
    {
        LineReader { buf: Vec::new() }
    }

    /// Takes in some bytes; none of them means that the connection was closed.
    pub fn read_capped_line(&mut self, chunk: &[u8]) -> (r: LineStep<String>)
        requires
            old(self).wf(),
        ensures
            final(self).wf(),
            r@ == fed(old(self)@, chunk@),
            final(self)@ == kept(old(self)@, chunk@),
    {
        if chunk.len() == 0 {
            self.buf = Vec::new();
            return LineStep::End;
        }
        let mut nl: usize = 0;
        while nl < chunk.len() && chunk[nl] != 10
            invariant
                nl <= chunk@.len(),
                forall|k: int| 0 <= k < nl ==> chunk@[k] != 10,
            decreases chunk@.len() - nl,
        {
            nl = nl + 1;
        }
        proof {
            lemma_first_line_feed(chunk@, nl as int);
        }
        let found = nl < chunk.len();
        let room: usize = MAX_LINE_BYTES - self.buf.len();
        if nl > room || (found && nl == room) {
            self.buf = Vec::new();
            return LineStep::TooLong;
        }
        let ghost before = self.buf@;
        let mut i: usize = 0;
        while i < nl
            invariant
                i <= nl <= chunk@.len(),
                self.buf@ == before + chunk@.take(i as int),
            decreases nl - i,
        {
            self.buf.push(chunk[i]);
            proof {
                assert(self.buf@ =~= before + chunk@.take(i + 1));
            }
            i = i + 1;
        }
        if found {
            let raw = read_lossy(&self.buf);
            let text = drop_crs(raw.as_str());
            self.buf = Vec::new();
            LineStep::Line { text, used: nl + 1 }
        } else {
            proof {
                assert(chunk@.take(nl as int) =~= chunk@);
            }
            LineStep::More
        }
    }
}

/// No byte of a text without line feeds is a line feed.
proof fn lemma_no_line_feed(s: Seq<char>)
    requires
        !s.contains('\n'),
    ensures
        forall|k: int| 0 <= k < encode_utf8(s).len() ==> encode_utf8(s)[k] != 10,
    decreases s.len(),
{
    if s.len() > 0 {
        let rest = s.drop_first();
        assert(!rest.contains('\n')) by {
            if rest.contains('\n') {
                let k = choose|k: int| 0 <= k < rest.len() && rest[k] == '\n';
                assert(s[k + 1] == '\n');
            }
        }
        lemma_no_line_feed(rest);
        assert(s[0] != '\n');
        let c: char = s[0];
        vstd::utf8::char_u32_cast(c, c as u32);
        assert(10u32 as char == '\n');
        lemma_scalar_bytes(c as u32);
        let head = encode_scalar(s[0] as u32);
        assert(encode_utf8(s) == head + encode_utf8(rest));
    }
}

/// No byte of a character other than the line feed is a line feed.
proof fn lemma_scalar_bytes(c: u32)
    requires
        c != 10,
    ensures
        forall|k: int| 0 <= k < encode_scalar(c).len() ==> encode_scalar(c)[k] != 10,
{
    assert((0x80u8 | ((c & 0x3f) as u8)) != 10) by (bit_vector);
    assert((0x80u8 | (((c >> 6) & 0x3f) as u8)) != 10) by (bit_vector);
    assert((0x80u8 | (((c >> 12) & 0x3f) as u8)) != 10) by (bit_vector);
    assert((0xc0u8 | ((c >> 6) & 0x1f) as u8) != 10) by (bit_vector);
    assert((0xe0u8 | ((c >> 12) & 0x0f) as u8) != 10) by (bit_vector);
    assert((0xf0u8 | ((c >> 18) & 0x07) as u8) != 10) by (bit_vector);
    assert(c <= 0x7f ==> ((c & 0x7f) as u8) as u32 == c) by (bit_vector);
}

/// A line that was written is read back, whatever has come in before it in the same line's bytes:
/// the bytes of a text without line feeds that does not end in a carriage return, cut anywhere, with
/// a line feed behind them, give the text, unless the line is too long.
pub proof fn law_line_reads_back(line: Seq<char>, cut: int)
    requires
        0 <= cut <= encode_utf8(line).len(),
        encode_utf8(line).len() < MAX_LINE_BYTES,
        !line.contains('\n'),
        line.len() > 0 ==> line.last() != '\r',
    ensures
        cut > 0 ==> fed(Seq::empty(), encode_utf8(line).take(cut)) is More,
        kept(Seq::empty(), encode_utf8(line).take(cut)) == encode_utf8(line).take(cut),
        fed(encode_utf8(line).take(cut), encode_utf8(line).skip(cut).push(10)) == (LineStep::Line {
            text: line,
            used: (encode_utf8(line).len() - cut + 1) as usize,
        }),
{
    let bytes = encode_utf8(line);
    lemma_no_line_feed(line);
    let head = bytes.take(cut);
    let tail = bytes.skip(cut).push(10);
    assert forall|k: int| 0 <= k < head.len() implies head[k] != 10 by {
        assert(head[k] == bytes[k]);
    }
    lemma_first_line_feed(head, head.len() as int);
    assert forall|k: int| 0 <= k < bytes.len() - cut implies tail[k] != 10 by {
        assert(tail[k] == bytes[cut + k]);
    }
    lemma_first_line_feed(tail, bytes.len() - cut);
    assert(Seq::<u8>::empty() + head =~= head);
    assert(head + tail.take(bytes.len() - cut) =~= bytes);
    vstd::utf8::encode_utf8_valid_utf8(line);
    vstd::utf8::encode_utf8_decode_utf8(line);
}

/// A reader refuses a line before it keeps more of it than a line may have.
pub proof fn law_reader_is_bounded(buf: Seq<u8>, chunk: Seq<u8>)
    requires
        buf.len() <= MAX_LINE_BYTES,
    ensures
        kept(buf, chunk).len() <= MAX_LINE_BYTES,
        line_feed(chunk) == chunk.len() && buf.len() + chunk.len() > MAX_LINE_BYTES ==> fed(buf, chunk) is TooLong,
{
    lemma_line_feed(chunk);
}

/// What a request line is.
pub enum Incoming<T, J> {
    /// A line with nothing in it, which is passed over.
    Blank,
    /// A line that is no JSON, and the frame that answers it.
    Broken { reply: J },
    /// A request.
    Request { id: J, method: T, params: J },
}

impl View for Incoming<String, Json> {
    type V = Incoming<Seq<char>, JsonV>;

    open spec fn view(&self) -> Incoming<Seq<char>, JsonV> {
        match self {
            Incoming::Blank => Incoming::Blank,
            Incoming::Broken { reply } => Incoming::Broken { reply: reply@ },
            Incoming::Request { id, method, params } => Incoming::Request { id: id@, method: method@, params: params@ },
        }
    }
}

/// The request that a value is: what it leaves out is null, or the empty text.
pub open spec fn request_in(j: JsonV) -> Incoming<Seq<char>, JsonV> {
    Incoming::Request {
        id: member_or_null(j, "id"@),
        method: match as_text(member(j, "method"@)) {
            Some(m) => m,
            None => Seq::empty(),
        },
        params: member_or_null(j, "params"@),
    }
}

/// What a request line is.
pub open spec fn incoming(line: Seq<char>) -> Incoming<Seq<char>, JsonV> {
    if trimmed(line).len() == 0 {
        Incoming::Blank
    } else {
        match json_read(line) {
            Reading::Value(j) => request_in(j),
            Reading::Fault(e) => Incoming::Broken { reply: err_said(JsonV::Null, ERR_PARSE, "Parse error: "@ + e) },
        }
    }
}

/// The request that a value is.
pub fn request_from(j: &Json) -> (r: Incoming<String, Json>)
    ensures
        r@ == request_in(j@),
{
    let method = match j.get_str("method") {
        Some(m) => m,
        None => String::new(),
    };
    Incoming::Request { id: j.get_or_null("id"), method, params: j.get_or_null("params") }
}

/// What a request line is.
pub fn receive(line: &str) -> (r: Incoming<String, Json>)
    ensures
        r@ == incoming(line@),
{
    if blank(line) {
        return Incoming::Blank;
    }
    match parse(line) {
        Ok(j) => request_from(&j),
        Err(e) => Incoming::Broken { reply: err_resp(Json::Null, ERR_PARSE, behind("Parse error: ", e.as_str()).as_str()) },
    }
}

/// Why a connection is given up.
#[derive(Debug, Clone, Copy, PartialEq, Eq, Structural)]
pub enum Drop {
    /// A line was too long.
    TooLong,
    /// Nothing came in for too long, or the connection failed.
    Silent,
}

/// The frame that a connection is given up with.
pub open spec fn drop_said(d: Drop) -> JsonV {
    match d {
        Drop::TooLong => err_said(JsonV::Null, ERR_PARSE, "请求行超过 1MB 上限"@),
        Drop::Silent => err_said(JsonV::Null, ERR_INTERNAL, "idle 读超时"@),
    }
}

/// The frame that a connection is given up with.
pub fn drop_frame(d: Drop) -> (r: Json)
    ensures
        r@ == drop_said(d),
{
    match d {
        Drop::TooLong => err_resp(Json::Null, ERR_PARSE, "请求行超过 1MB 上限"),
        Drop::Silent => err_resp(Json::Null, ERR_INTERNAL, "idle 读超时"),
    }
}

/// Who answers a request.
#[derive(Debug, Clone, Copy, PartialEq, Eq, Structural)]
pub enum Route {
    /// It is answered with the output of a command, part by part.
    ExecuteStream,
    /// It is answered with samples, one by one.
    TelemetryStream,
    /// It makes a subscription.
    Subscribe,
    /// It ends a subscription.
    Unsubscribe,
    /// It is answered with one reply.
    Method,
}

/// Who answers a request for a method.
pub open spec fn route_said(method: Seq<char>) -> Route {
    if method == "executor.execute_stream"@ {
        Route::ExecuteStream
    } else if method == "executor.telemetry_stream"@ {
        Route::TelemetryStream
    } else if method == "executor.subscribe"@ {
        Route::Subscribe
    } else if method == "executor.unsubscribe"@ {
        Route::Unsubscribe
    } else {
        Route::Method
    }
}

/// Who answers a request for a method.
pub fn dispatch_request(method: &str) -> (r: Route)
    ensures
        r == route_said(method@),
{
    if str_eq(method, "executor.execute_stream") {
        Route::ExecuteStream
    } else if str_eq(method, "executor.telemetry_stream") {
        Route::TelemetryStream
    } else if str_eq(method, "executor.subscribe") {
        Route::Subscribe
    } else if str_eq(method, "executor.unsubscribe") {
        Route::Unsubscribe
    } else {
        Route::Method
    }
}

/// What a method gave: a result, or the code and the message of a refusal.
pub open spec fn outcome_said(r: Result<Json, (i64, String)>) -> Result<JsonV, (i64, Seq<char>)> {
    match r {
        Ok(j) => Ok(j@),
        Err(e) => Err((e.0, e.1@)),
    }
}

/// The reply that tells what a method gave.
pub open spec fn reply_said(id: JsonV, r: Result<JsonV, (i64, Seq<char>)>) -> JsonV {
    match r {
        Ok(j) => ok_said(id, j),
        Err(e) => err_said(id, e.0, e.1),
    }
}

/// The reply that tells what a method gave.
pub fn reply(id: Json, r: Result<Json, (i64, String)>) -> (f: Json)
    ensures
        f@ == reply_said(id@, outcome_said(r)),
{
    match r {
        Ok(j) => ok_resp(id, j),
        Err(e) => err_resp(id, e.0, e.1.as_str()),
    }
}

/// Every request is answered under its own identifier, whatever its method gave.
pub proof fn law_reply_keeps_the_identifier(id: JsonV, r: Result<JsonV, (i64, Seq<char>)>)
    ensures
        member(reply_said(id, r), "id"@) == Some(id),
{
    match r {
        Ok(j) => law_events_have_no_identifier(Seq::empty(), Seq::empty(), j, id, j, 0, Seq::empty()),
        Err(e) => law_events_have_no_identifier(Seq::empty(), Seq::empty(), JsonV::Null, id, JsonV::Null, e.0, e.1),
    }
}

/// The names in a frame are all different.
proof fn lemma_frame_names_differ()
    ensures
        "jsonrpc"@ != "id"@,
        "jsonrpc"@ != "result"@,
        "jsonrpc"@ != "error"@,
        "jsonrpc"@ != "method"@,
        "jsonrpc"@ != "params"@,
        "method"@ != "params"@,
        "id"@ != "error"@,
        "code"@ != "message"@,
        "subscription_id"@ != "channel"@,
        "subscription_id"@ != "data"@,
        "channel"@ != "data"@,
{
    reveal_strlit("jsonrpc");
    reveal_strlit("id");
    reveal_strlit("result");
    reveal_strlit("error");
    reveal_strlit("method");
    reveal_strlit("params");
    reveal_strlit("code");
    reveal_strlit("message");
    reveal_strlit("subscription_id");
    reveal_strlit("channel");
    reveal_strlit("data");
    assert("jsonrpc"@.len() == 7);
    assert("id"@.len() == 2);
    assert("result"@.len() == 6);
    assert("error"@.len() == 5);
    assert("method"@.len() == 6);
    assert("params"@.len() == 6);
    assert("method"@[0] != "params"@[0]);
    assert("code"@.len() == 4);
    assert("message"@.len() == 7);
    assert("subscription_id"@.len() == 15);
    assert("channel"@.len() == 7);
    assert("data"@.len() == 4);
}

/// Whether a value is the number.
pub open spec fn is_number(j: Option<JsonV>, n: int) -> bool {
    match j {
        Some(JsonV::UInt(u)) => u == n,
        Some(JsonV::NInt(i)) => i == n && n < 0,
        _ => false,
    }
}

/// Whether a frame answers the request of this identifier with this error.
pub open spec fn tells_error(frame: JsonV, id: JsonV, code: int, message: Seq<char>) -> bool {
    &&& member(frame, "jsonrpc"@) == Some(JsonV::Str("2.0"@))
    &&& member(frame, "id"@) == Some(id)
    &&& member(frame, "error"@) matches Some(e)
    &&& is_number(member(e, "code"@), code)
    &&& member(e, "message"@) == Some(JsonV::Str(message))
}

/// An error frame has the code and the message of its error, under the identifier of its request.
pub proof fn law_error_is_told(id: JsonV, code: i64, message: Seq<char>)
    ensures
        tells_error(err_said(id, code, message), id, code as int, message),
{
    lemma_frame_names_differ();
}

/// A reply names the version, and holds the result under its name.
pub proof fn law_reply_holds_its_result(id: JsonV, result: JsonV)
    ensures
        member(ok_said(id, result), "jsonrpc"@) == Some(JsonV::Str("2.0"@)),
        member(ok_said(id, result), "id"@) == Some(id),
        member(ok_said(id, result), "result"@) == Some(result),
        reply_said(id, Ok(result)) == ok_said(id, result),
{
    lemma_frame_names_differ();
    law_events_have_no_identifier(Seq::empty(), Seq::empty(), result, id, result, 0, Seq::empty());
    law_replies_succeed_or_fail(id, result, 0, Seq::empty());
}

/// An event names its subscription, its channel and what has happened.
pub proof fn law_event_names_its_subscription(sub_id: Seq<char>, channel: Seq<char>, data: JsonV)
    ensures
        member(event_said(sub_id, channel, data), "jsonrpc"@) == Some(JsonV::Str("2.0"@)),
        member(event_said(sub_id, channel, data), "method"@) == Some(JsonV::Str("executor.event"@)),
        member(event_said(sub_id, channel, data), "params"@) matches Some(p) && {
            &&& member(p, "subscription_id"@) == Some(JsonV::Str(sub_id))
            &&& member(p, "channel"@) == Some(JsonV::Str(channel))
            &&& member(p, "data"@) == Some(data)
        },
{
    lemma_frame_names_differ();
}

/// A request that fails is answered with the error that it failed with.
pub proof fn law_failure_is_answered(id: JsonV, code: i64, message: Seq<char>)
    ensures
        tells_error(reply_said(id, Err((code, message))), id, code as int, message),
{
    law_error_is_told(id, code, message);
}

/// A frame on the wire is its text and one line feed, whatever becomes of the text.
pub proof fn law_frame_is_a_line(j: JsonV)
    ensures
        line_said(j).len() > 0,
        line_said(j).last() == '\n',
        reply_line_said(j).len() > 0,
        reply_line_said(j).last() == '\n',
        json_text(j) matches Some(s) ==> line_said(j).drop_last() == s && reply_line_said(j).drop_last() == s,
        json_text(j) is None ==> line_said(j).drop_last() == FALLBACK_FRAME@,
{
    if let Some(s) = json_text(j) {
        assert(s.push('\n').drop_last() =~= s);
    }
    assert(FALLBACK_FRAME@.push('\n').drop_last() =~= FALLBACK_FRAME@);
}

/// Carriage returns at the end of a line go, and nothing else.
proof fn lemma_returns_go(s: Seq<char>) -> (n: int)
    ensures
        0 <= n <= s.len(),
        without_crs(s) == s.take(n),
        forall|k: int| n <= k < s.len() ==> #[trigger] s[k] == '\r',
        n > 0 ==> s[n - 1] != '\r',
    decreases s.len(),
{
    if s.len() > 0 && s.last() == '\r' {
        let t = s.drop_last();
        let n = lemma_returns_go(t);
        assert(t.take(n) =~= s.take(n));
        assert forall|k: int| n <= k < s.len() implies #[trigger] s[k] == '\r' by {
            if k < t.len() {
                assert(t[k] == s[k]);
            }
        }
        n
    } else {
        assert(s.take(s.len() as int) =~= s);
        s.len() as int
    }
}

/// Whether the first line feed of some bytes is at this place.
pub open spec fn feeds_at(bytes: Seq<u8>, p: int) -> bool {
    &&& 0 <= p < bytes.len()
    &&& bytes[p] == 10
    &&& forall|k: int| 0 <= k < p ==> #[trigger] bytes[k] != 10
}

/// Whether a text is what is left of another without the carriage returns at its end.
pub open spec fn has_lost_returns(line: Seq<char>, whole: Seq<char>) -> bool {
    &&& line.is_prefix_of(whole)
    &&& forall|k: int| line.len() <= k < whole.len() ==> #[trigger] whole[k] == '\r'
    &&& line.len() > 0 ==> line.last() != '\r'
}

/// A line ends at the first line feed and holds all that came before it; it may have a mebibyte with
/// its line feed, and bytes without one are kept for the next.
pub proof fn law_line_is_all_up_to_its_feed(buf: Seq<u8>, chunk: Seq<u8>, p: int)
    ensures
        chunk.len() == 0 <==> fed(buf, chunk) is End,
        feeds_at(chunk, p) && buf.len() + p + 1 > 1_048_576 ==> fed(buf, chunk) is TooLong,
        feeds_at(chunk, p) && buf.len() + p + 1 <= 1_048_576 ==> (fed(buf, chunk) matches LineStep::Line { text, used } && used == p + 1 && has_lost_returns(text, decoded(buf + chunk.take(p)))),
        chunk.len() > 0 && !chunk.contains(10) && buf.len() + chunk.len() > 1_048_576 ==> fed(buf, chunk) is TooLong,
        chunk.len() > 0 && !chunk.contains(10) && buf.len() + chunk.len() <= 1_048_576 ==> fed(buf, chunk) is More && kept(buf, chunk) == buf + chunk,
        !(fed(buf, chunk) is More) ==> kept(buf, chunk).len() == 0,
{
    lemma_line_feed(chunk);
    let nl = line_feed(chunk);
    if feeds_at(chunk, p) {
        if nl < p {
            assert(chunk[nl] != 10);
        }
        assert(nl == p);
        let whole = decoded(buf + chunk.take(p));
        let n = lemma_returns_go(whole);
        assert(whole.take(n) == whole.subrange(0, n));
    }
    if !chunk.contains(10) && nl < chunk.len() {
        assert(chunk.contains(chunk[nl]));
    }
}

/// A line of white space is passed over, one that cannot be read is answered with the reason, and any
/// other is a request with the identifier, the method and the parameters that it has.
pub proof fn law_line_is_its_request(line: Seq<char>)
    ensures
        incoming(line) is Blank <==> (forall|k: int| 0 <= k < line.len() ==> is_white(#[trigger] line[k])),
        !(incoming(line) is Blank) ==> match json_read(line) {
            Reading::Fault(e) => incoming(line) matches Incoming::Broken { reply } && tells_error(reply, JsonV::Null, -32700, "Parse error: "@ + e),
            Reading::Value(j) => incoming(line) matches Incoming::Request { id, method, params } && {
                &&& member(j, "id"@) matches Some(v) ==> id == v
                &&& member(j, "id"@) is None ==> id is Null
                &&& member(j, "params"@) matches Some(v) ==> params == v
                &&& member(j, "params"@) is None ==> params is Null
                &&& member(j, "method"@) matches Some(JsonV::Str(m)) ==> method == m
                &&& !(member(j, "method"@) matches Some(JsonV::Str(m))) ==> method.len() == 0
            },
        },
{
    law_white_ends_are_trimmed(line);
    lemma_frame_names_differ();
}

/// A connection that is given up is told why: its line is too long, or nothing came.
pub proof fn law_reason_of_the_end_is_told()
    ensures
        tells_error(drop_said(Drop::TooLong), JsonV::Null, -32700, "请求行超过 1MB 上限"@),
        tells_error(drop_said(Drop::Silent), JsonV::Null, -32603, "idle 读超时"@),
{
    lemma_frame_names_differ();
}

/// A request goes the way of its method, and only the methods of the four ways leave the common one.
pub proof fn law_request_goes_the_way_of_its_method(method: Seq<char>)
    ensures
        route_said(method) is ExecuteStream ==> method == "executor.execute_stream"@,
        route_said(method) is TelemetryStream ==> method == "executor.telemetry_stream"@,
        route_said(method) is Subscribe ==> method == "executor.subscribe"@,
        route_said(method) is Unsubscribe ==> method == "executor.unsubscribe"@,
        route_said(method) is Method ==> {
            &&& method != "executor.execute_stream"@
            &&& method != "executor.telemetry_stream"@
            &&& method != "executor.subscribe"@
            &&& method != "executor.unsubscribe"@
        },
{
}

/// A request is seen with its own identifier, method and parameters.
pub proof fn law_requests_are_seen_as_they_are(r: Incoming<String, Json>, o: Result<Json, (i64, String)>)
    ensures
        r is Blank <==> r@ is Blank,
        r matches Incoming::Broken { reply } ==> r@ == (Incoming::<Seq<char>, JsonV>::Broken { reply: reply@ }),
        r matches Incoming::Request { id, method, params } ==> r@ == (Incoming::<Seq<char>, JsonV>::Request { id: id@, method: method@, params: params@ }),
        o matches Ok(j) ==> outcome_said(o) == Ok::<JsonV, (i64, Seq<char>)>(j@),
        o matches Err(e) ==> outcome_said(o) == Err::<JsonV, (i64, Seq<char>)>((e.0, e.1@)),
{
}

} // verus!
