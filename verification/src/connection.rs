//! A connection: how the bytes that come in become requests.

use vstd::prelude::*;
use crate::frames::{dispatch_request, drop_frame, drop_said, fed, incoming, kept, lemma_line_feed, line_feed, receive, route_said, Drop, Incoming, LineReader, LineStep, Route, MAX_LINE_BYTES};
use crate::json::{Json, JsonV};

verus! {

/// What a connection calls for.
pub enum ConnStep<T, J> {
    /// More bytes, behind these.
    More,
    /// Nothing: a blank line has ended, to which so many of the bytes belong.
    PassOver { used: usize },
    /// A frame that answers a line, to which so many of the bytes belong.
    Answer { used: usize, frame: J },
    /// The start of a request, to which so many of the bytes belong.
    Start { used: usize, id: J, method: T, params: J, route: Route },
    /// Its end, behind this frame where there is one.
    Close { frame: Option<J> },
}

impl View for ConnStep<String, Json> {
    type V = ConnStep<Seq<char>, JsonV>;

    open spec fn view(&self) -> ConnStep<Seq<char>, JsonV> {
        match self {
            ConnStep::More => ConnStep::More,
            ConnStep::PassOver { used } => ConnStep::PassOver { used: *used },
            ConnStep::Answer { used, frame } => ConnStep::Answer { used: *used, frame: frame@ },
            ConnStep::Start { used, id, method, params, route } => ConnStep::Start {
                used: *used,
                id: id@,
                method: method@,
                params: params@,
                route: *route,
            },
            ConnStep::Close { frame: None } => ConnStep::Close { frame: None },
            ConnStep::Close { frame: Some(f) } => ConnStep::Close { frame: Some(f@) },
        }
    }
}

/// What a line calls for.
pub open spec fn line_step(line: Seq<char>, used: usize) -> ConnStep<Seq<char>, JsonV> {
    match incoming(line) {
        Incoming::Blank => ConnStep::PassOver { used },
        Incoming::Broken { reply } => ConnStep::Answer { used, frame: reply },
        Incoming::Request { id, method, params } => ConnStep::Start { used, id, method, params, route: route_said(method) },
    }
}

/// What some bytes that come in behind others of an unfinished line call for.
pub open spec fn conn_step(buf: Seq<u8>, chunk: Seq<u8>) -> ConnStep<Seq<char>, JsonV> {
    match fed(buf, chunk) {
        LineStep::More => ConnStep::More,
        LineStep::Line { text, used } => line_step(text, used),
        LineStep::TooLong => ConnStep::Close { frame: Some(drop_said(Drop::TooLong)) },
        LineStep::End => ConnStep::Close { frame: None },
    }
}

/// A connection: what has come in of an unfinished line, and whether it is open.
pub struct Connection {
    reader: LineReader,
    open: bool,
}

/// What a connection knows.
pub struct ConnV {
    pub buf: Seq<u8>,
    pub open: bool,
}

impl View for Connection {
    type V = ConnV;

    closed spec fn view(&self) -> ConnV {
        ConnV { buf: self.reader@, open: self.open }
    }
}

/// A connection behind some bytes.
pub open spec fn conn_next(c: ConnV, chunk: Seq<u8>) -> ConnV {
    if c.open {
        ConnV { buf: kept(c.buf, chunk), open: !(conn_step(c.buf, chunk) is Close) }
    } else {
        c
    }
}

impl Connection {
    /// Whether no more is kept than a line may have.
    pub closed spec fn wf(&self) -> bool {
        self.reader.wf()
    }

    /// A connection of which nothing has come in.
    pub fn new() -> (r: Self)
        ensures
            r.wf(),
            r@ == (ConnV { buf: Seq::empty(), open: true }),
    {
        Connection { reader: LineReader::new(), open: true }
    }

    /// What some bytes call for; none of them means that the other side has closed the connection. Of
    /// the bytes behind those that belong to a line nothing is kept: they come in again.
    pub fn handle_conn(&mut self, chunk: &[u8]) -> (r: ConnStep<String, Json>)
        requires
            old(self).wf(),
        ensures
            final(self).wf(),
            r@ == (if old(self)@.open {
                conn_step(old(self)@.buf, chunk@)
            } else {
                ConnStep::Close { frame: None }
            }),
            final(self)@ == conn_next(old(self)@, chunk@),
    {
        if !self.open {
            return ConnStep::Close { frame: None };
        }
        match self.reader.read_capped_line(chunk) {
            LineStep::More => ConnStep::More,
            LineStep::Line { text, used } => match receive(text.as_str()) {
                Incoming::Blank => ConnStep::PassOver { used },
                Incoming::Broken { reply } => ConnStep::Answer { used, frame: reply },
                Incoming::Request { id, method, params } => {
                    let route = dispatch_request(method.as_str());
                    ConnStep::Start { used, id, method, params, route }
                },
            },
            LineStep::TooLong => {
                self.open = false;
                ConnStep::Close { frame: Some(drop_frame(Drop::TooLong)) }
            },
            LineStep::End => {
                self.open = false;
                ConnStep::Close { frame: None }
            },
        }
    }

    /// Ends the connection since nothing has come in for too long, or since it failed.
    pub fn silent(&mut self) -> (r: ConnStep<String, Json>)
        requires
            old(self).wf(),
        ensures
            final(self).wf(),
            final(self)@ == (ConnV { open: false, ..old(self)@ }),
            r@ == (ConnStep::<Seq<char>, JsonV>::Close {
                frame: if old(self)@.open {
                    Some(drop_said(Drop::Silent))
                } else {
                    None
                },
            }),
    {
        if !self.open {
            return ConnStep::Close { frame: None };
        }
        self.open = false;
        ConnStep::Close { frame: Some(drop_frame(Drop::Silent)) }
    }
}

/// What a line calls for, whatever bytes it came in.
pub open spec fn act_of(line: Seq<char>) -> ConnStep<Seq<char>, JsonV> {
    line_step(line, 0)
}

/// What all of some bytes that come in behind others of an unfinished line call for, line by line.
pub open spec fn acts(buf: Seq<u8>, s: Seq<u8>) -> Seq<ConnStep<Seq<char>, JsonV>>
    decreases s.len(),
{
    if s.len() == 0 {
        Seq::empty()
    } else {
        match fed(buf, s) {
            LineStep::Line { text, used } => if 0 < used <= s.len() {
                seq![act_of(text)] + acts(Seq::empty(), s.skip(used as int))
            } else {
                Seq::empty()
            },
            LineStep::TooLong => seq![ConnStep::Close { frame: Some(drop_said(Drop::TooLong)) }],
            _ => Seq::empty(),
        }
    }
}

/// What is kept of an unfinished line behind all of some bytes, unless the connection is closed then.
pub open spec fn left(buf: Seq<u8>, s: Seq<u8>) -> Option<Seq<u8>>
    decreases s.len(),
{
    if s.len() == 0 {
        Some(buf)
    } else {
        match fed(buf, s) {
            LineStep::Line { text, used } => if 0 < used <= s.len() {
                left(Seq::empty(), s.skip(used as int))
            } else {
                None
            },
            LineStep::More => Some(buf + s),
            _ => None,
        }
    }
}

/// The first line feed of two pieces is that of the first, or else that of the second.
proof fn lemma_line_feed_of_two(a: Seq<u8>, b: Seq<u8>)
    ensures
        line_feed(a + b) == (if line_feed(a) < a.len() {
            line_feed(a)
        } else {
            a.len() + line_feed(b)
        }),
    decreases a.len(),
{
    if a.len() == 0 {
        assert(a + b =~= b);
    } else if a[0] != 10 {
        lemma_line_feed_of_two(a.skip(1), b);
        assert((a + b).skip(1) =~= a.skip(1) + b);
        assert((a + b)[0] == a[0]);
    } else {
        assert((a + b)[0] == a[0]);
    }
}

/// How the bytes of a connection are cut into pieces does not matter: the same requests come of them,
/// and the connection ends at the same line.
pub proof fn law_pieces_do_not_matter(buf: Seq<u8>, a: Seq<u8>, b: Seq<u8>)
    requires
        buf.len() <= MAX_LINE_BYTES,
    ensures
        match left(buf, a) {
            Some(k) => k.len() <= MAX_LINE_BYTES && acts(buf, a + b) == acts(buf, a) + acts(k, b) && left(buf, a + b) == left(k, b),
            None => acts(buf, a + b) == acts(buf, a) && left(buf, a + b) is None,
        },
    decreases a.len(),
{
    let whole = a + b;
    lemma_line_feed(a);
    lemma_line_feed(b);
    lemma_line_feed_of_two(a, b);
    if a.len() == 0 {
        assert(whole =~= b);
        assert(acts(buf, a) + acts(buf, b) =~= acts(buf, b));
    } else if line_feed(a) < a.len() {
        let nl = line_feed(a);
        assert(whole.take(nl) =~= a.take(nl));
        assert(fed(buf, whole) == fed(buf, a));
        if fed(buf, a) is Line {
            assert(whole.skip(nl + 1) =~= a.skip(nl + 1) + b);
            law_pieces_do_not_matter(Seq::empty(), a.skip(nl + 1), b);
            match left(buf, a) {
                Some(k) => {
                    assert(acts(buf, whole) =~= acts(buf, a) + acts(k, b));
                },
                None => {},
            }
        }
    } else if buf.len() + a.len() > MAX_LINE_BYTES {
        assert(fed(buf, whole) is TooLong);
        assert(fed(buf, a) is TooLong);
    } else {
        let k = buf + a;
        assert(left(buf, a) == Some(k));
        if b.len() == 0 {
            assert(whole =~= a);
            assert(acts(buf, a) + acts(k, b) =~= acts(buf, a));
        } else {
            let nl = line_feed(b);
            if nl < b.len() {
                assert(buf + whole.take(a.len() + nl) =~= k + b.take(nl));
                assert(whole.skip(a.len() + nl + 1) =~= b.skip(nl + 1));
            }
            assert(buf + whole =~= k + b);
            assert(acts(buf, a) =~= Seq::empty());
            assert(acts(buf, a) + acts(k, b) =~= acts(k, b));
        }
    }
}

/// A connection keeps no more than a line may have, and a closed one calls for nothing more.
pub proof fn law_connection_is_bounded(c: ConnV, chunk: Seq<u8>)
    requires
        c.buf.len() <= MAX_LINE_BYTES,
    ensures
        conn_next(c, chunk).buf.len() <= MAX_LINE_BYTES,
        !c.open ==> !conn_next(c, chunk).open,
{
    crate::frames::law_reader_is_bounded(c.buf, chunk);
}

/// A line that is a request starts its method with its own identifier and parameters; one that
/// cannot be read is answered and the connection goes on; a blank one is passed over.
pub proof fn law_line_calls_for_its_request(line: Seq<char>, used: usize)
    ensures
        incoming(line) is Blank ==> line_step(line, used) == (ConnStep::<Seq<char>, JsonV>::PassOver { used }),
        incoming(line) matches Incoming::Broken { reply } ==> line_step(line, used) == (ConnStep::<Seq<char>, JsonV>::Answer { used, frame: reply }),
        incoming(line) matches Incoming::Request { id, method, params } ==> (line_step(line, used) matches ConnStep::Start { used: u, id: i, method: m, params: p, route: r } && u == used && i == id && m == method && p == params && r == route_said(method)),
{
}

/// A connection ends only where its bytes do or where a line is too long, and only the second is
/// told.
pub proof fn law_connection_ends_with_its_bytes(c: ConnV, chunk: Seq<u8>)
    ensures
        conn_step(c.buf, chunk) is Close <==> fed(c.buf, chunk) is End || fed(c.buf, chunk) is TooLong,
        fed(c.buf, chunk) is End ==> conn_step(c.buf, chunk) == (ConnStep::<Seq<char>, JsonV>::Close { frame: None }),
        fed(c.buf, chunk) is TooLong ==> (conn_step(c.buf, chunk) matches ConnStep::Close { frame } && frame == Some(drop_said(Drop::TooLong))),
        fed(c.buf, chunk) is More <==> conn_step(c.buf, chunk) is More,
        fed(c.buf, chunk) matches LineStep::Line { text, used } ==> conn_step(c.buf, chunk) == line_step(text, used),
        conn_next(c, chunk).open <==> c.open && chunk.len() > 0 && !(fed(c.buf, chunk) is TooLong),
        c.open ==> conn_next(c, chunk).buf == kept(c.buf, chunk),
        !c.open ==> conn_next(c, chunk) == c,
{
}

/// What a connection calls for is seen as it is.
pub proof fn law_steps_are_seen_as_they_are(s: ConnStep<String, Json>)
    ensures
        s is More <==> s@ is More,
        s matches ConnStep::PassOver { used } ==> s@ == (ConnStep::<Seq<char>, JsonV>::PassOver { used }),
        s matches ConnStep::Answer { used, frame } ==> s@ == (ConnStep::<Seq<char>, JsonV>::Answer { used, frame: frame@ }),
        s matches ConnStep::Start { used, id, method, params, route } ==> s@ == (ConnStep::<Seq<char>, JsonV>::Start { used, id: id@, method: method@, params: params@, route }),
        s matches ConnStep::Close { frame } ==> (s@ matches ConnStep::Close { frame: f } && (frame is Some <==> f is Some) && (frame is Some ==> f == Some(frame->Some_0@))),
{
}

} // verus!
