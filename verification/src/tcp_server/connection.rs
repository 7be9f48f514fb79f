//! One connection: buffering, framing, routing and the request deadline.
//!
//! [`Connection`] holds the bytes received so far and decides what happens next.
//! The task that owns the socket asks [`Connection::next`] for an [`Action`],
//! carries it out, and reports what it read to [`Connection::on_read`]. Nothing
//! here reads a clock: an action says when the deadline of a request starts, and
//! one request starts it at most once, however its bytes trickle in.

use vstd::prelude::*;
use vstd::slice::{slice_subrange, slice_to_vec};
use vstd::utf8;

use crate::counter;
use crate::tcp_server::http;
use crate::tcp_server::http::{
    build_response, parse_head, HeadView, ParseError, RequestHead, MAX_HEAD_BYTES,
};
use crate::tcp_server::metrics::Metrics;
use crate::text;

verus! {

/// What one attempt to read from the socket brought.
#[derive(Debug, Clone, Copy, PartialEq, Eq, Structural)]
pub enum ReadResult {
    /// The time ran out first.
    Elapsed,
    /// The socket reported an error.
    Failed,
    /// So many bytes were read.
    Read(usize),
}

/// Outcome of a single read.
#[derive(Debug, Clone, Copy, PartialEq, Eq, Structural)]
pub enum ReadOutcome {
    Bytes,
    Eof,
    Timeout,
    Shutdown,
    Failed,
}

/// The outcome that a read result stands for.
pub open spec fn outcome_of(result: ReadResult) -> ReadOutcome {
    match result {
        ReadResult::Elapsed => ReadOutcome::Timeout,
        ReadResult::Failed => ReadOutcome::Failed,
        ReadResult::Read(n) => if n == 0 {
            ReadOutcome::Eof
        } else {
            ReadOutcome::Bytes
        },
    }
}

/// The bytes of `tmp` that a read result has filled.
pub open spec fn received(result: ReadResult, tmp: Seq<u8>) -> Seq<u8> {
    match result {
        ReadResult::Read(n) => tmp.take(n as int),
        _ => Seq::empty(),
    }
}

/// Turns a read result into a [`ReadOutcome`], appending any bytes read.
pub fn classify(result: ReadResult, buf: &mut Vec<u8>, tmp: &[u8]) -> (outcome: ReadOutcome)
    requires
        result matches ReadResult::Read(n) ==> n <= tmp@.len(),
    ensures
        outcome == outcome_of(result),
        final(buf)@ == old(buf)@ + received(result, tmp@),
{
    match result {
        ReadResult::Elapsed => ReadOutcome::Timeout,
        ReadResult::Failed => ReadOutcome::Failed,
        ReadResult::Read(n) => {
            if n == 0 {
                ReadOutcome::Eof
            } else {
                let fresh = slice_subrange(tmp, 0, n);
                assert(fresh@ =~= tmp@.take(n as int));
                buf.extend_from_slice(fresh);
                ReadOutcome::Bytes
            }
        },
    }
}

/// The figures that the status page shows.
#[derive(Debug, Clone, Copy, PartialEq, Eq, Structural)]
pub struct StatusCounts {
    pub active: u64,
    pub connections_total: u64,
    pub requests_total: u64,
}

/// A routed request: status, reason and body.
pub struct Routed {
    pub status: nat,
    pub reason: Seq<char>,
    pub body: Seq<char>,
}

/// The body of the status page.
pub open spec fn status_body(counts: StatusCounts) -> Seq<char> {
    "{\"connections_active\":"@ + text::decimal_text(counts.active as nat)
        + ",\"connections_total\":"@ + text::decimal_text(counts.connections_total as nat)
        + ",\"requests_total\":"@ + text::decimal_text(counts.requests_total as nat) + "}\n"@
}

/// Whether a method only reads.
pub open spec fn reads(method: Seq<char>) -> bool {
    method == "GET"@ || method == "HEAD"@
}

/// What a request is answered.
pub open spec fn routed(head: HeadView, counts: StatusCounts) -> Routed {
    if !reads(head.method) {
        Routed { status: 405, reason: "Method Not Allowed"@, body: "method not allowed\n"@ }
    } else if head.path == "/"@ {
        Routed { status: 200, reason: "OK"@, body: "Hello from tcp-actor-server\n"@ }
    } else if head.path == "/healthz"@ {
        Routed { status: 200, reason: "OK"@, body: "ok\n"@ }
    } else if head.path == "/status"@ {
        Routed { status: 200, reason: "OK"@, body: status_body(counts) }
    } else {
        Routed { status: 404, reason: "Not Found"@, body: "not found\n"@ }
    }
}

/// Whether the answer shows the counts.
pub open spec fn shows_counts(head: HeadView) -> bool {
    reads(head.method) && head.path == "/status"@
}

fn is_read(head: &RequestHead) -> (yes: bool)
    ensures
        yes == reads(head@.method),
{
    text::same(&head.method, "GET") || text::same(&head.method, "HEAD")
}

/// Routes a request to `(status, reason, body)`.
pub fn route(head: &RequestHead, counts: StatusCounts) -> (out: (u16, &'static str, String))
    ensures
        out.0 == routed(head@, counts).status,
        out.1@ == routed(head@, counts).reason,
        out.2@ == routed(head@, counts).body,
{
    if !is_read(head) {
        (405, "Method Not Allowed", "method not allowed\n".to_owned())
    } else if text::same(&head.path, "/") {
        (200, "OK", "Hello from tcp-actor-server\n".to_owned())
    } else if text::same(&head.path, "/healthz") {
        (200, "OK", "ok\n".to_owned())
    } else if text::same(&head.path, "/status") {
        let mut body = "{\"connections_active\":".to_owned();
        text::push_decimal(&mut body, counts.active);
        body.append(",\"connections_total\":");
        text::push_decimal(&mut body, counts.connections_total);
        body.append(",\"requests_total\":");
        text::push_decimal(&mut body, counts.requests_total);
        body.append("}\n");
        (200, "OK", body)
    } else {
        (404, "Not Found", "not found\n".to_owned())
    }
}

/// What the task that owns the socket does next.
#[derive(Debug)]
pub enum Action {
    /// Between requests: read with the idle timeout, and stop waiting at shutdown.
    ReadIdle,
    /// Inside a request: read until its deadline, which starts now if
    /// `start_deadline` says so.
    ReadRequest { start_deadline: bool },
    /// Write these bytes and close.
    Reject(Vec<u8>),
    /// A whole request is buffered: call [`Connection::serve`], with the current
    /// number of live connections if `wants_counts` says so.
    Serve { wants_counts: bool },
    /// Close without a word.
    Close,
}

/// The contents of an [`Action`].
pub enum Step {
    ReadIdle,
    ReadRequest { start_deadline: bool },
    Reject(Seq<u8>),
    Serve { wants_counts: bool },
    Close,
}

impl View for Action {
    type V = Step;

    open spec fn view(&self) -> Step {
        match *self {
            Action::ReadIdle => Step::ReadIdle,
            Action::ReadRequest { start_deadline } => Step::ReadRequest { start_deadline },
            Action::Reject(bytes) => Step::Reject(bytes@),
            Action::Serve { wants_counts } => Step::Serve { wants_counts },
            Action::Close => Step::Close,
        }
    }
}

/// The bytes of a short answer that closes the connection.
pub open spec fn closing_answer(status: nat, reason: Seq<char>, body: Seq<char>) -> Seq<u8> {
    utf8::encode_utf8(http::response_text(status, reason, body, false, true))
}

/// The state of a connection.
pub struct ConnState {
    /// What was received and not yet answered.
    pub buf: Seq<u8>,
    /// Whether the deadline of the request at the front has started.
    pub armed: bool,
    /// The head at the front once it is complete, with the size of its request.
    pub request: Option<(HeadView, nat)>,
    /// The largest body that is accepted.
    pub max_body: nat,
}

impl ConnState {
    /// What holds of every connection.
    pub open spec fn valid(self) -> bool {
        &&& self.max_body + MAX_HEAD_BYTES <= usize::MAX
        &&& self.armed ==> self.buf.len() > 0
        &&& self.request matches Some((head, total)) ==> {
            &&& head.content_length <= self.max_body
            &&& http::head_of(self.buf) matches Ok((h, len))
            &&& h == head
            &&& total == len + head.content_length
        }
    }

    /// The head at the front and the size of its request.
    pub open spec fn front(self) -> (HeadView, nat)
        recommends
            self.request is Some,
    {
        self.request.unwrap()
    }

    /// The request at the front is complete.
    pub open spec fn ready(self) -> bool {
        self.request matches Some((_, total)) && total <= self.buf.len()
    }
}

/// What a connection does next, and its state from then on.
pub open spec fn next_step(s: ConnState, shutdown: bool) -> (ConnState, Step) {
    match s.request {
        Some((head, total)) => if total <= s.buf.len() {
            (s, Step::Serve { wants_counts: shows_counts(head) })
        } else {
            (ConnState { armed: true, ..s }, Step::ReadRequest { start_deadline: !s.armed })
        },
        None => match http::head_of(s.buf) {
            Ok((head, len)) => if head.content_length > s.max_body {
                (
                    s,
                    Step::Reject(
                        closing_answer(413, "Payload Too Large"@, "payload too large\n"@),
                    ),
                )
            } else {
                let total = len + head.content_length;
                let framed = ConnState { request: Some((head, total)), ..s };
                if total <= s.buf.len() {
                    (framed, Step::Serve { wants_counts: shows_counts(head) })
                } else {
                    (
                        ConnState { armed: true, ..framed },
                        Step::ReadRequest { start_deadline: !s.armed },
                    )
                }
            },
            Err(ParseError::HeadTooLarge) => (
                s,
                Step::Reject(
                    closing_answer(
                        431,
                        "Request Header Fields Too Large"@,
                        "header too large\n"@,
                    ),
                ),
            ),
            Err(ParseError::Unsupported) => (
                s,
                Step::Reject(closing_answer(501, "Not Implemented"@, "unsupported framing\n"@)),
            ),
            Err(ParseError::Malformed) => (
                s,
                Step::Reject(closing_answer(400, "Bad Request"@, "bad request\n"@)),
            ),
            Err(ParseError::Incomplete) => if s.buf.len() > 0 {
                (ConnState { armed: true, ..s }, Step::ReadRequest { start_deadline: !s.armed })
            } else if shutdown {
                (s, Step::Close)
            } else {
                (s, Step::ReadIdle)
            },
        },
    }
}

/// How a read ends the connection; `None` where it goes on.
pub open spec fn read_verdict(s: ConnState, outcome: ReadOutcome) -> Option<Step> {
    match outcome {
        ReadOutcome::Bytes => None,
        ReadOutcome::Timeout => if s.armed {
            Some(Step::Reject(closing_answer(408, "Request Timeout"@, "request timeout\n"@)))
        } else {
            Some(Step::Close)
        },
        ReadOutcome::Eof => if s.armed && s.request is None {
            Some(Step::Reject(closing_answer(400, "Bad Request"@, "incomplete request\n"@)))
        } else {
            Some(Step::Close)
        },
        ReadOutcome::Shutdown | ReadOutcome::Failed => Some(Step::Close),
    }
}

/// Whether the connection stays open after the request at the front.
pub open spec fn stays_open(head: HeadView, shutdown: bool) -> bool {
    head.keep_alive && !shutdown
}

/// The answer to a request.
pub open spec fn answer(head: HeadView, counts: StatusCounts, shutdown: bool) -> Seq<u8> {
    let out = routed(head, counts);
    utf8::encode_utf8(
        http::response_text(
            out.status,
            out.reason,
            out.body,
            stays_open(head, shutdown),
            head.method != "HEAD"@,
        ),
    )
}

/// The state once the request at the front has been answered: its bytes are gone
/// and whatever followed them is at the front.
pub open spec fn answered(s: ConnState) -> ConnState
    recommends
        s.ready(),
{
    ConnState { buf: s.buf.skip(s.front().1 as int), armed: false, request: None, ..s }
}

/// An answer, and whether the connection stays open after it.
#[derive(Debug)]
pub struct Reply {
    pub bytes: Vec<u8>,
    pub keep_alive: bool,
}

/// The request whose head is complete.
struct Pending {
    head: RequestHead,
    total: usize,
}

/// The bytes received on a connection and what is known of the request at their
/// front.
pub struct Connection {
    buf: Vec<u8>,
    armed: bool,
    request: Option<Pending>,
    max_body: usize,
}

impl View for Connection {
    type V = ConnState;

    closed spec fn view(&self) -> ConnState {
        ConnState {
            buf: self.buf@,
            armed: self.armed,
            request: match self.request {
                Some(p) => Some((p.head@, p.total as nat)),
                None => None,
            },
            max_body: self.max_body as nat,
        }
    }
}

fn closing(status: u16, reason: &str, body: &str) -> (action: Action)
    ensures
        action@ == Step::Reject(closing_answer(status as nat, reason@, body@)),
{
    Action::Reject(build_response(status, reason, body, false, true))
}

impl Connection {
    /// A fresh connection that accepts bodies of at most `max_body` bytes.
    pub fn new(max_body: usize) -> (c: Self)
        requires
            max_body + MAX_HEAD_BYTES <= usize::MAX,
        ensures
            c@ == (ConnState {
                buf: Seq::empty(),
                armed: false,
                request: None,
                max_body: max_body as nat,
            }),
            c@.valid(),
    {
        Connection { buf: Vec::new(), armed: false, request: None, max_body }
    }

    /// A fresh connection like [`Connection::new`], which counts as one connection.
    pub fn open(max_body: usize, metrics: &mut Metrics) -> (c: Self)
        requires
            max_body + MAX_HEAD_BYTES <= usize::MAX,
        ensures
            c@ == (ConnState {
                buf: Seq::empty(),
                armed: false,
                request: None,
                max_body: max_body as nat,
            }),
            c@.valid(),
            final(metrics).connections() == counter::bumped(old(metrics).connections()),
            final(metrics).requests() == old(metrics).requests(),
    {
        metrics.on_connect();
        Connection::new(max_body)
    }

    /// Decides what to do next.
    pub fn next(&mut self, shutdown: bool) -> (action: Action)
        requires
            old(self)@.valid(),
        ensures
            final(self)@ == next_step(old(self)@, shutdown).0,
            action@ == next_step(old(self)@, shutdown).1,
            final(self)@.valid(),
    {
        if self.request.is_none() {
            match parse_head(&self.buf) {
                Ok((head, len)) => {
                    if head.content_length > self.max_body {
                        return closing(413, "Payload Too Large", "payload too large\n");
                    }
                    let total: usize = len + head.content_length;
                    self.request = Some(Pending { head, total });
                },
                Err(ParseError::HeadTooLarge) => {
                    return closing(431, "Request Header Fields Too Large", "header too large\n");
                },
                Err(ParseError::Unsupported) => {
                    return closing(501, "Not Implemented", "unsupported framing\n");
                },
                Err(ParseError::Malformed) => {
                    return closing(400, "Bad Request", "bad request\n");
                },
                Err(ParseError::Incomplete) => {
                    if self.buf.len() == 0 {
                        return if shutdown {
                            Action::Close
                        } else {
                            Action::ReadIdle
                        };
                    }
                },
            }
        }
        if let Some(p) = &self.request {
            if p.total <= self.buf.len() {
                let wants_counts = is_read(&p.head) && text::same(&p.head.path, "/status");
                return Action::Serve { wants_counts };
            }
            proof {
                http::head_depends_on_its_own_bytes_only(self.buf@);
                assert(self.buf@.len() > 0);
            }
        }
        let start_deadline = !self.armed;
        self.armed = true;
        Action::ReadRequest { start_deadline }
    }

    /// Takes in the result of a read that [`Connection::next`] asked for.
    pub fn receive(&mut self, result: ReadResult, tmp: &[u8]) -> (outcome: ReadOutcome)
        requires
            old(self)@.valid(),
            result matches ReadResult::Read(n) ==> n <= tmp@.len(),
        ensures
            outcome == outcome_of(result),
            final(self)@ == (ConnState {
                buf: old(self)@.buf + received(result, tmp@),
                ..old(self)@
            }),
            final(self)@.valid(),
    {
        let outcome = classify(result, &mut self.buf, tmp);
        proof {
            if old(self)@.request is Some {
                http::head_is_stable_under_more_input(old(self)@.buf, received(result, tmp@));
            }
        }
        outcome
    }

    /// Judges the outcome of a read: `None` says to go on with
    /// [`Connection::next`], anything else ends the connection.
    pub fn on_read(&self, outcome: ReadOutcome) -> (end: Option<Action>)
        ensures
            match end {
                Some(action) => read_verdict(self@, outcome) == Some(action@),
                None => read_verdict(self@, outcome) is None,
            },
    {
        match outcome {
            ReadOutcome::Bytes => None,
            ReadOutcome::Timeout => if self.armed {
                Some(closing(408, "Request Timeout", "request timeout\n"))
            } else {
                Some(Action::Close)
            },
            ReadOutcome::Eof => if self.armed && self.request.is_none() {
                Some(closing(400, "Bad Request", "incomplete request\n"))
            } else {
                Some(Action::Close)
            },
            ReadOutcome::Shutdown | ReadOutcome::Failed => Some(Action::Close),
        }
    }

    /// Answers the request at the front and drops it from the buffer.
    pub fn respond(&mut self, shutdown: bool, counts: StatusCounts) -> (reply: Reply)
        requires
            old(self)@.valid(),
            old(self)@.ready(),
        ensures
            reply.bytes@ == answer(old(self)@.front().0, counts, shutdown),
            reply.keep_alive == stays_open(old(self)@.front().0, shutdown),
            final(self)@ == answered(old(self)@),
            final(self)@.valid(),
    {
        let p = self.request.take().unwrap();
        let keep_alive = p.head.keep_alive && !shutdown;
        let is_head = text::same(&p.head.method, "HEAD");
        let (status, reason, body) = route(&p.head, counts);
        let bytes = build_response(status, reason, body.as_str(), keep_alive, !is_head);
        let n: usize = self.buf.len();
        self.buf = slice_to_vec(slice_subrange(&self.buf, p.total, n));
        self.armed = false;
        assert(self.buf@ =~= old(self)@.buf.skip(p.total as int));
        Reply { bytes, keep_alive }
    }

    /// Counts the request at the front as one request, then answers it like
    /// [`Connection::respond`]: the counts that it may show include itself.
    pub fn serve(&mut self, shutdown: bool, active: u64, metrics: &mut Metrics) -> (reply: Reply)
        requires
            old(self)@.valid(),
            old(self)@.ready(),
        ensures
            final(metrics).requests() == counter::bumped(old(metrics).requests()),
            final(metrics).connections() == old(metrics).connections(),
            reply.bytes@ == answer(
                old(self)@.front().0,
                StatusCounts {
                    active,
                    connections_total: final(metrics).connections(),
                    requests_total: final(metrics).requests(),
                },
                shutdown,
            ),
            reply.keep_alive == stays_open(old(self)@.front().0, shutdown),
            final(self)@ == answered(old(self)@),
            final(self)@.valid(),
    {
        metrics.on_request();
        let counts = StatusCounts {
            active,
            connections_total: metrics.connections_total(),
            requests_total: metrics.requests_total(),
        };
        self.respond(shutdown, counts)
    }
}

/// How a buffer is settled on its own: served or rejected, or `None` where more
/// bytes are needed.
pub open spec fn verdict(buf: Seq<u8>, max_body: nat) -> Option<Step> {
    match next_step(ConnState { buf, armed: false, request: None, max_body }, false).1 {
        Step::ReadIdle | Step::ReadRequest { .. } => None,
        step => Some(step),
    }
}

/// The verdict does not look at the bytes after the request at the front.
proof fn lemma_verdict_is_stable(buf: Seq<u8>, more: Seq<u8>, max_body: nat)
    requires
        verdict(buf, max_body) is Some,
    ensures
        verdict(buf + more, max_body) == verdict(buf, max_body),
{
    http::head_is_stable_under_more_input(buf, more);
}

/// What a connection does depends on the bytes it holds only through their
/// verdict.
proof fn lemma_next_step_gives_verdict(s: ConnState, shutdown: bool)
    requires
        s.valid(),
        shutdown ==> s.buf.len() > 0,
    ensures
        match next_step(s, shutdown).1 {
            Step::ReadIdle | Step::ReadRequest { .. } => verdict(s.buf, s.max_body) is None,
            step => verdict(s.buf, s.max_body) == Some(step),
        },
        next_step(s, shutdown).0.valid(),
        next_step(s, shutdown).0.buf == s.buf,
        next_step(s, shutdown).0.max_body == s.max_body,
{
    if http::head_of(s.buf) is Ok {
        http::head_depends_on_its_own_bytes_only(s.buf);
    }
}

/// The state after `chunk` has been received.
pub open spec fn with_more(s: ConnState, chunk: Seq<u8>) -> ConnState {
    ConnState { buf: s.buf + chunk, ..s }
}

proof fn lemma_more_keeps_valid(s: ConnState, chunk: Seq<u8>)
    requires
        s.valid(),
    ensures
        with_more(s, chunk).valid(),
{
    if s.request is Some {
        http::head_is_stable_under_more_input(s.buf, chunk);
    }
}

/// The bytes of several reads, one after the other.
pub open spec fn joined(chunks: Seq<Seq<u8>>) -> Seq<u8>
    decreases chunks.len(),
{
    if chunks.len() == 0 {
        Seq::empty()
    } else {
        chunks[0] + joined(chunks.drop_first())
    }
}

/// How a connection settles the request at its front as `chunks` are read one by
/// one; `None` where it still waits after the last of them.
pub open spec fn settled(s: ConnState, chunks: Seq<Seq<u8>>, shutdown: bool) -> Option<Step>
    decreases chunks.len(),
{
    let (t, step) = next_step(s, shutdown);
    match step {
        Step::ReadIdle | Step::ReadRequest { .. } => if chunks.len() == 0 {
            None
        } else {
            settled(with_more(t, chunks[0]), chunks.drop_first(), shutdown)
        },
        _ => Some(step),
    }
}

/// How often the deadline of the request at the front starts as `chunks` are read
/// one by one.
pub open spec fn deadline_starts(s: ConnState, chunks: Seq<Seq<u8>>, shutdown: bool) -> nat
    decreases chunks.len(),
{
    let (t, step) = next_step(s, shutdown);
    let now: nat = if step == (Step::ReadRequest { start_deadline: true }) {
        1
    } else {
        0
    };
    match step {
        Step::ReadIdle | Step::ReadRequest { .. } => if chunks.len() == 0 {
            now
        } else {
            now + deadline_starts(with_more(t, chunks[0]), chunks.drop_first(), shutdown)
        },
        _ => now,
    }
}

/// However its bytes trickle in, the deadline of a request starts at most once,
/// and not again once it is running.
pub proof fn deadline_starts_once(s: ConnState, chunks: Seq<Seq<u8>>, shutdown: bool)
    ensures
        deadline_starts(s, chunks, shutdown) <= 1,
        s.armed ==> deadline_starts(s, chunks, shutdown) == 0,
    decreases chunks.len(),
{
    let (t, step) = next_step(s, shutdown);
    if (step is ReadIdle || step is ReadRequest) && chunks.len() > 0 {
        deadline_starts_once(with_more(t, chunks[0]), chunks.drop_first(), shutdown);
    }
}

/// How a request is settled depends on the bytes sent and not on how they are cut
/// into reads.
pub proof fn framing_ignores_chunking(s: ConnState, chunks: Seq<Seq<u8>>, shutdown: bool)
    requires
        s.valid(),
        shutdown ==> s.buf.len() > 0,
    ensures
        settled(s, chunks, shutdown) == verdict(s.buf + joined(chunks), s.max_body),
    decreases chunks.len(),
{
    let (t, step) = next_step(s, shutdown);
    lemma_next_step_gives_verdict(s, shutdown);
    if step is ReadIdle || step is ReadRequest {
        if chunks.len() == 0 {
            assert(s.buf + joined(chunks) =~= s.buf);
        } else {
            lemma_more_keeps_valid(t, chunks[0]);
            framing_ignores_chunking(with_more(t, chunks[0]), chunks.drop_first(), shutdown);
            assert(s.buf + joined(chunks) =~= (s.buf + chunks[0]) + joined(chunks.drop_first()));
        }
    } else {
        lemma_verdict_is_stable(s.buf, joined(chunks), s.max_body);
    }
}

/// A buffer that holds exactly one request which is to be served.
pub open spec fn one_request(buf: Seq<u8>, max_body: nat) -> bool {
    &&& http::head_of(buf) matches Ok((head, len))
    &&& head.content_length <= max_body
    &&& len + head.content_length == buf.len()
}

/// A request that arrives together with others behind it is served as if it had
/// come alone, and exactly the bytes behind it are left.
pub proof fn pipelined_requests_are_kept(
    request: Seq<u8>,
    rest: Seq<u8>,
    max_body: nat,
    shutdown: bool,
)
    requires
        one_request(request, max_body),
    ensures
        ({
            let alone = ConnState { buf: request, armed: false, request: None, max_body };
            let s = ConnState { buf: request + rest, armed: false, request: None, max_body };
            let (t, step) = next_step(s, shutdown);
            &&& step is Serve
            &&& step == next_step(alone, shutdown).1
            &&& t.ready()
            &&& t.request == next_step(alone, shutdown).0.request
            &&& answered(t) == (ConnState { buf: rest, armed: false, request: None, max_body })
        }),
{
    http::head_is_stable_under_more_input(request, rest);
    assert((request + rest).skip(request.len() as int) =~= rest);
}

/// The heads of the requests that a stream of bytes starts with, up to the first
/// that is not complete or is not to be served.
pub open spec fn requests_in(stream: Seq<u8>, max_body: nat) -> Seq<HeadView>
    decreases stream.len(),
{
    match http::head_of(stream) {
        Ok((head, len)) => {
            let total = len + head.content_length;
            if head.content_length <= max_body && 0 < total <= stream.len() {
                seq![head] + requests_in(stream.skip(total as int), max_body)
            } else {
                Seq::empty()
            }
        },
        Err(_) => Seq::empty(),
    }
}

/// The head of a request.
pub open spec fn head_at(request: Seq<u8>) -> HeadView {
    http::head_of(request)->Ok_0.0
}

/// A request in front of others is found first, and the others are found as
/// before.
proof fn lemma_first_request(first: Seq<u8>, tail: Seq<u8>, max_body: nat)
    requires
        one_request(first, max_body),
    ensures
        requests_in(first + tail, max_body) == seq![head_at(first)] + requests_in(tail, max_body),
{
    http::head_is_stable_under_more_input(first, tail);
    http::head_depends_on_its_own_bytes_only(first);
    assert((first + tail).skip(first.len() as int) =~= tail);
}

/// The heads of a list of requests.
pub open spec fn heads_of(requests: Seq<Seq<u8>>) -> Seq<HeadView>
    decreases requests.len(),
{
    if requests.len() == 0 {
        Seq::empty()
    } else {
        seq![head_at(requests[0])] + heads_of(requests.drop_first())
    }
}

/// Pipelining: requests sent one after the other are all found, each as if it had
/// been sent alone, in the order in which they were sent.
pub proof fn pipelined_requests_are_all_found(
    requests: Seq<Seq<u8>>,
    rest: Seq<u8>,
    max_body: nat,
)
    requires
        forall|i: int| 0 <= i < requests.len() ==> one_request(#[trigger] requests[i], max_body),
    ensures
        requests_in(joined(requests) + rest, max_body) == heads_of(requests) + requests_in(
            rest,
            max_body,
        ),
    decreases requests.len(),
{
    if requests.len() == 0 {
        assert(joined(requests) + rest =~= rest);
        assert(heads_of(requests) + requests_in(rest, max_body) =~= requests_in(rest, max_body));
    } else {
        let first = requests[0];
        let others = requests.drop_first();
        let tail = joined(others) + rest;
        pipelined_requests_are_all_found(others, rest, max_body);
        lemma_first_request(first, tail, max_body);
        assert(joined(requests) + rest =~= first + tail);
        assert(heads_of(requests) + requests_in(rest, max_body) =~= seq![head_at(first)] + (
        heads_of(others) + requests_in(rest, max_body)));
    }
}

/// A connection serves exactly the requests in the stream that it holds, one after
/// the other: it serves the first of them and goes on with the others, and it
/// serves nothing where there is none.
pub proof fn connection_serves_its_stream(s: ConnState, shutdown: bool)
    requires
        s.valid(),
    ensures
        ({
            let (t, step) = next_step(s, shutdown);
            let found = requests_in(s.buf, s.max_body);
            if step is Serve {
                &&& t.ready()
                &&& found == seq![t.front().0] + requests_in(answered(t).buf, s.max_body)
            } else {
                found.len() == 0
            }
        }),
{
    if http::head_of(s.buf) is Ok {
        http::head_depends_on_its_own_bytes_only(s.buf);
    }
}

/// What comes of the requests that a connection holds.
pub struct Exchange {
    /// What is written, in order.
    pub written: Seq<u8>,
    /// The count of requests afterwards.
    pub requests_total: u64,
    /// Whether the connection is closed after the last of them.
    pub closed: bool,
}

/// Serves the requests that a connection holds, one after the other, until one of
/// them closes it, none is left or no more counts are given. `shown` holds the counts
/// at each answer, which other connections may raise too.
pub open spec fn exchange(
    s: ConnState,
    shown: Seq<StatusCounts>,
    requests_total: u64,
) -> Exchange
    decreases shown.len(),
{
    let (t, step) = next_step(s, false);
    if shown.len() == 0 || !(step is Serve) {
        Exchange { written: Seq::empty(), requests_total, closed: false }
    } else {
        let (head, _) = t.front();
        let first = answer(head, shown[0], false);
        let total = counter::bumped(requests_total);
        if stays_open(head, false) {
            let rest = exchange(answered(t), shown.drop_first(), total);
            Exchange { written: first + rest.written, ..rest }
        } else {
            Exchange { written: first, requests_total: total, closed: true }
        }
    }
}

/// The answers to a list of requests, one after the other.
pub open spec fn answers_to(requests: Seq<Seq<u8>>, shown: Seq<StatusCounts>) -> Seq<u8>
    recommends
        shown.len() == requests.len(),
    decreases requests.len(),
{
    if requests.len() == 0 {
        Seq::empty()
    } else {
        answer(head_at(requests[0]), shown[0], false) + answers_to(
            requests.drop_first(),
            shown.drop_first(),
        )
    }
}

/// Requests sent back to back, of which only the last asks to close, are each
/// answered once, in order, and each counts once; what follows them is not looked at,
/// and the connection is closed after the last answer.
pub proof fn back_to_back_requests_are_each_answered(
    requests: Seq<Seq<u8>>,
    rest: Seq<u8>,
    max_body: nat,
    shown: Seq<StatusCounts>,
    requests_total: u64,
)
    requires
        requests.len() > 0,
        shown.len() == requests.len(),
        forall|i: int| 0 <= i < requests.len() ==> one_request(#[trigger] requests[i], max_body),
        forall|i: int|
            0 <= i < requests.len() ==> head_at(#[trigger] requests[i]).keep_alive == (i
                < requests.len() - 1),
    ensures
        exchange(
            ConnState { buf: joined(requests) + rest, armed: false, request: None, max_body },
            shown,
            requests_total,
        ) == (Exchange {
            written: answers_to(requests, shown),
            requests_total: counter::bumped_by(requests_total, requests.len()),
            closed: true,
        }),
    decreases requests.len(),
{
    let first = requests[0];
    let others = requests.drop_first();
    let tail = joined(others) + rest;
    let s = ConnState { buf: joined(requests) + rest, armed: false, request: None, max_body };
    assert(joined(requests) + rest =~= first + tail);
    pipelined_requests_are_kept(first, tail, max_body, false);
    let (t, step) = next_step(s, false);
    assert(t.front().0 == head_at(first)) by {
        http::head_is_stable_under_more_input(first, tail);
    }
    assert(head_at(requests[0]).keep_alive == (0 < requests.len() - 1));
    if requests.len() == 1 {
        assert(answers_to(others, shown.drop_first()) =~= Seq::<u8>::empty());
        assert(answers_to(requests, shown) =~= answer(head_at(first), shown[0], false));
        assert(counter::bumped_by(counter::bumped(requests_total), 0) == counter::bumped(
            requests_total,
        ));
    } else {
        assert forall|i: int| 0 <= i < others.len() implies one_request(
            #[trigger] others[i],
            max_body,
        ) && head_at(others[i]).keep_alive == (i < others.len() - 1) by {
            assert(others[i] == requests[i + 1]);
        }
        back_to_back_requests_are_each_answered(
            others,
            rest,
            max_body,
            shown.drop_first(),
            counter::bumped(requests_total),
        );
    }
}

/// A connection that reads holds at most one head and one body, so that the
/// memory of a connection is bounded.
pub proof fn buffer_is_bounded(s: ConnState, shutdown: bool)
    requires
        s.valid(),
        next_step(s, shutdown).1 is ReadIdle || next_step(s, shutdown).1 is ReadRequest,
    ensures
        s.buf.len() <= MAX_HEAD_BYTES + s.max_body,
{
    http::incomplete_means_no_blank_line(s.buf);
    if http::head_of(s.buf) is Ok {
        http::head_depends_on_its_own_bytes_only(s.buf);
    }
}

/// During shutdown no request is answered with a promise to keep the connection,
/// and an idle connection closes.
pub proof fn shutdown_closes(head: HeadView, counts: StatusCounts, s: ConnState)
    ensures
        !stays_open(head, true),
        answer(head, counts, true) == answer(
            HeadView { keep_alive: false, ..head },
            counts,
            true,
        ),
        s.request is None && s.buf.len() == 0 ==> next_step(s, true).1 == Step::Close,
{
    if s.request is None && s.buf.len() == 0 {
        assert forall|i: int| !#[trigger] text::first_at(s.buf, http::blank_line(), i) by {
            assert(http::blank_line().len() == 4);
        }
    }
}

/// The bytes are a response with this status.
pub open spec fn answers_with(bytes: Seq<u8>, status: nat, reason: Seq<char>) -> bool {
    utf8::encode_utf8("HTTP/1.1 "@ + text::decimal_text(status) + " "@ + reason).is_prefix_of(bytes)
}

/// Only what reads is routed, and to three paths; `GET` and `HEAD` are routed alike, and
/// the status page shows the counts.
pub proof fn routes_are_three_pages(
    head: RequestHead,
    counts: StatusCounts,
    out: (u16, &'static str, String),
)
    requires
        call_ensures(route, (&head, counts), out),
    ensures
        head.method@ != "GET"@ && head.method@ != "HEAD"@ ==> out.0 == 405,
        head.method@ == "GET"@ || head.method@ == "HEAD"@ ==> (out.0 == 200 <==> head.path@ == "/"@
            || head.path@ == "/healthz"@ || head.path@ == "/status"@),
        head.method@ == "GET"@ || head.method@ == "HEAD"@ ==> out.0 == 200 || out.0 == 404,
        out.0 == 200 && head.path@ == "/healthz"@ ==> out.2@ == "ok\n"@,
        out.0 == 200 && head.path@ == "/"@ ==> out.2@ == "Hello from tcp-actor-server\n"@,
        out.0 == 200 && head.path@ == "/status"@ ==> out.2@ == "{\"connections_active\":"@
            + text::decimal_text(counts.active as nat) + ",\"connections_total\":"@
            + text::decimal_text(counts.connections_total as nat) + ",\"requests_total\":"@
            + text::decimal_text(counts.requests_total as nat) + "}\n"@,
{
    reveal_strlit("/");
    reveal_strlit("/healthz");
    reveal_strlit("/status");
    assert("/"@.len() != "/healthz"@.len());
    assert("/status"@.len() != "/healthz"@.len());
    assert("/status"@.len() != "/"@.len());
}

/// Two requests that differ in `GET` and `HEAD` only are routed alike, and the path alone
/// decides between pages.
pub proof fn head_is_routed_like_get(
    get: RequestHead,
    head: RequestHead,
    counts: StatusCounts,
    a: (u16, &'static str, String),
    b: (u16, &'static str, String),
)
    requires
        get.method@ == "GET"@,
        head.method@ == "HEAD"@,
        get.path@ == head.path@,
        call_ensures(route, (&get, counts), a),
        call_ensures(route, (&head, counts), b),
    ensures
        a.0 == b.0 && a.1@ == b.1@ && a.2@ == b.2@,
{
}

/// A request whose head and body are there is served; while its body is missing, the
/// connection reads on; a body over the limit is answered 413, and what cannot be a head
/// 431, 501 or 400.
pub proof fn requests_are_served_or_refused(s: ConnState, shutdown: bool)
    requires
        s.request is None,
        s.buf.len() > 0,
    ensures
        ({
            let step = next_step(s, shutdown).1;
            match http::head_of(s.buf) {
                Ok((head, len)) => {
                    &&& head.content_length > s.max_body ==> (step matches Step::Reject(b)
                        && answers_with(b, 413, "Payload Too Large"@))
                    &&& head.content_length <= s.max_body && len + head.content_length
                        <= s.buf.len() ==> step is Serve
                    &&& head.content_length <= s.max_body && len + head.content_length
                        > s.buf.len() ==> step is ReadRequest
                },
                Err(ParseError::Incomplete) => step is ReadRequest,
                Err(ParseError::HeadTooLarge) => step matches Step::Reject(b) && answers_with(
                    b,
                    431,
                    "Request Header Fields Too Large"@,
                ),
                Err(ParseError::Unsupported) => step matches Step::Reject(b) && answers_with(
                    b,
                    501,
                    "Not Implemented"@,
                ),
                Err(ParseError::Malformed) => step matches Step::Reject(b) && answers_with(
                    b,
                    400,
                    "Bad Request"@,
                ),
            }
        }),
{
    http::responses_start_with_their_status(
        413,
        "Payload Too Large"@,
        "payload too large\n"@,
        false,
        true,
    );
    http::responses_start_with_their_status(
        431,
        "Request Header Fields Too Large"@,
        "header too large\n"@,
        false,
        true,
    );
    http::responses_start_with_their_status(
        501,
        "Not Implemented"@,
        "unsupported framing\n"@,
        false,
        true,
    );
    http::responses_start_with_their_status(400, "Bad Request"@, "bad request\n"@, false, true);
}

/// A request that runs out of time is answered 408, and one that breaks off within its
/// head 400; a connection between requests, and one that breaks off within a body,
/// closes without a word.
pub proof fn broken_off_requests_are_answered(s: ConnState)
    ensures
        read_verdict(s, ReadOutcome::Bytes) is None,
        s.armed ==> (read_verdict(s, ReadOutcome::Timeout) matches Some(Step::Reject(b))
            && answers_with(b, 408, "Request Timeout"@)),
        !s.armed ==> read_verdict(s, ReadOutcome::Timeout) == Some(Step::Close),
        s.armed && s.request is None ==> (read_verdict(s, ReadOutcome::Eof) matches Some(
            Step::Reject(b),
        ) && answers_with(b, 400, "Bad Request"@)),
        !s.armed || s.request is Some ==> read_verdict(s, ReadOutcome::Eof) == Some(Step::Close),
        read_verdict(s, ReadOutcome::Shutdown) == Some(Step::Close),
        read_verdict(s, ReadOutcome::Failed) == Some(Step::Close),
{
    http::responses_start_with_their_status(
        408,
        "Request Timeout"@,
        "request timeout\n"@,
        false,
        true,
    );
    http::responses_start_with_their_status(
        400,
        "Bad Request"@,
        "incomplete request\n"@,
        false,
        true,
    );
}

/// A connection stays open exactly if the request allows it and nothing is shut down,
/// and the answer says so; the answer to a page that is found has the status 200.
pub proof fn answers_keep_the_connection_as_asked(
    head: HeadView,
    counts: StatusCounts,
    shutdown: bool,
)
    ensures
        stays_open(head, shutdown) <==> head.keep_alive && !shutdown,
        (head.method == "GET"@ || head.method == "HEAD"@) && (head.path == "/"@ || head.path
            == "/healthz"@ || head.path == "/status"@) ==> answers_with(
            answer(head, counts, shutdown),
            200,
            "OK"@,
        ),
        (head.method == "GET"@ || head.method == "HEAD"@) && head.path != "/"@ && head.path
            != "/healthz"@ && head.path != "/status"@ ==> answers_with(
            answer(head, counts, shutdown),
            404,
            "Not Found"@,
        ),
        head.method != "GET"@ && head.method != "HEAD"@ ==> answers_with(
            answer(head, counts, shutdown),
            405,
            "Method Not Allowed"@,
        ),
{
    let out = routed(head, counts);
    http::responses_start_with_their_status(
        out.status,
        out.reason,
        out.body,
        stays_open(head, shutdown),
        head.method != "HEAD"@,
    );
}

/// What was read is appended as it is, and a read of nothing is the end.
pub proof fn reads_append_what_came(n: usize, tmp: Seq<u8>)
    requires
        n <= tmp.len(),
    ensures
        received(ReadResult::Read(n), tmp).len() == n,
        forall|i: int| 0 <= i < n ==> #[trigger] received(ReadResult::Read(n), tmp)[i] == tmp[i],
        received(ReadResult::Elapsed, tmp).len() == 0 && received(ReadResult::Failed, tmp).len()
            == 0,
        outcome_of(ReadResult::Read(n)) is Eof <==> n == 0,
        n > 0 ==> outcome_of(ReadResult::Read(n)) is Bytes,
        outcome_of(ReadResult::Elapsed) is Timeout && outcome_of(ReadResult::Failed) is Failed,
{
}

/// A connection waits for the rest of a request, whose deadline starts with the first
/// such wait. It waits for a request where nothing has come, and closes there at a
/// shutdown. A request that is there is served. Nothing that was received is touched.
pub proof fn connections_wait_for_whole_requests(c: &mut Connection, shutdown: bool, action: Action)
    requires
        old(c)@.valid(),
        call_ensures(Connection::next, (c, shutdown), action),
    ensures
        final(c)@.buf == old(c)@.buf && final(c)@.max_body == old(c)@.max_body,
        action is ReadIdle <==> old(c)@.buf.len() == 0 && !shutdown,
        action is Close <==> old(c)@.buf.len() == 0 && shutdown,
        action is ReadRequest ==> action->start_deadline == !old(c)@.armed && final(c)@.armed,
        !(action is ReadRequest) ==> final(c)@.armed == old(c)@.armed,
        action is Serve ==> {
            &&& final(c)@.request is Some
            &&& ({
                let (head, total) = final(c)@.request->Some_0;
                &&& total <= old(c)@.buf.len()
                &&& action->wants_counts <==> (head.method == "GET"@ || head.method == "HEAD"@)
                    && head.path == "/status"@
            })
        },
        old(c)@.request is Some ==> {
            let total = (old(c)@.request->Some_0).1;
            &&& final(c)@.request == old(c)@.request
            &&& total <= old(c)@.buf.len() ==> action is Serve
            &&& total > old(c)@.buf.len() ==> action is ReadRequest
        },
        old(c)@.request is None ==> match http::head_of(old(c)@.buf) {
            Ok((head, len)) => {
                &&& head.content_length > old(c)@.max_body ==> action is Reject && http::carries(
                    action->Reject_0@,
                    413,
                    "Payload Too Large"@,
                    "payload too large\n"@,
                    false,
                    true,
                )
                &&& head.content_length <= old(c)@.max_body ==> final(c)@.request == Some(
                    (head, (len + head.content_length) as nat),
                ) && (action is Serve <==> len + head.content_length <= old(c)@.buf.len()) && (
                action is Serve || action is ReadRequest)
            },
            Err(ParseError::Incomplete) => old(c)@.buf.len() > 0 ==> action is ReadRequest,
            Err(ParseError::HeadTooLarge) => action is Reject && http::carries(
                action->Reject_0@,
                431,
                "Request Header Fields Too Large"@,
                "header too large\n"@,
                false,
                true,
            ),
            Err(ParseError::Unsupported) => action is Reject && http::carries(
                action->Reject_0@,
                501,
                "Not Implemented"@,
                "unsupported framing\n"@,
                false,
                true,
            ),
            Err(ParseError::Malformed) => action is Reject && http::carries(
                action->Reject_0@,
                400,
                "Bad Request"@,
                "bad request\n"@,
                false,
                true,
            ),
        },
{
    http::responses_carry_their_parts(
        413,
        "Payload Too Large"@,
        "payload too large\n"@,
        false,
        true,
    );
    http::responses_carry_their_parts(
        431,
        "Request Header Fields Too Large"@,
        "header too large\n"@,
        false,
        true,
    );
    http::responses_carry_their_parts(
        501,
        "Not Implemented"@,
        "unsupported framing\n"@,
        false,
        true,
    );
    http::responses_carry_their_parts(400, "Bad Request"@, "bad request\n"@, false, true);
    let buf = old(c)@.buf;
    if buf.len() == 0 {
        assert forall|i: int| !#[trigger] text::first_at(buf, http::blank_line(), i) by {
            assert(http::blank_line().len() == 4);
        }
    }
    if http::head_of(buf) is Ok {
        http::head_depends_on_its_own_bytes_only(buf);
    }
}

/// A request is answered with its page, to `HEAD` without the page itself. The answer
/// says whether the connection stays open, which it does exactly if the request allows
/// it and nothing is shut down. The request alone is dropped, and the next one starts
/// afresh.
pub proof fn requests_are_answered_with_their_page(
    c: &mut Connection,
    shutdown: bool,
    counts: StatusCounts,
    reply: Reply,
)
    requires
        old(c)@.valid(),
        old(c)@.ready(),
        call_ensures(Connection::respond, (c, shutdown, counts), reply),
    ensures
        ({
            let (head, total) = old(c)@.request->Some_0;
            let open = head.keep_alive && !shutdown;
            let read = head.method == "GET"@ || head.method == "HEAD"@;
            let whole = head.method != "HEAD"@;
            let bytes = reply.bytes@;
            &&& reply.keep_alive == open
            &&& !read ==> http::carries(
                bytes,
                405,
                "Method Not Allowed"@,
                "method not allowed\n"@,
                open,
                true,
            )
            &&& read && head.path == "/"@ ==> http::carries(
                bytes,
                200,
                "OK"@,
                "Hello from tcp-actor-server\n"@,
                open,
                whole,
            )
            &&& read && head.path == "/healthz"@ ==> http::carries(
                bytes,
                200,
                "OK"@,
                "ok\n"@,
                open,
                whole,
            )
            &&& read && head.path == "/status"@ ==> http::carries(
                bytes,
                200,
                "OK"@,
                "{\"connections_active\":"@ + text::decimal_text(counts.active as nat)
                    + ",\"connections_total\":"@ + text::decimal_text(
                    counts.connections_total as nat,
                ) + ",\"requests_total\":"@ + text::decimal_text(counts.requests_total as nat)
                    + "}\n"@,
                open,
                whole,
            )
            &&& read && head.path != "/"@ && head.path != "/healthz"@ && head.path != "/status"@
                ==> http::carries(bytes, 404, "Not Found"@, "not found\n"@, open, whole)
            &&& final(c)@.buf == old(c)@.buf.skip(total as int)
            &&& final(c)@.request is None
            &&& !final(c)@.armed
            &&& final(c)@.max_body == old(c)@.max_body
        }),
{
    let (head, total) = old(c)@.request->Some_0;
    let out = routed(head, counts);
    http::responses_carry_their_parts(
        out.status,
        out.reason,
        out.body,
        head.keep_alive && !shutdown,
        head.method != "HEAD"@,
    );
    reveal_strlit("/");
    reveal_strlit("/healthz");
    reveal_strlit("/status");
    assert("/"@.len() != "/healthz"@.len());
    assert("/status"@.len() != "/healthz"@.len());
    assert("/status"@.len() != "/"@.len());
}

/// Serving counts one request and no connection, and the counts that an answer shows
/// include the request that it answers.
pub proof fn served_requests_count_themselves(
    c: &mut Connection,
    shutdown: bool,
    active: u64,
    metrics: &mut Metrics,
    reply: Reply,
)
    requires
        old(c)@.valid(),
        old(c)@.ready(),
        call_ensures(Connection::serve, (c, shutdown, active, metrics), reply),
    ensures
        old(metrics).requests() < u64::MAX ==> final(metrics).requests() == old(metrics).requests()
            + 1,
        final(metrics).connections() == old(metrics).connections(),
        ({
            let (head, total) = old(c)@.request->Some_0;
            let open = head.keep_alive && !shutdown;
            &&& reply.keep_alive == open
            &&& head.method == "GET"@ && head.path == "/status"@ ==> http::carries(
                reply.bytes@,
                200,
                "OK"@,
                "{\"connections_active\":"@ + text::decimal_text(active as nat)
                    + ",\"connections_total\":"@ + text::decimal_text(
                    old(metrics).connections() as nat,
                ) + ",\"requests_total\":"@ + text::decimal_text(
                    final(metrics).requests() as nat,
                ) + "}\n"@,
                open,
                true,
            )
            &&& head.method == "GET"@ && head.path == "/healthz"@ ==> http::carries(
                reply.bytes@,
                200,
                "OK"@,
                "ok\n"@,
                open,
                true,
            )
            &&& final(c)@.buf == old(c)@.buf.skip(total as int)
        }),
{
    let (head, total) = old(c)@.request->Some_0;
    let counts = StatusCounts {
        active,
        connections_total: final(metrics).connections(),
        requests_total: final(metrics).requests(),
    };
    let out = routed(head, counts);
    http::responses_carry_their_parts(
        out.status,
        out.reason,
        out.body,
        head.keep_alive && !shutdown,
        head.method != "HEAD"@,
    );
    reveal_strlit("/");
    reveal_strlit("/healthz");
    reveal_strlit("/status");
    reveal_strlit("GET");
    reveal_strlit("HEAD");
    assert("GET"@.len() != "HEAD"@.len());
    assert("/"@.len() != "/healthz"@.len());
    assert("/status"@.len() != "/healthz"@.len());
    assert("/status"@.len() != "/"@.len());
}

/// Bytes that were read go behind those that are there, and nothing else changes. A read
/// of nothing is the end of the stream.
pub proof fn received_bytes_are_kept_in_order(
    c: &mut Connection,
    n: usize,
    tmp: &[u8],
    outcome: ReadOutcome,
)
    requires
        old(c)@.valid(),
        n <= tmp@.len(),
        call_ensures(Connection::receive, (c, ReadResult::Read(n), tmp), outcome),
    ensures
        final(c)@.buf =~= old(c)@.buf + tmp@.take(n as int),
        final(c)@.armed == old(c)@.armed && final(c)@.request == old(c)@.request,
        final(c)@.max_body == old(c)@.max_body,
        n == 0 ==> outcome is Eof,
        n > 0 ==> outcome is Bytes,
{
}

/// A read ends the connection unless bytes came. Where a request runs out of time, or
/// breaks off within its head, its client is told so before the connection closes.
pub proof fn reads_end_the_connection_unless_bytes_came(
    c: Connection,
    outcome: ReadOutcome,
    end: Option<Action>,
)
    requires
        call_ensures(Connection::on_read, (&c, outcome), end),
    ensures
        end is None <==> outcome is Bytes,
        outcome is Timeout && c@.armed ==> end->Some_0 is Reject && http::carries(
            end->Some_0->Reject_0@,
            408,
            "Request Timeout"@,
            "request timeout\n"@,
            false,
            true,
        ),
        outcome is Eof && c@.armed && c@.request is None ==> end->Some_0 is Reject
            && http::carries(
            end->Some_0->Reject_0@,
            400,
            "Bad Request"@,
            "incomplete request\n"@,
            false,
            true,
        ),
        outcome is Timeout && !c@.armed ==> end->Some_0 is Close,
        outcome is Eof && (!c@.armed || c@.request is Some) ==> end->Some_0 is Close,
        outcome is Shutdown || outcome is Failed ==> end->Some_0 is Close,
{
    http::responses_carry_their_parts(408, "Request Timeout"@, "request timeout\n"@, false, true);
    http::responses_carry_their_parts(400, "Bad Request"@, "incomplete request\n"@, false, true);
}

/// A new connection has received nothing, waits for nothing, and counts as one.
pub proof fn new_connections_count_once(max_body: usize, metrics: &mut Metrics, c: Connection)
    requires
        max_body + MAX_HEAD_BYTES <= usize::MAX,
        call_ensures(Connection::open, (max_body, metrics), c),
    ensures
        c@.buf.len() == 0 && !c@.armed && c@.request is None && c@.max_body == max_body,
        old(metrics).connections() < u64::MAX ==> final(metrics).connections()
            == old(metrics).connections() + 1,
        final(metrics).requests() == old(metrics).requests(),
{
}

} // verus!
